//! The providers of market data: how each is asked, and how its answer
//! becomes a series in the common representation.

pub mod alphavantage;
pub mod finnhub;
pub mod iexcloud;
pub mod massive;
pub mod polygon_io;
pub mod twelvedata;
pub mod yahoo_finance;

use crate::client::{MarketSeries, MarketSeriesView};
use crate::errors::{Failure, MarketError, MarketResult};
use vstd::prelude::*;

verus! {

/// The text of an optional text.
pub open spec fn text_of(text: Option<String>) -> Option<Seq<char>> {
    match text {
        Some(t) => Some(t@),
        None => None,
    }
}

/// The outcome of a transformation as a value.
pub open spec fn outcome_of(r: MarketResult<MarketSeries>) -> Result<MarketSeriesView, Failure> {
    match r {
        Ok(series) => Ok(series@),
        Err(e) => Err(e@),
    }
}

pub(crate) fn downloaded(prefix: &str, detail: &str) -> (r: MarketError)
    ensures
        r@ == Failure::DownloadedData(prefix@ + detail@),
{
    let mut message = String::from_str(prefix);
    message.append(detail);
    MarketError::DownloadedData(message)
}

/// The outcomes of some transformations as values.
pub open spec fn outcomes_of(results: Seq<MarketResult<MarketSeries>>) -> Seq<
    Result<MarketSeriesView, Failure>,
> {
    Seq::new(results.len(), |i: int| outcome_of(results[i]))
}

/// An error that says that a field could not be read.
pub(crate) fn unparsed(message: &str) -> (r: MarketError)
    ensures
        r@ == Failure::ParsingError(message@),
{
    MarketError::ParsingError(String::from_str(message))
}

} // verus!

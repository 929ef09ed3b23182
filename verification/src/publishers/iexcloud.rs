//! IEX Cloud: historical daily prices.

use crate::client::{Date, Interval, MarketSeries, MarketSeriesView, Series};
use crate::dates::{date_from, lemma_date_from, parsed_date};
use crate::endpoint::{
    first_unresolved, lemma_first_unresolved, resolve_all, resolved, texts_of,
};
use crate::errors::{Failure, MarketError, MarketResult};
use crate::fixed::Price;
use crate::publishers::outcomes_of;
use crate::sorting::{sort_by_date, sorted_by_date};
use vstd::prelude::*;

verus! {

/// Where IEX Cloud answers.
pub const BASE_URL: &'static str = "https://api.iex.cloud/v1/stock/";

/// A request to IEX Cloud: the daily prices of a symbol over a range such as `2y`.
#[derive(Debug)]
pub struct IexRequest {
    symbol: String,
    range: String,
}

/// A request to IEX Cloud as a value.
pub struct IexAsk {
    pub symbol: Seq<char>,
    pub range: Seq<char>,
}

impl View for IexRequest {
    type V = IexAsk;

    closed spec fn view(&self) -> IexAsk {
        IexAsk { symbol: self.symbol@, range: self.range@ }
    }
}

impl Default for IexRequest {
    fn default() -> (r: IexRequest)
        ensures
            r@ == (IexAsk { symbol: Seq::empty(), range: Seq::empty() }),
    {
        IexRequest { symbol: String::new(), range: String::new() }
    }
}

/// One day of a response.
#[derive(Debug)]
pub struct IexDailyPrices {
    pub close: Price,
    pub high: Price,
    pub low: Price,
    pub open: Price,
    pub symbol: String,
    /// volume, in ticks
    pub volume: i64,
    /// the day, as in `2024-01-31`
    pub date: String,
}

/// The reference, from the base, of the endpoint that answers a request.
pub open spec fn iex_reference(token: Seq<char>, request: IexAsk) -> Seq<char> {
    request.symbol + "/chart/"@ + request.range + "?token="@ + token
}

/// The references of some requests.
pub open spec fn iex_references(token: Seq<char>, requests: Seq<IexAsk>) -> Seq<Seq<char>> {
    Seq::new(requests.len(), |i: int| iex_reference(token, requests[i]))
}

/// The requests of a list as values.
pub open spec fn asks_of(requests: Seq<IexRequest>) -> Seq<IexAsk> {
    Seq::new(requests.len(), |i: int| requests[i]@)
}

/// The first position from `from` on whose day cannot be read, or the number
/// of days if every one can.
pub open spec fn first_undated(days: Seq<IexDailyPrices>, from: int) -> int
    decreases days.len() - from,
{
    if from >= days.len() {
        days.len() as int
    } else if parsed_date(days[from].date@, "%Y-%m-%d"@) is Err {
        from
    } else {
        first_undated(days, from + 1)
    }
}

/// The bar of one day.
pub open spec fn day_bar(day: IexDailyPrices) -> Series {
    Series {
        date: date_from(parsed_date(day.date@, "%Y-%m-%d"@)->Ok_0),
        open: day.open,
        close: day.close,
        high: day.high,
        low: day.low,
        volume: day.volume,
    }
}

/// The bars of the days that come before the first whose date cannot be read.
pub open spec fn read_bars(days: Seq<IexDailyPrices>) -> Seq<Series> {
    Seq::new(first_undated(days, 0) as nat, |i: int| day_bar(days[i]))
}

/// The symbol that the series of a response goes by: that of the last day
/// that was read, or, where none was, the symbol that came before.
pub open spec fn symbol_after(days: Seq<IexDailyPrices>, before: Seq<char>) -> Seq<char> {
    if first_undated(days, 0) > 0 {
        days[first_undated(days, 0) - 1].symbol@
    } else {
        before
    }
}

/// The symbol that is current after the first `upto` responses: empty at first.
pub open spec fn symbol_upto(data: Seq<Vec<IexDailyPrices>>, upto: int) -> Seq<char>
    decreases upto,
{
    if upto <= 0 {
        Seq::empty()
    } else {
        symbol_after(data[upto - 1]@, symbol_upto(data, upto - 1))
    }
}

/// What becomes of one response: where the date of a day cannot be read,
/// that failure; then, in either case, a daily series of the days before it,
/// in order of date.
pub open spec fn days_outcomes(days: Seq<IexDailyPrices>, before: Seq<char>) -> Seq<
    Result<MarketSeriesView, Failure>,
> {
    let undated = first_undated(days, 0);
    let series = Ok::<MarketSeriesView, Failure>(
        MarketSeriesView {
            symbol: symbol_after(days, before),
            interval: Interval::Daily,
            data: sorted_by_date(read_bars(days)),
        },
    );
    if undated < days.len() {
        seq![
            Err::<MarketSeriesView, Failure>(
                Failure::ParsingError(
                    "Unable to parse Date field: "@ + parsed_date(
                        days[undated].date@,
                        "%Y-%m-%d"@,
                    )->Err_0,
                ),
            ),
            series,
        ]
    } else {
        seq![series]
    }
}

/// What becomes of the first `upto` responses, one after the other.
pub open spec fn iex_outcomes(data: Seq<Vec<IexDailyPrices>>, upto: int) -> Seq<
    Result<MarketSeriesView, Failure>,
>
    decreases upto,
{
    if upto <= 0 {
        Seq::empty()
    } else {
        iex_outcomes(data, upto - 1) + days_outcomes(data[upto - 1]@, symbol_upto(data, upto - 1))
    }
}

/// Appends to `results` what becomes of one response; gives back the symbol
/// that is current after it.
fn transform_days(
    results: &mut Vec<MarketResult<MarketSeries>>,
    days: &Vec<IexDailyPrices>,
    before: String,
) -> (symbol: String)
    ensures
        outcomes_of(final(results)@) == outcomes_of(old(results)@) + days_outcomes(days@, before@),
        symbol@ == symbol_after(days@, before@),
{
    let ghost start = outcomes_of(results@);
    let mut symbol = before;
    let mut read: Vec<Series> = Vec::with_capacity(days.len());
    let mut i: usize = 0;
    let mut failed: bool = false;
    while i < days.len() && !failed
        invariant
            i <= days@.len(),
            first_undated(days@, 0) == first_undated(days@, i as int),
            read@.len() == i,
            forall|j: int| 0 <= j < i ==> read@[j] == day_bar(days@[j]),
            symbol@ == (if i > 0 { days@[i - 1].symbol@ } else { before@ }),
            !failed ==> outcomes_of(results@) == start,
            failed ==> i < days@.len() && first_undated(days@, 0) == i && outcomes_of(results@)
                == start.push(
                Err::<MarketSeriesView, Failure>(
                    Failure::ParsingError(
                        "Unable to parse Date field: "@ + parsed_date(
                            days@[i as int].date@,
                            "%Y-%m-%d"@,
                        )->Err_0,
                    ),
                ),
            ),
        decreases days@.len() - i + (if failed { 0int } else { 1int }),
    {
        let day = &days[i];
        match Date::parse(day.date.as_str(), "%Y-%m-%d") {
            Ok(date) => {
                proof {
                    lemma_date_from(date, parsed_date(day.date@, "%Y-%m-%d"@)->Ok_0);
                }
                read.push(
                    Series {
                        date,
                        open: day.open,
                        close: day.close,
                        high: day.high,
                        low: day.low,
                        volume: day.volume,
                    },
                );
                symbol = day.symbol.clone();
                i += 1;
            },
            Err(message) => {
                let mut text = String::from_str("Unable to parse Date field: ");
                text.append(message.as_str());
                let error = MarketError::ParsingError(text);
                proof {
                    assert(outcomes_of(results@.push(Err(error))) =~= start.push(
                        Err::<MarketSeriesView, Failure>(error@),
                    ));
                }
                results.push(Err(error));
                failed = true;
            },
        }
    }
    assert(read@ =~= read_bars(days@));
    let ghost sofar = results@;
    let series = MarketSeries {
        symbol: symbol.clone(),
        interval: Interval::Daily,
        data: sort_by_date(read),
    };
    results.push(Ok(series));
    proof {
        assert(outcomes_of(results@) =~= outcomes_of(sofar).push(
            Ok::<MarketSeriesView, Failure>(series@),
        ));
        assert(outcomes_of(results@) =~= start + days_outcomes(days@, before@));
    }
    symbol
}

/// Fetches daily series from IEX Cloud: collects requests, makes their
/// endpoints, holds the responses and turns them into series.
#[derive(Debug)]
pub struct Iex {
    token: String,
    requests: Vec<IexRequest>,
    endpoints: Vec<String>,
    data: Vec<Vec<IexDailyPrices>>,
}

fn reference(token: &String, request: &IexRequest) -> (r: String)
    ensures
        r@ == iex_reference(token@, request@),
{
    let mut out = request.symbol.clone();
    out.append("/chart/");
    out.append(request.range.as_str());
    out.append("?token=");
    out.append(token.as_str());
    out
}

impl Iex {
    /// The token that requests are made with.
    pub closed spec fn token(&self) -> Seq<char> {
        self.token@
    }

    /// The requests that wait for their endpoints.
    pub closed spec fn asks(&self) -> Seq<IexAsk> {
        asks_of(self.requests@)
    }

    /// The endpoints that wait to be asked.
    pub closed spec fn urls(&self) -> Seq<Seq<char>> {
        texts_of(self.endpoints@)
    }

    /// The responses that have come in.
    pub closed spec fn responses(&self) -> Seq<Vec<IexDailyPrices>> {
        self.data@
    }

    /// A client that makes its requests with `token`.
    pub fn new(token: String) -> (r: Self)
        ensures
            r.token() == token@,
            r.asks().len() == 0,
            r.urls().len() == 0,
            r.responses().len() == 0,
    {
        Iex { token, requests: Vec::new(), endpoints: Vec::new(), data: Vec::new() }
    }

    /// Request for daily series
    pub fn daily_series(&mut self, symbol: String, range: String)
        ensures
            final(self).asks() == old(self).asks().push(
                IexAsk { symbol: symbol@, range: range@ },
            ),
            final(self).token() == old(self).token(),
            final(self).urls() == old(self).urls(),
            final(self).responses() == old(self).responses(),
    {
        let request = IexRequest { symbol, range };
        self.requests.push(request);
        assert(asks_of(self.requests@) =~= asks_of(old(self).requests@).push(request@));
    }

    /// Makes the endpoints of the requests and drops the requests. Where a
    /// request has no endpoint, that is the error and nothing changes.
    pub fn create_endpoint(&mut self) -> (r: MarketResult<()>)
        ensures
            final(self).token() == old(self).token(),
            final(self).responses() == old(self).responses(),
            ({
                let references = iex_references(old(self).token(), old(self).asks());
                if first_unresolved(BASE_URL@, references, 0) == references.len() {
                    &&& r is Ok
                    &&& resolved(BASE_URL@, references, final(self).urls())
                    &&& final(self).asks().len() == 0
                } else {
                    &&& r is Err
                    &&& r->Err_0@ == Failure::UrlParseError
                    &&& final(self).urls() == old(self).urls()
                    &&& final(self).asks() == old(self).asks()
                }
            }),
    {
        let ghost wanted = iex_references(self.token(), self.asks());
        let mut references: Vec<String> = Vec::with_capacity(self.requests.len());
        let mut i: usize = 0;
        while i < self.requests.len()
            invariant
                *self == *old(self),
                wanted == iex_references(self.token(), self.asks()),
                wanted.len() == self.requests@.len(),
                i <= self.requests@.len(),
                references@.len() == i,
                forall|j: int| 0 <= j < i ==> references@[j]@ == wanted[j],
            decreases self.requests@.len() - i,
        {
            references.push(reference(&self.token, &self.requests[i]));
            i += 1;
        }
        proof {
            assert(texts_of(references@) =~= wanted);
            lemma_first_unresolved(BASE_URL@, wanted, 0);
        }
        match resolve_all(BASE_URL, &references) {
            Ok(urls) => {
                self.endpoints = urls;
                self.requests.clear();
                Ok(())
            },
            Err(e) => Err(e),
        }
    }

    /// The endpoints that wait to be asked.
    pub fn endpoints(&self) -> (r: &Vec<String>)
        ensures
            texts_of(r@) == self.urls(),
    {
        &self.endpoints
    }

    /// The responses that have come in.
    pub fn data(&self) -> (r: &Vec<Vec<IexDailyPrices>>)
        ensures
            r@ == self.responses(),
    {
        &self.data
    }

    /// Takes in the response of an endpoint.
    pub fn store(&mut self, prices: Vec<IexDailyPrices>)
        ensures
            final(self).responses() == old(self).responses().push(prices),
            final(self).token() == old(self).token(),
            final(self).asks() == old(self).asks(),
            final(self).urls() == old(self).urls(),
    {
        self.data.push(prices);
    }

    /// Every endpoint has been asked: the endpoints are dropped.
    pub fn finish_download(&mut self)
        ensures
            final(self).urls().len() == 0,
            final(self).token() == old(self).token(),
            final(self).asks() == old(self).asks(),
            final(self).responses() == old(self).responses(),
    {
        self.endpoints.clear();
    }

    /// Turns the responses into daily series. The responses stay.
    pub fn transform_data(&mut self) -> (r: Vec<MarketResult<MarketSeries>>)
        ensures
            outcomes_of(r@) == iex_outcomes(
                old(self).responses(),
                old(self).responses().len() as int,
            ),
            *final(self) == *old(self),
    {
        let mut results: Vec<MarketResult<MarketSeries>> = Vec::new();
        let mut symbol = String::new();
        assert(outcomes_of(results@) =~= Seq::empty());
        let mut i: usize = 0;
        while i < self.data.len()
            invariant
                *self == *old(self),
                i <= self.data@.len(),
                outcomes_of(results@) == iex_outcomes(self.data@, i as int),
                symbol@ == symbol_upto(self.data@, i as int),
            decreases self.data@.len() - i,
        {
            symbol = transform_days(&mut results, &self.data[i], symbol);
            i += 1;
        }
        results
    }
}

} // verus!

//! Twelvedata: time series at every interval.

use crate::client::{
    interval_name, interval_or_daily, Date, Interval, MarketSeries, MarketSeriesView, Series,
};
use crate::dates::{date_from, lemma_date_from, parsed_date};
use crate::decimal::{parse_volume, price_of_text, volume_of_text};
use crate::endpoint::{
    first_unresolved, lemma_first_unresolved, resolve_all, resolved, texts_of,
};
use crate::errors::{Failure, MarketError, MarketResult};
use crate::fixed::Price;
use crate::publishers::{downloaded, outcome_of, outcomes_of, unparsed};
use crate::sorting::{sort_by_date, sorted_by_date};
use crate::text::{decimal, lowercase_of, push_decimal, same_text, trim, trimmed};
use vstd::prelude::*;

verus! {

/// Where Twelvedata answers.
pub const BASE_URL: &'static str = "https://api.twelvedata.com/time_series";

/// A request to Twelvedata: the latest `output_size` bars of a symbol at an interval.
#[derive(Debug)]
pub struct TDRequest {
    symbol: String,
    interval: String,
    output_size: u32,
}

/// A request to Twelvedata as a value.
pub struct TDAsk {
    pub symbol: Seq<char>,
    pub interval: Seq<char>,
    pub output_size: int,
}

impl View for TDRequest {
    type V = TDAsk;

    closed spec fn view(&self) -> TDAsk {
        TDAsk {
            symbol: self.symbol@,
            interval: self.interval@,
            output_size: self.output_size as int,
        }
    }
}

impl Default for TDRequest {
    fn default() -> (r: TDRequest)
        ensures
            r@ == (TDAsk { symbol: Seq::empty(), interval: Seq::empty(), output_size: 0 }),
    {
        TDRequest { symbol: String::new(), interval: String::new(), output_size: 0 }
    }
}

/// The code that stands for an intraday interval, for the intervals from
/// one minute to one hour.
pub open spec fn td_interval(interval: Interval) -> Option<Seq<char>> {
    match interval {
        Interval::Min1 => Some("1min"@),
        Interval::Min5 => Some("5min"@),
        Interval::Min15 => Some("15min"@),
        Interval::Min30 => Some("30min"@),
        Interval::Hour1 => Some("1h"@),
        _ => None,
    }
}

/// The reference, from the base, of the endpoint that answers a request.
pub open spec fn td_reference(token: Seq<char>, request: TDAsk) -> Seq<char> {
    "?symbol="@ + request.symbol + "&interval="@ + request.interval + "&outputsize="@ + decimal(
        request.output_size as nat,
    ) + "&format=json&apikey="@ + token
}

/// The references of some requests.
pub open spec fn td_references(token: Seq<char>, requests: Seq<TDAsk>) -> Seq<Seq<char>> {
    Seq::new(requests.len(), |i: int| td_reference(token, requests[i]))
}

/// The requests of a list as values.
pub open spec fn asks_of(requests: Seq<TDRequest>) -> Seq<TDAsk> {
    Seq::new(requests.len(), |i: int| requests[i]@)
}

/// What a response says about its series.
#[derive(Debug)]
pub struct MetaData {
    pub symbol: String,
    pub interval: String,
    pub currency: String,
    pub exchange_timezone: String,
    pub exchange: String,
    pub mic_code: String,
    pub kind: String,
}

/// One bar of a response, every field as the text that came.
#[derive(Debug)]
pub struct TimeSeriesData {
    pub datetime: String,
    pub open: String,
    pub high: String,
    pub low: String,
    pub close: String,
    pub volume: String,
}

/// A response: what it is about, its bars and its status.
#[derive(Debug)]
pub struct TwelvedataPrices {
    pub meta: MetaData,
    pub time_series: Vec<TimeSeriesData>,
    pub status: String,
}

/// The format in which the bars of an interval are dated: a day for daily,
/// weekly and monthly bars, a day and a time for any other.
pub open spec fn date_format(interval: Seq<char>) -> Seq<char> {
    if interval == "1day"@ || interval == "1week"@ || interval == "1month"@ {
        "%Y-%m-%d"@
    } else {
        "%Y-%m-%d %H:%M:%S"@
    }
}

/// What becomes of one bar of a response at `interval`: the bar, or the
/// first of its fields that cannot be read, in the order open, close, high,
/// low, volume, date.
pub open spec fn bar_outcome(interval: Seq<char>, bar: TimeSeriesData) -> Result<Series, Failure> {
    if price_of_text(trimmed(bar.open@)) is None {
        Err(Failure::ParsingError("Unable to parse Open field: invalid decimal number"@))
    } else if price_of_text(trimmed(bar.close@)) is None {
        Err(Failure::ParsingError("Unable to parse Close field: invalid decimal number"@))
    } else if price_of_text(trimmed(bar.high@)) is None {
        Err(Failure::ParsingError("Unable to parse High field: invalid decimal number"@))
    } else if price_of_text(trimmed(bar.low@)) is None {
        Err(Failure::ParsingError("Unable to parse Low field: invalid decimal number"@))
    } else if volume_of_text(trimmed(bar.volume@)) is None {
        Err(Failure::ParsingError("Unable to parse Volume field: invalid decimal number"@))
    } else {
        match parsed_date(bar.datetime@, date_format(interval)) {
            Err(message) => Err(
                Failure::ParsingError("Unable to parse Volume field: "@ + message),
            ),
            Ok(numbers) => Ok(
                Series {
                    date: date_from(numbers),
                    open: Price::of_ticks(price_of_text(trimmed(bar.open@))->Some_0),
                    close: Price::of_ticks(price_of_text(trimmed(bar.close@))->Some_0),
                    high: Price::of_ticks(price_of_text(trimmed(bar.high@))->Some_0),
                    low: Price::of_ticks(price_of_text(trimmed(bar.low@))->Some_0),
                    volume: volume_of_text(trimmed(bar.volume@))->Some_0 as i64,
                },
            ),
        }
    }
}

/// The first position from `from` on whose bar cannot be read, or the
/// number of bars if every one can.
pub open spec fn first_unread(interval: Seq<char>, bars: Seq<TimeSeriesData>, from: int) -> int
    decreases bars.len() - from,
{
    if from >= bars.len() {
        bars.len() as int
    } else if bar_outcome(interval, bars[from]) is Err {
        from
    } else {
        first_unread(interval, bars, from + 1)
    }
}

/// What becomes of a response: the series with its bars in order of date,
/// or the first thing that is wrong with the response.
pub open spec fn prices_outcome(prices: TwelvedataPrices) -> Result<MarketSeriesView, Failure> {
    let interval = prices.meta.interval@;
    let bars = prices.time_series@;
    let unread = first_unread(interval, bars, 0);
    if prices.status@ != "ok"@ {
        Err(Failure::DownloadedData("Downloaded data status is: "@ + prices.status@))
    } else if unread < bars.len() {
        Err(bar_outcome(interval, bars[unread])->Err_0)
    } else {
        Ok(
            MarketSeriesView {
                symbol: prices.meta.symbol@,
                interval: interval_or_daily(lowercase_of(interval)),
                data: sorted_by_date(
                    Seq::new(bars.len(), |i: int| bar_outcome(interval, bars[i])->Ok_0),
                ),
            },
        )
    }
}

/// The bar of a response at `interval`, or the first of its fields that
/// cannot be read.
fn transform_bar(interval: &str, bar: &TimeSeriesData) -> (r: MarketResult<Series>)
    ensures
        match bar_outcome(interval@, *bar) {
            Ok(series) => r == Ok::<Series, MarketError>(series),
            Err(failure) => r is Err && r->Err_0@ == failure,
        },
{
    let open = match Price::parse(trim(bar.open.as_str())) {
        Some(price) => price,
        None => {
            return Err(unparsed("Unable to parse Open field: invalid decimal number"));
        },
    };
    let close = match Price::parse(trim(bar.close.as_str())) {
        Some(price) => price,
        None => {
            return Err(unparsed("Unable to parse Close field: invalid decimal number"));
        },
    };
    let high = match Price::parse(trim(bar.high.as_str())) {
        Some(price) => price,
        None => {
            return Err(unparsed("Unable to parse High field: invalid decimal number"));
        },
    };
    let low = match Price::parse(trim(bar.low.as_str())) {
        Some(price) => price,
        None => {
            return Err(unparsed("Unable to parse Low field: invalid decimal number"));
        },
    };
    let volume = match parse_volume(trim(bar.volume.as_str())) {
        Some(volume) => volume,
        None => {
            return Err(unparsed("Unable to parse Volume field: invalid decimal number"));
        },
    };
    let by_day = same_text(interval, "1day") || same_text(interval, "1week") || same_text(
        interval,
        "1month",
    );
    let format: &str = if by_day {
        "%Y-%m-%d"
    } else {
        "%Y-%m-%d %H:%M:%S"
    };
    let date = match Date::parse(bar.datetime.as_str(), format) {
        Ok(date) => date,
        Err(message) => {
            let mut text = String::from_str("Unable to parse Volume field: ");
            text.append(message.as_str());
            return Err(MarketError::ParsingError(text));
        },
    };
    proof {
        lemma_date_from(date, parsed_date(bar.datetime@, date_format(interval@))->Ok_0);
    }
    Ok(Series { date, open, close, high, low, volume })
}

/// The series that a response holds.
pub fn transform(prices: &TwelvedataPrices) -> (r: MarketResult<MarketSeries>)
    ensures
        outcome_of(r) == prices_outcome(*prices),
{
    if !same_text(prices.status.as_str(), "ok") {
        return Err(downloaded("Downloaded data status is: ", prices.status.as_str()));
    }
    let ghost interval = prices.meta.interval@;
    let ghost bars = prices.time_series@;
    let n: usize = prices.time_series.len();
    let mut data: Vec<Series> = Vec::with_capacity(n);
    let mut i: usize = 0;
    while i < n
        invariant
            n == prices.time_series@.len(),
            interval == prices.meta.interval@,
            bars == prices.time_series@,
            prices.status@ == "ok"@,
            i <= n,
            first_unread(interval, bars, 0) == first_unread(interval, bars, i as int),
            data@.len() == i,
            forall|j: int| 0 <= j < i ==> data@[j] == bar_outcome(interval, bars[j])->Ok_0,
        decreases n - i,
    {
        match transform_bar(prices.meta.interval.as_str(), &prices.time_series[i]) {
            Ok(series) => {
                data.push(series);
            },
            Err(e) => {
                assert(first_unread(interval, bars, i as int) == i);
                return Err(e);
            },
        }
        i += 1;
    }
    let series = MarketSeries {
        symbol: prices.meta.symbol.clone(),
        interval: Interval::from_text(prices.meta.interval.as_str()),
        data: sort_by_date(data),
    };
    assert(data@ =~= Seq::new(bars.len(), |i: int| bar_outcome(interval, bars[i])->Ok_0));
    Ok(series)
}

/// What becomes of some responses, one for one.
pub open spec fn responses_outcomes(data: Seq<TwelvedataPrices>) -> Seq<
    Result<MarketSeriesView, Failure>,
> {
    Seq::new(data.len(), |i: int| prices_outcome(data[i]))
}

/// Fetches time series from Twelvedata: collects requests, makes their
/// endpoints, holds the responses and turns them into series.
#[derive(Debug)]
pub struct Twelvedata {
    token: String,
    requests: Vec<TDRequest>,
    endpoints: Vec<String>,
    data: Vec<TwelvedataPrices>,
}

fn reference(token: &String, request: &TDRequest) -> (r: String)
    ensures
        r@ == td_reference(token@, request@),
{
    let mut out = String::from_str("?symbol=");
    out.append(request.symbol.as_str());
    out.append("&interval=");
    out.append(request.interval.as_str());
    out.append("&outputsize=");
    push_decimal(&mut out, request.output_size as u128);
    out.append("&format=json&apikey=");
    out.append(token.as_str());
    out
}

impl Twelvedata {
    /// The token that requests are made with.
    pub closed spec fn token(&self) -> Seq<char> {
        self.token@
    }

    /// The requests that wait for their endpoints.
    pub closed spec fn asks(&self) -> Seq<TDAsk> {
        asks_of(self.requests@)
    }

    /// The endpoints that wait to be asked.
    pub closed spec fn urls(&self) -> Seq<Seq<char>> {
        texts_of(self.endpoints@)
    }

    /// The responses that wait to be transformed.
    pub closed spec fn responses(&self) -> Seq<TwelvedataPrices> {
        self.data@
    }

    /// create new instance of Twelvedata
    pub fn new(token: &str) -> (r: Self)
        ensures
            r.token() == token@,
            r.asks().len() == 0,
            r.urls().len() == 0,
            r.responses().len() == 0,
    {
        Twelvedata {
            token: String::from_str(token),
            requests: Vec::new(),
            endpoints: Vec::new(),
            data: Vec::new(),
        }
    }

    /// Whether a request has come to the end of the requests and nothing
    /// else has changed.
    pub open spec fn asked(&self, before: Twelvedata, ask: TDAsk) -> bool {
        &&& self.asks() == before.asks().push(ask)
        &&& self.token() == before.token()
        &&& self.urls() == before.urls()
        &&& self.responses() == before.responses()
    }

    fn push_request(&mut self, request: TDRequest)
        ensures
            final(self).asked(*old(self), request@),
    {
        self.requests.push(request);
        assert(asks_of(self.requests@) =~= asks_of(old(self).requests@).push(request@));
    }

    /// Request for intraday series: for the intervals from one minute to
    /// one hour; for any other interval nothing changes.
    pub fn intraday_series(&mut self, symbol: &str, output_size: u32, interval: Interval) -> (r:
        MarketResult<()>)
        ensures
            match td_interval(interval) {
                Some(code) => r is Ok && final(self).asked(
                    *old(self),
                    TDAsk { symbol: symbol@, interval: code, output_size: output_size as int },
                ),
                None => r is Err && r->Err_0@ == Failure::UnsuportedInterval(
                    interval_name(interval) + " interval is not supported by AlphaVantage"@,
                ) && *final(self) == *old(self),
            },
    {
        let code: &str = match interval {
            Interval::Min1 => "1min",
            Interval::Min5 => "5min",
            Interval::Min15 => "15min",
            Interval::Min30 => "30min",
            Interval::Hour1 => "1h",
            _ => {
                let mut message = interval.to_string();
                message.append(" interval is not supported by AlphaVantage");
                return Err(MarketError::UnsuportedInterval(message));
            },
        };
        self.push_request(
            TDRequest {
                symbol: String::from_str(symbol),
                interval: String::from_str(code),
                output_size,
            },
        );
        Ok(())
    }

    /// Request for daily series
    pub fn daily_series(&mut self, symbol: &str, output_size: u32)
        ensures
            final(self).asked(
                *old(self),
                TDAsk { symbol: symbol@, interval: "1day"@, output_size: output_size as int },
            ),
    {
        self.push_request(
            TDRequest {
                symbol: String::from_str(symbol),
                interval: String::from_str("1day"),
                output_size,
            },
        );
    }

    /// Request for weekly series
    pub fn weekly_series(&mut self, symbol: &str, output_size: u32)
        ensures
            final(self).asked(
                *old(self),
                TDAsk { symbol: symbol@, interval: "1week"@, output_size: output_size as int },
            ),
    {
        self.push_request(
            TDRequest {
                symbol: String::from_str(symbol),
                interval: String::from_str("1week"),
                output_size,
            },
        );
    }

    /// Request for monthly series
    pub fn monthly_series(&mut self, symbol: &str, output_size: u32)
        ensures
            final(self).asked(
                *old(self),
                TDAsk { symbol: symbol@, interval: "1month"@, output_size: output_size as int },
            ),
    {
        self.push_request(
            TDRequest {
                symbol: String::from_str(symbol),
                interval: String::from_str("1month"),
                output_size,
            },
        );
    }

    /// Makes the endpoints of the requests and drops the requests. Where a
    /// request has no endpoint, that is the error and nothing changes.
    pub fn create_endpoint(&mut self) -> (r: MarketResult<()>)
        ensures
            final(self).token() == old(self).token(),
            final(self).responses() == old(self).responses(),
            ({
                let references = td_references(old(self).token(), old(self).asks());
                if first_unresolved(BASE_URL@, references, 0) == references.len() {
                    &&& r is Ok
                    &&& resolved(BASE_URL@, references, final(self).urls())
                    &&& final(self).asks().len() == 0
                } else {
                    &&& r is Err
                    &&& r->Err_0@ == Failure::UrlParseError
                    &&& final(self).urls() == old(self).urls()
                    &&& final(self).asks() == old(self).asks()
                }
            }),
    {
        let ghost wanted = td_references(self.token(), self.asks());
        let mut references: Vec<String> = Vec::with_capacity(self.requests.len());
        let mut i: usize = 0;
        while i < self.requests.len()
            invariant
                *self == *old(self),
                wanted == td_references(self.token(), self.asks()),
                wanted.len() == self.requests@.len(),
                i <= self.requests@.len(),
                references@.len() == i,
                forall|j: int| 0 <= j < i ==> references@[j]@ == wanted[j],
            decreases self.requests@.len() - i,
        {
            references.push(reference(&self.token, &self.requests[i]));
            i += 1;
        }
        proof {
            assert(texts_of(references@) =~= wanted);
            lemma_first_unresolved(BASE_URL@, wanted, 0);
        }
        match resolve_all(BASE_URL, &references) {
            Ok(urls) => {
                self.endpoints = urls;
                self.requests.clear();
                Ok(())
            },
            Err(e) => Err(e),
        }
    }

    /// The endpoints that wait to be asked.
    pub fn endpoints(&self) -> (r: &Vec<String>)
        ensures
            texts_of(r@) == self.urls(),
    {
        &self.endpoints
    }

    /// The responses that wait to be transformed.
    pub fn data(&self) -> (r: &Vec<TwelvedataPrices>)
        ensures
            r@ == self.responses(),
    {
        &self.data
    }

    /// Takes in the response of an endpoint.
    pub fn store(&mut self, prices: TwelvedataPrices)
        ensures
            final(self).responses() == old(self).responses().push(prices),
            final(self).token() == old(self).token(),
            final(self).asks() == old(self).asks(),
            final(self).urls() == old(self).urls(),
    {
        self.data.push(prices);
    }

    /// Every endpoint has been asked: the endpoints are dropped.
    pub fn finish_download(&mut self)
        ensures
            final(self).urls().len() == 0,
            final(self).token() == old(self).token(),
            final(self).asks() == old(self).asks(),
            final(self).responses() == old(self).responses(),
    {
        self.endpoints.clear();
    }

    /// Turns the responses into series and drops the responses.
    pub fn transform_data(&mut self) -> (r: Vec<MarketResult<MarketSeries>>)
        ensures
            outcomes_of(r@) == responses_outcomes(old(self).responses()),
            final(self).responses().len() == 0,
            final(self).token() == old(self).token(),
            final(self).asks() == old(self).asks(),
            final(self).urls() == old(self).urls(),
    {
        let mut results: Vec<MarketResult<MarketSeries>> = Vec::with_capacity(self.data.len());
        let mut i: usize = 0;
        while i < self.data.len()
            invariant
                *self == *old(self),
                i <= self.data@.len(),
                results@.len() == i,
                forall|j: int| 0 <= j < i ==> outcome_of(results@[j]) == prices_outcome(self.data@[j]),
            decreases self.data@.len() - i,
        {
            results.push(transform(&self.data[i]));
            i += 1;
        }
        assert(outcomes_of(results@) =~= responses_outcomes(self.data@));
        self.data.clear();
        results
    }
}

} // verus!

//! Massive: aggregate bars.

use crate::client::{interval_name, Date, Interval, MarketSeries, MarketSeriesView, Series};
use crate::dates::{date_from, date_of_millis, first_undated_millis, lemma_date_from};
use crate::endpoint::{endpoint, endpoint_of, pairs_of};
use crate::errors::{Failure, MarketError, MarketResult};
use crate::fixed::Price;
use crate::publishers::{downloaded, outcome_of, unparsed};
use crate::text::{push_signed_decimal, same_text, signed_decimal};
use vstd::prelude::*;

verus! {

/// Where Massive answers.
pub const BASE_URL: &'static str = "https://api.massive.com/v2/aggs/ticker/";

/// Fetches time series from Massive.
#[derive(Debug)]
pub struct Massive {
    token: String,
}

/// A request to Massive: bars of a symbol between two dates, each bar
/// `multiplier` timespans long.
#[derive(Debug)]
pub struct MassiveRequest {
    symbol: String,
    timespan: String,
    multiplier: i32,
    from_date: String,
    to_date: String,
    limit: i32,
    interval: Interval,
}

/// A request to Massive as a value.
pub struct MassiveAsk {
    pub symbol: Seq<char>,
    pub timespan: Seq<char>,
    pub multiplier: int,
    pub from_date: Seq<char>,
    pub to_date: Seq<char>,
    pub limit: int,
    pub interval: Interval,
}

impl View for MassiveRequest {
    type V = MassiveAsk;

    closed spec fn view(&self) -> MassiveAsk {
        MassiveAsk {
            symbol: self.symbol@,
            timespan: self.timespan@,
            multiplier: self.multiplier as int,
            from_date: self.from_date@,
            to_date: self.to_date@,
            limit: self.limit as int,
            interval: self.interval,
        }
    }
}

impl Clone for MassiveRequest {
    fn clone(&self) -> (r: MassiveRequest)
        ensures
            r@ == self@,
    {
        MassiveRequest {
            symbol: self.symbol.clone(),
            timespan: self.timespan.clone(),
            multiplier: self.multiplier,
            from_date: self.from_date.clone(),
            to_date: self.to_date.clone(),
            limit: self.limit,
            interval: self.interval,
        }
    }
}

/// The timespan and the multiplier that stand for an intraday interval.
pub open spec fn massive_timespan(interval: Interval) -> Option<(Seq<char>, int)> {
    match interval {
        Interval::Min1 => Some(("minute"@, 1)),
        Interval::Min5 => Some(("minute"@, 5)),
        Interval::Min15 => Some(("minute"@, 15)),
        Interval::Min30 => Some(("minute"@, 30)),
        Interval::Hour1 => Some(("hour"@, 1)),
        Interval::Hour2 => Some(("hour"@, 2)),
        Interval::Hour4 => Some(("hour"@, 4)),
        _ => None,
    }
}

/// The path of the endpoint that answers a request, from the base on.
pub open spec fn massive_path(request: MassiveAsk) -> Seq<char> {
    request.symbol + "/range/"@ + signed_decimal(request.multiplier) + "/"@ + request.timespan
        + "/"@ + request.from_date + "/"@ + request.to_date
}

/// The query of a request: ascending order, the limit and the token.
pub open spec fn massive_query(token: Seq<char>, request: MassiveAsk) -> Seq<
    (Seq<char>, Seq<char>),
> {
    seq![("sort"@, "asc"@), ("limit"@, signed_decimal(request.limit)), ("apiKey"@, token)]
}

impl Massive {
    /// The token that requests are made with.
    pub closed spec fn token(&self) -> Seq<char> {
        self.token@
    }

    /// create new instance of Massive
    pub fn new(token: &str) -> (r: Self)
        ensures
            r.token() == token@,
    {
        Massive { token: String::from_str(token) }
    }

    /// Request for intraday series: for the intervals from one minute to
    /// four hours; any other interval is not supported.
    pub fn intraday_series(
        &self,
        symbol: &str,
        from_date: &str,
        to_date: &str,
        interval: Interval,
        limit: i32,
    ) -> (r: MarketResult<MassiveRequest>)
        ensures
            match massive_timespan(interval) {
                Some(span) => r is Ok && r->Ok_0@ == (MassiveAsk {
                    symbol: symbol@,
                    timespan: span.0,
                    multiplier: span.1,
                    from_date: from_date@,
                    to_date: to_date@,
                    limit: limit as int,
                    interval,
                }),
                None => r is Err && r->Err_0@ == Failure::UnsuportedInterval(
                    interval_name(interval) + " interval is not supported by Massive"@,
                ),
            },
    {
        let (timespan, multiplier): (&str, i32) = match interval {
            Interval::Min1 => ("minute", 1),
            Interval::Min5 => ("minute", 5),
            Interval::Min15 => ("minute", 15),
            Interval::Min30 => ("minute", 30),
            Interval::Hour1 => ("hour", 1),
            Interval::Hour2 => ("hour", 2),
            Interval::Hour4 => ("hour", 4),
            _ => {
                let mut message = interval.to_string();
                message.append(" interval is not supported by Massive");
                return Err(MarketError::UnsuportedInterval(message));
            },
        };
        Ok(
            MassiveRequest {
                symbol: String::from_str(symbol),
                timespan: String::from_str(timespan),
                multiplier,
                from_date: String::from_str(from_date),
                to_date: String::from_str(to_date),
                limit,
                interval,
            },
        )
    }

    /// Request for daily series
    pub fn daily_series(&self, symbol: &str, from_date: &str, to_date: &str, limit: i32) -> (r:
        MassiveRequest)
        ensures
            r@ == (MassiveAsk {
                symbol: symbol@,
                timespan: "day"@,
                multiplier: 1,
                from_date: from_date@,
                to_date: to_date@,
                limit: limit as int,
                interval: Interval::Daily,
            }),
    {
        MassiveRequest {
            symbol: String::from_str(symbol),
            timespan: String::from_str("day"),
            multiplier: 1,
            from_date: String::from_str(from_date),
            to_date: String::from_str(to_date),
            limit,
            interval: Interval::Daily,
        }
    }

    /// Request for weekly series
    pub fn weekly_series(&self, symbol: &str, from_date: &str, to_date: &str, limit: i32) -> (r:
        MassiveRequest)
        ensures
            r@ == (MassiveAsk {
                symbol: symbol@,
                timespan: "week"@,
                multiplier: 1,
                from_date: from_date@,
                to_date: to_date@,
                limit: limit as int,
                interval: Interval::Weekly,
            }),
    {
        MassiveRequest {
            symbol: String::from_str(symbol),
            timespan: String::from_str("week"),
            multiplier: 1,
            from_date: String::from_str(from_date),
            to_date: String::from_str(to_date),
            limit,
            interval: Interval::Weekly,
        }
    }

    /// Request for monthly series
    pub fn monthly_series(&self, symbol: &str, from_date: &str, to_date: &str, limit: i32) -> (r:
        MassiveRequest)
        ensures
            r@ == (MassiveAsk {
                symbol: symbol@,
                timespan: "month"@,
                multiplier: 1,
                from_date: from_date@,
                to_date: to_date@,
                limit: limit as int,
                interval: Interval::Monthly,
            }),
    {
        MassiveRequest {
            symbol: String::from_str(symbol),
            timespan: String::from_str("month"),
            multiplier: 1,
            from_date: String::from_str(from_date),
            to_date: String::from_str(to_date),
            limit,
            interval: Interval::Monthly,
        }
    }

    /// The URL that answers `request`.
    pub fn create_endpoint(&self, request: &MassiveRequest) -> (r: MarketResult<String>)
        ensures
            match endpoint_of(
                BASE_URL@,
                massive_path(request@),
                massive_query(self.token(), request@),
            ) {
                Some(url) => r is Ok && r->Ok_0@ == url,
                None => r is Err && r->Err_0@ == Failure::UrlParseError,
            },
    {
        let mut path = request.symbol.clone();
        path.append("/range/");
        push_signed_decimal(&mut path, request.multiplier as i128);
        path.append("/");
        path.append(request.timespan.as_str());
        path.append("/");
        path.append(request.from_date.as_str());
        path.append("/");
        path.append(request.to_date.as_str());
        assert(path@ == massive_path(request@));
        let mut limit = String::new();
        push_signed_decimal(&mut limit, request.limit as i128);
        assert(limit@ =~= signed_decimal(request.limit as int));
        let mut pairs: Vec<(String, String)> = Vec::new();
        pairs.push((String::from_str("sort"), String::from_str("asc")));
        pairs.push((String::from_str("limit"), limit));
        pairs.push((String::from_str("apiKey"), self.token.clone()));
        assert(pairs_of(pairs@) =~= massive_query(self.token(), request@));
        endpoint(BASE_URL, path.as_str(), &pairs)
    }
}

/// One bar of a response.
#[derive(Clone, Copy, Debug)]
pub struct TimeSeriesData {
    /// closing price
    pub c: Price,
    /// highest price
    pub h: Price,
    /// lowest price
    pub l: Price,
    /// opening price
    pub o: Price,
    /// the start of the bar, in milliseconds since the epoch
    pub t: i64,
    /// volume, in ticks
    pub v: i64,
}

/// A response: the bars, the status and the symbol they belong to.
#[derive(Debug)]
pub struct MassivePrices {
    pub time_series: Vec<TimeSeriesData>,
    pub status: String,
    pub ticker: String,
}

/// The moments of the bars of a response.
pub open spec fn moments(bars: Seq<TimeSeriesData>) -> Seq<i64> {
    Seq::new(bars.len(), |i: int| bars[i].t)
}

/// The bar of the common representation for a bar of a response.
pub open spec fn aggregate_bar(bar: TimeSeriesData) -> Series {
    Series {
        date: date_from(date_of_millis(bar.t as int)->Some_0),
        open: bar.o,
        close: bar.c,
        high: bar.h,
        low: bar.l,
        volume: bar.v,
    }
}

/// What becomes of a response for a request of `interval`: the series with
/// its bars in the order of the response, or the first thing that is wrong
/// with the response.
pub open spec fn prices_outcome(prices: MassivePrices, interval: Interval) -> Result<
    MarketSeriesView,
    Failure,
> {
    let bars = prices.time_series@;
    if prices.status@ != "OK"@ {
        Err(Failure::DownloadedData("Downloaded data status is: "@ + prices.status@))
    } else if first_undated_millis(moments(bars), 0) < bars.len() {
        Err(Failure::ParsingError("Unable to parse the timestamp"@))
    } else {
        Ok(
            MarketSeriesView {
                symbol: prices.ticker@,
                interval,
                data: Seq::new(bars.len(), |i: int| aggregate_bar(bars[i])),
            },
        )
    }
}

/// The series that a response holds for a request of `interval`.
pub fn transform(prices: &MassivePrices, interval: Interval) -> (r: MarketResult<MarketSeries>)
    ensures
        outcome_of(r) == prices_outcome(*prices, interval),
{
    if !same_text(prices.status.as_str(), "OK") {
        return Err(downloaded("Downloaded data status is: ", prices.status.as_str()));
    }
    let ghost stamps = moments(prices.time_series@);
    let n: usize = prices.time_series.len();
    let mut data: Vec<Series> = Vec::with_capacity(n);
    let mut i: usize = 0;
    while i < n
        invariant
            n == prices.time_series@.len(),
            stamps == moments(prices.time_series@),
            prices.status@ == "OK"@,
            i <= n,
            first_undated_millis(stamps, 0) == first_undated_millis(stamps, i as int),
            data@.len() == i,
            forall|j: int| 0 <= j < i ==> data@[j] == aggregate_bar(prices.time_series@[j]),
        decreases n - i,
    {
        let bar = prices.time_series[i];
        assert(stamps[i as int] == bar.t);
        let date = match Date::from_millis(bar.t) {
            Some(date) => date,
            None => {
                assert(first_undated_millis(stamps, i as int) == i);
                return Err(unparsed("Unable to parse the timestamp"));
            },
        };
        proof {
            lemma_date_from(date, date_of_millis(bar.t as int)->Some_0);
        }
        data.push(
            Series { date, open: bar.o, close: bar.c, high: bar.h, low: bar.l, volume: bar.v },
        );
        i += 1;
    }
    let series = MarketSeries { symbol: prices.ticker.clone(), interval, data };
    assert(series@.data =~= prices_outcome(*prices, interval)->Ok_0.data);
    Ok(series)
}

impl Massive {
    /// The series that a response to `request` holds.
    pub fn transform_data(&self, prices: MassivePrices, request: &MassiveRequest) -> (r:
        MarketResult<MarketSeries>)
        ensures
            outcome_of(r) == prices_outcome(prices, request@.interval),
    {
        transform(&prices, request.interval)
    }
}

} // verus!

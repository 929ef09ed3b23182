//! Finnhub: candles and quotes.

use crate::client::{interval_name, Date, Interval, MarketSeries, MarketSeriesView, Series};
use crate::dates::{date_from, date_of_seconds, first_undated_seconds, lemma_date_from};
use crate::endpoint::{endpoint, endpoint_of, pairs_of};
use crate::errors::{Failure, MarketError, MarketResult};
use crate::fixed::Price;
use crate::sorting::{sort_by_date, sorted_by_date};
use crate::publishers::{downloaded, outcome_of, text_of};
use crate::text::{push_signed_decimal, same_text, signed_decimal};
use vstd::prelude::*;

verus! {

/// Where Finnhub answers.
pub const BASE_URL: &'static str = "https://finnhub.io/api/v1/";

/// Fetches time series from Finnhub.
#[derive(Debug)]
pub struct Finnhub {
    token: String,
}

/// A request to Finnhub.
#[derive(Debug)]
pub enum FinnhubRequest {
    /// candles of a symbol between two moments, in seconds since the epoch
    Candle { symbol: String, resolution: String, from: i64, to: i64 },
    /// the latest quote of a symbol
    Quote { symbol: String },
}

/// A request to Finnhub as a value.
pub enum FinnhubAsk {
    Candle { symbol: Seq<char>, resolution: Seq<char>, from: int, to: int },
    Quote { symbol: Seq<char> },
}

impl View for FinnhubRequest {
    type V = FinnhubAsk;

    open spec fn view(&self) -> FinnhubAsk {
        match self {
            FinnhubRequest::Candle { symbol, resolution, from, to } => FinnhubAsk::Candle {
                symbol: symbol@,
                resolution: resolution@,
                from: *from as int,
                to: *to as int,
            },
            FinnhubRequest::Quote { symbol } => FinnhubAsk::Quote { symbol: symbol@ },
        }
    }
}

impl Clone for FinnhubRequest {
    fn clone(&self) -> (r: FinnhubRequest)
        ensures
            r@ == self@,
    {
        match self {
            FinnhubRequest::Candle { symbol, resolution, from, to } => FinnhubRequest::Candle {
                symbol: symbol.clone(),
                resolution: resolution.clone(),
                from: *from,
                to: *to,
            },
            FinnhubRequest::Quote { symbol } => FinnhubRequest::Quote { symbol: symbol.clone() },
        }
    }
}

/// The resolution that stands for an intraday interval, if Finnhub has one.
pub open spec fn finnhub_resolution(interval: Interval) -> Option<Seq<char>> {
    match interval {
        Interval::Min1 => Some("1"@),
        Interval::Min5 => Some("5"@),
        Interval::Min15 => Some("15"@),
        Interval::Min30 => Some("30"@),
        Interval::Hour1 => Some("60"@),
        _ => None,
    }
}

/// The path of the endpoint that answers a request.
pub open spec fn finnhub_path(request: FinnhubAsk) -> Seq<char> {
    match request {
        FinnhubAsk::Candle { .. } => "stock/candle"@,
        FinnhubAsk::Quote { .. } => "quote"@,
    }
}

/// The query of a request: its parameters and, last, the token.
pub open spec fn finnhub_query(token: Seq<char>, request: FinnhubAsk) -> Seq<
    (Seq<char>, Seq<char>),
> {
    match request {
        FinnhubAsk::Candle { symbol, resolution, from, to } => seq![
            ("symbol"@, symbol),
            ("resolution"@, resolution),
            ("from"@, signed_decimal(from)),
            ("to"@, signed_decimal(to)),
            ("token"@, token),
        ],
        FinnhubAsk::Quote { symbol } => seq![("symbol"@, symbol), ("token"@, token)],
    }
}

fn number_text(n: i64) -> (r: String)
    ensures
        r@ == signed_decimal(n as int),
{
    let mut out = String::new();
    push_signed_decimal(&mut out, n as i128);
    assert(out@ =~= signed_decimal(n as int));
    out
}

impl Finnhub {
    /// The token that requests are made with.
    pub closed spec fn token(&self) -> Seq<char> {
        self.token@
    }

    /// A client that makes its requests with `token`.
    pub fn new(token: &str) -> (r: Self)
        ensures
            r.token() == token@,
    {
        Finnhub { token: String::from_str(token) }
    }

    /// Request for daily series
    pub fn daily_series(&self, symbol: &str, from: i64, to: i64) -> (r: FinnhubRequest)
        ensures
            r@ == (FinnhubAsk::Candle {
                symbol: symbol@,
                resolution: "D"@,
                from: from as int,
                to: to as int,
            }),
    {
        FinnhubRequest::Candle {
            symbol: String::from_str(symbol),
            resolution: String::from_str("D"),
            from,
            to,
        }
    }

    /// Request for weekly series
    pub fn weekly_series(&self, symbol: &str, from: i64, to: i64) -> (r: FinnhubRequest)
        ensures
            r@ == (FinnhubAsk::Candle {
                symbol: symbol@,
                resolution: "W"@,
                from: from as int,
                to: to as int,
            }),
    {
        FinnhubRequest::Candle {
            symbol: String::from_str(symbol),
            resolution: String::from_str("W"),
            from,
            to,
        }
    }

    /// Request for monthly series
    pub fn monthly_series(&self, symbol: &str, from: i64, to: i64) -> (r: FinnhubRequest)
        ensures
            r@ == (FinnhubAsk::Candle {
                symbol: symbol@,
                resolution: "M"@,
                from: from as int,
                to: to as int,
            }),
    {
        FinnhubRequest::Candle {
            symbol: String::from_str(symbol),
            resolution: String::from_str("M"),
            from,
            to,
        }
    }

    /// Request for intraday series: for the intervals from one minute to one
    /// hour; any other interval is not supported.
    pub fn intraday_series(&self, symbol: &str, from: i64, to: i64, interval: Interval) -> (r:
        MarketResult<FinnhubRequest>)
        ensures
            match finnhub_resolution(interval) {
                Some(resolution) => r is Ok && r->Ok_0@ == (FinnhubAsk::Candle {
                    symbol: symbol@,
                    resolution,
                    from: from as int,
                    to: to as int,
                }),
                None => r is Err && r->Err_0@ == Failure::UnsuportedInterval(
                    interval_name(interval) + " interval is not supported by Finnhub"@,
                ),
            },
    {
        let resolution: &str = match interval {
            Interval::Min1 => "1",
            Interval::Min5 => "5",
            Interval::Min15 => "15",
            Interval::Min30 => "30",
            Interval::Hour1 => "60",
            _ => {
                let mut message = interval.to_string();
                message.append(" interval is not supported by Finnhub");
                return Err(MarketError::UnsuportedInterval(message));
            },
        };
        Ok(
            FinnhubRequest::Candle {
                symbol: String::from_str(symbol),
                resolution: String::from_str(resolution),
                from,
                to,
            },
        )
    }

    /// Request for real-time quote (returns a single bar)
    pub fn quote(&self, symbol: &str) -> (r: FinnhubRequest)
        ensures
            r@ == (FinnhubAsk::Quote { symbol: symbol@ }),
    {
        FinnhubRequest::Quote { symbol: String::from_str(symbol) }
    }

    /// The URL that answers `request`.
    pub fn create_endpoint(&self, request: &FinnhubRequest) -> (r: MarketResult<String>)
        ensures
            match endpoint_of(
                BASE_URL@,
                finnhub_path(request@),
                finnhub_query(self.token(), request@),
            ) {
                Some(url) => r is Ok && r->Ok_0@ == url,
                None => r is Err && r->Err_0@ == Failure::UrlParseError,
            },
    {
        let mut pairs: Vec<(String, String)> = Vec::new();
        match request {
            FinnhubRequest::Candle { symbol, resolution, from, to } => {
                pairs.push((String::from_str("symbol"), symbol.clone()));
                pairs.push((String::from_str("resolution"), resolution.clone()));
                pairs.push((String::from_str("from"), number_text(*from)));
                pairs.push((String::from_str("to"), number_text(*to)));
                pairs.push((String::from_str("token"), self.token.clone()));
                assert(pairs_of(pairs@) =~= finnhub_query(self.token(), request@));
                endpoint(BASE_URL, "stock/candle", &pairs)
            },
            FinnhubRequest::Quote { symbol } => {
                pairs.push((String::from_str("symbol"), symbol.clone()));
                pairs.push((String::from_str("token"), self.token.clone()));
                assert(pairs_of(pairs@) =~= finnhub_query(self.token(), request@));
                endpoint(BASE_URL, "quote", &pairs)
            },
        }
    }
}

} // verus!

verus! {

/// The candles of a response: one array for each field of the bars, and the
/// status that the provider reports.
#[derive(Debug)]
pub struct FinnhubCandles {
    /// closing prices
    pub c: Option<Vec<Price>>,
    /// highest prices
    pub h: Option<Vec<Price>>,
    /// lowest prices
    pub l: Option<Vec<Price>>,
    /// opening prices
    pub o: Option<Vec<Price>>,
    /// `ok` where the response holds candles
    pub status: Option<String>,
    /// the moments of the bars, in seconds since the epoch
    pub t: Option<Vec<i64>>,
    /// volumes, in ticks
    pub v: Option<Vec<i64>>,
    /// what went wrong, where something did
    pub error: Option<String>,
}

/// A quote: the prices of the current day.
#[derive(Debug)]
pub struct FinnhubQuote {
    /// current price
    pub c: Price,
    /// highest price of the day
    pub h: Price,
    /// lowest price of the day
    pub l: Price,
    /// opening price of the day
    pub o: Price,
    /// previous close
    pub pc: Price,
    /// the moment of the quote, in seconds since the epoch
    pub t: i64,
}

/// What the status of a response says is wrong with it, if anything.
pub open spec fn status_failure(
    raw: Seq<char>,
    status: Option<Seq<char>>,
    error: Option<Seq<char>>,
) -> Option<Failure> {
    match status {
        None => match error {
            Some(e) => Some(Failure::DownloadedData("Finnhub error: "@ + e)),
            None => Some(
                Failure::DownloadedData("Finnhub response missing status. Response: "@ + raw),
            ),
        },
        Some(s) => if s == "ok"@ {
            None
        } else {
            match error {
                Some(e) => Some(Failure::DownloadedData("Error returned from Finnhub: "@ + e)),
                None => Some(Failure::DownloadedData("Error returned from Finnhub: "@ + s)),
            }
        },
    }
}

/// The first of the arrays that a response lacks, if it lacks any.
pub open spec fn missing_array(candles: FinnhubCandles) -> Option<Failure> {
    if candles.t is None {
        Some(Failure::DownloadedData("Missing timestamps"@))
    } else if candles.o is None {
        Some(Failure::DownloadedData("Missing open prices"@))
    } else if candles.h is None {
        Some(Failure::DownloadedData("Missing high prices"@))
    } else if candles.l is None {
        Some(Failure::DownloadedData("Missing low prices"@))
    } else if candles.c is None {
        Some(Failure::DownloadedData("Missing close prices"@))
    } else if candles.v is None {
        Some(Failure::DownloadedData("Missing volumes"@))
    } else {
        None
    }
}

/// Whether an array of prices or volumes is shorter than the timestamps.
pub open spec fn too_short(candles: FinnhubCandles) -> bool {
    let n = candles.t->Some_0@.len();
    candles.o->Some_0@.len() < n || candles.h->Some_0@.len() < n || candles.l->Some_0@.len() < n
        || candles.c->Some_0@.len() < n || candles.v->Some_0@.len() < n
}

/// The bar at position `i` of the arrays.
pub open spec fn candle_bar(candles: FinnhubCandles, i: int) -> Series {
    Series {
        date: date_from(date_of_seconds(candles.t->Some_0@[i] as int)->Some_0),
        open: candles.o->Some_0@[i],
        close: candles.c->Some_0@[i],
        high: candles.h->Some_0@[i],
        low: candles.l->Some_0@[i],
        volume: candles.v->Some_0@[i],
    }
}

/// The bars of the arrays, in the order of the arrays.
pub open spec fn candle_bars(candles: FinnhubCandles) -> Seq<Series> {
    Seq::new(candles.t->Some_0@.len(), |i: int| candle_bar(candles, i))
}

/// The interval that a resolution stands for: daily unless it says weekly
/// or monthly.
pub open spec fn resolution_interval(resolution: Seq<char>) -> Interval {
    if resolution == "W"@ {
        Interval::Weekly
    } else if resolution == "M"@ {
        Interval::Monthly
    } else {
        Interval::Daily
    }
}

/// What becomes of a response with candles: the series with its bars in
/// order of date, or the first thing that is wrong with the response.
pub open spec fn candles_outcome(
    raw: Seq<char>,
    candles: FinnhubCandles,
    symbol: Seq<char>,
    resolution: Seq<char>,
) -> Result<MarketSeriesView, Failure> {
    match status_failure(raw, text_of(candles.status), text_of(candles.error)) {
        Some(failure) => Err(failure),
        None => match missing_array(candles) {
            Some(failure) => Err(failure),
            None => {
                let t = candles.t->Some_0@;
                let undated = first_undated_seconds(t, 0);
                if too_short(candles) {
                    Err(Failure::DownloadedData("Candle arrays differ in length"@))
                } else if undated < t.len() {
                    Err(
                        Failure::ParsingError(
                            "Unable to parse timestamp: "@ + signed_decimal(t[undated] as int),
                        ),
                    )
                } else {
                    Ok(
                        MarketSeriesView {
                            symbol,
                            interval: resolution_interval(resolution),
                            data: sorted_by_date(candle_bars(candles)),
                        },
                    )
                }
            },
        },
    }
}

/// What becomes of a quote: a daily series of one bar without volume, or
/// what is wrong with the quote.
pub open spec fn quote_outcome(quote: FinnhubQuote, symbol: Seq<char>) -> Result<
    MarketSeriesView,
    Failure,
> {
    if quote.t == 0 {
        Err(Failure::DownloadedData("Finnhub quote returned no data for symbol: "@ + symbol))
    } else {
        match date_of_seconds(quote.t as int) {
            None => Err(
                Failure::ParsingError(
                    "Unable to parse timestamp: "@ + signed_decimal(quote.t as int),
                ),
            ),
            Some(numbers) => Ok(
                MarketSeriesView {
                    symbol,
                    interval: Interval::Daily,
                    data: seq![
                        Series {
                            date: date_from(numbers),
                            open: quote.o,
                            close: quote.c,
                            high: quote.h,
                            low: quote.l,
                            volume: 0,
                        },
                    ],
                },
            ),
        }
    }
}

fn unparsed_timestamp(seconds: i64) -> (r: MarketError)
    ensures
        r@ == Failure::ParsingError(
            "Unable to parse timestamp: "@ + signed_decimal(seconds as int),
        ),
{
    let mut message = String::from_str("Unable to parse timestamp: ");
    push_signed_decimal(&mut message, seconds as i128);
    MarketError::ParsingError(message)
}

impl Finnhub {
    /// The series that a response with candles holds for a request of
    /// `symbol` at `resolution`. `raw` is the response as it came.
    pub fn transform_candles(
        &self,
        raw: &str,
        candles: FinnhubCandles,
        symbol: &str,
        resolution: &str,
    ) -> (r: MarketResult<MarketSeries>)
        ensures
            outcome_of(r) == candles_outcome(raw@, candles, symbol@, resolution@),
    {
        let FinnhubCandles { c, h, l, o, status, t, v, error } = candles;
        match status {
            None => {
                return match error {
                    Some(e) => Err(downloaded("Finnhub error: ", e.as_str())),
                    None => Err(
                        downloaded("Finnhub response missing status. Response: ", raw),
                    ),
                };
            },
            Some(s) => {
                if !same_text(s.as_str(), "ok") {
                    return match error {
                        Some(e) => Err(downloaded("Error returned from Finnhub: ", e.as_str())),
                        None => Err(downloaded("Error returned from Finnhub: ", s.as_str())),
                    };
                }
            },
        }
        let t = match t {
            Some(t) => t,
            None => {
                return Err(MarketError::DownloadedData(String::from_str("Missing timestamps")));
            },
        };
        let o = match o {
            Some(o) => o,
            None => {
                return Err(MarketError::DownloadedData(String::from_str("Missing open prices")));
            },
        };
        let h = match h {
            Some(h) => h,
            None => {
                return Err(MarketError::DownloadedData(String::from_str("Missing high prices")));
            },
        };
        let l = match l {
            Some(l) => l,
            None => {
                return Err(MarketError::DownloadedData(String::from_str("Missing low prices")));
            },
        };
        let c = match c {
            Some(c) => c,
            None => {
                return Err(MarketError::DownloadedData(String::from_str("Missing close prices")));
            },
        };
        let v = match v {
            Some(v) => v,
            None => {
                return Err(MarketError::DownloadedData(String::from_str("Missing volumes")));
            },
        };
        let n: usize = t.len();
        if o.len() < n || h.len() < n || l.len() < n || c.len() < n || v.len() < n {
            return Err(
                MarketError::DownloadedData(String::from_str("Candle arrays differ in length")),
            );
        }
        let mut bars: Vec<Series> = Vec::with_capacity(n);
        let mut i: usize = 0;
        while i < n
            invariant
                n == t@.len(),
                candles.t == Some(t),
                candles.o == Some(o),
                candles.h == Some(h),
                candles.l == Some(l),
                candles.c == Some(c),
                candles.v == Some(v),
                !too_short(candles),
                status_failure(raw@, text_of(candles.status), text_of(candles.error)) is None,
                i <= n,
                first_undated_seconds(t@, 0) == first_undated_seconds(t@, i as int),
                bars@.len() == i,
                forall|j: int| 0 <= j < i ==> bars@[j] == candle_bar(candles, j),
            decreases n - i,
        {
            let date = match Date::from_seconds(t[i]) {
                Some(date) => date,
                None => {
                    assert(first_undated_seconds(t@, i as int) == i);
                    return Err(unparsed_timestamp(t[i]));
                },
            };
            proof {
                lemma_date_from(date, date_of_seconds(t@[i as int] as int)->Some_0);
            }
            bars.push(Series { date, open: o[i], close: c[i], high: h[i], low: l[i], volume: v[i] });
            i += 1;
        }
        assert(bars@ =~= candle_bars(candles));
        let interval = if same_text(resolution, "W") {
            Interval::Weekly
        } else if same_text(resolution, "M") {
            Interval::Monthly
        } else {
            Interval::Daily
        };
        Ok(MarketSeries { symbol: String::from_str(symbol), interval, data: sort_by_date(bars) })
    }

    /// The series that a quote for `symbol` holds.
    pub fn transform_quote(&self, quote: FinnhubQuote, symbol: &str) -> (r: MarketResult<
        MarketSeries,
    >)
        ensures
            outcome_of(r) == quote_outcome(quote, symbol@),
    {
        if quote.t == 0 {
            return Err(downloaded("Finnhub quote returned no data for symbol: ", symbol));
        }
        let date = match Date::from_seconds(quote.t) {
            Some(date) => date,
            None => {
                return Err(unparsed_timestamp(quote.t));
            },
        };
        proof {
            lemma_date_from(date, date_of_seconds(quote.t as int)->Some_0);
        }
        let mut data: Vec<Series> = Vec::new();
        data.push(
            Series { date, open: quote.o, close: quote.c, high: quote.h, low: quote.l, volume: 0 },
        );
        let series = MarketSeries {
            symbol: String::from_str(symbol),
            interval: Interval::Daily,
            data,
        };
        assert(series@.data =~= quote_outcome(quote, symbol@)->Ok_0.data);
        Ok(series)
    }
}

} // verus!

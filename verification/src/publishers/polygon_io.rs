//! Polygon.io: aggregate bars, in the format that Massive shares.

use crate::client::{interval_name, Interval, MarketSeries, MarketSeriesView};
use crate::endpoint::{
    first_unresolved, lemma_first_unresolved, resolve_all, resolved, texts_of,
};
use crate::errors::{Failure, MarketError, MarketResult};
use crate::publishers::massive::{massive_timespan, prices_outcome, transform, MassivePrices};
use crate::publishers::{outcome_of, outcomes_of};
use crate::text::{push_signed_decimal, signed_decimal};
use vstd::prelude::*;

verus! {

/// Where Polygon.io answers.
pub const BASE_URL: &'static str = "https://api.polygon.io/v2/aggs/ticker/";

/// A request to Polygon.io: bars of a symbol between two dates, each bar
/// `multiplier` timespans long, from at most `limit` base aggregates.
#[derive(Debug)]
pub struct PolygonRequest {
    symbol: String,
    timespan: String,
    multiplier: i32,
    from_date: String,
    to_date: String,
    limit: i32,
}

/// A request to Polygon.io as a value.
pub struct PolygonAsk {
    pub symbol: Seq<char>,
    pub timespan: Seq<char>,
    pub multiplier: int,
    pub from_date: Seq<char>,
    pub to_date: Seq<char>,
    pub limit: int,
}

impl View for PolygonRequest {
    type V = PolygonAsk;

    closed spec fn view(&self) -> PolygonAsk {
        PolygonAsk {
            symbol: self.symbol@,
            timespan: self.timespan@,
            multiplier: self.multiplier as int,
            from_date: self.from_date@,
            to_date: self.to_date@,
            limit: self.limit as int,
        }
    }
}

impl Default for PolygonRequest {
    fn default() -> (r: PolygonRequest)
        ensures
            r@ == (PolygonAsk {
                symbol: Seq::empty(),
                timespan: Seq::empty(),
                multiplier: 0,
                from_date: Seq::empty(),
                to_date: Seq::empty(),
                limit: 0,
            }),
    {
        PolygonRequest {
            symbol: String::new(),
            timespan: String::new(),
            multiplier: 0,
            from_date: String::new(),
            to_date: String::new(),
            limit: 0,
        }
    }
}

/// The reference, from the base, of the endpoint that answers a request.
pub open spec fn polygon_reference(token: Seq<char>, request: PolygonAsk) -> Seq<char> {
    request.symbol + "/range/"@ + signed_decimal(request.multiplier) + "/"@ + request.timespan
        + "/"@ + request.from_date + "/"@ + request.to_date + "?sort=asc&limit="@ + signed_decimal(
        request.limit,
    ) + "&apiKey="@ + token
}

/// The references of the first `upto` requests.
pub open spec fn polygon_references(token: Seq<char>, requests: Seq<PolygonAsk>) -> Seq<
    Seq<char>,
> {
    Seq::new(requests.len(), |i: int| polygon_reference(token, requests[i]))
}

/// The requests of a list as values.
pub open spec fn asks_of(requests: Seq<PolygonRequest>) -> Seq<PolygonAsk> {
    Seq::new(requests.len(), |i: int| requests[i]@)
}

/// What becomes of the first `upto` responses, each for a request of `interval`.
pub open spec fn responses_outcomes(data: Seq<MassivePrices>, interval: Interval) -> Seq<
    Result<MarketSeriesView, Failure>,
> {
    Seq::new(data.len(), |i: int| prices_outcome(data[i], interval))
}

/// Fetches time series from Polygon.io: collects requests, makes their
/// endpoints, holds the responses and turns them into series.
#[derive(Debug)]
pub struct Polygon {
    token: String,
    requests: Vec<PolygonRequest>,
    endpoints: Vec<String>,
    data: Vec<MassivePrices>,
    interval: Interval,
}

fn reference(token: &String, request: &PolygonRequest) -> (r: String)
    ensures
        r@ == polygon_reference(token@, request@),
{
    let mut out = request.symbol.clone();
    out.append("/range/");
    push_signed_decimal(&mut out, request.multiplier as i128);
    out.append("/");
    out.append(request.timespan.as_str());
    out.append("/");
    out.append(request.from_date.as_str());
    out.append("/");
    out.append(request.to_date.as_str());
    out.append("?sort=asc&limit=");
    push_signed_decimal(&mut out, request.limit as i128);
    out.append("&apiKey=");
    out.append(token.as_str());
    out
}

impl Polygon {
    /// The token that requests are made with.
    pub closed spec fn token(&self) -> Seq<char> {
        self.token@
    }

    /// The requests that wait for their endpoints.
    pub closed spec fn asks(&self) -> Seq<PolygonAsk> {
        asks_of(self.requests@)
    }

    /// The endpoints that wait to be asked.
    pub closed spec fn urls(&self) -> Seq<Seq<char>> {
        texts_of(self.endpoints@)
    }

    /// The responses that wait to be transformed.
    pub closed spec fn responses(&self) -> Seq<MassivePrices> {
        self.data@
    }

    /// The interval of the request that was made last.
    pub closed spec fn interval(&self) -> Interval {
        self.interval
    }

    /// create new instance of Polygon
    pub fn new(token: &str) -> (r: Self)
        ensures
            r.token() == token@,
            r.asks().len() == 0,
            r.urls().len() == 0,
            r.responses().len() == 0,
            r.interval() == Interval::Daily,
    {
        Polygon {
            token: String::from_str(token),
            requests: Vec::new(),
            endpoints: Vec::new(),
            data: Vec::new(),
            interval: Interval::Daily,
        }
    }

    /// Whether a request of `interval` has come to the end of the requests
    /// and nothing else has changed.
    pub open spec fn asked(&self, before: Polygon, ask: PolygonAsk, interval: Interval) -> bool {
        &&& self.asks() == before.asks().push(ask)
        &&& self.interval() == interval
        &&& self.token() == before.token()
        &&& self.urls() == before.urls()
        &&& self.responses() == before.responses()
    }

    fn push_request(&mut self, request: PolygonRequest, interval: Interval)
        ensures
            final(self).asked(*old(self), request@, interval),
    {
        self.interval = interval;
        self.requests.push(request);
        assert(asks_of(self.requests@) =~= asks_of(old(self).requests@).push(request@));
    }

    /// Request for intraday series: for the intervals from one minute to
    /// four hours; for any other interval nothing changes.
    pub fn intraday_series(
        &mut self,
        symbol: &str,
        from_date: &str,
        to_date: &str,
        interval: Interval,
        limit: i32,
    ) -> (r: MarketResult<()>)
        ensures
            match massive_timespan(interval) {
                Some(span) => r is Ok && final(self).asked(
                    *old(self),
                    PolygonAsk {
                        symbol: symbol@,
                        timespan: span.0,
                        multiplier: span.1,
                        from_date: from_date@,
                        to_date: to_date@,
                        limit: limit as int,
                    },
                    interval,
                ),
                None => r is Err && r->Err_0@ == Failure::UnsuportedInterval(
                    interval_name(interval) + " Unsuported Interval"@,
                ) && *final(self) == *old(self),
            },
    {
        let (timespan, multiplier): (&str, i32) = match interval {
            Interval::Min1 => ("minute", 1),
            Interval::Min5 => ("minute", 5),
            Interval::Min15 => ("minute", 15),
            Interval::Min30 => ("minute", 30),
            Interval::Hour1 => ("hour", 1),
            Interval::Hour2 => ("hour", 2),
            Interval::Hour4 => ("hour", 4),
            _ => {
                let mut message = interval.to_string();
                message.append(" Unsuported Interval");
                return Err(MarketError::UnsuportedInterval(message));
            },
        };
        self.push_request(
            PolygonRequest {
                symbol: String::from_str(symbol),
                timespan: String::from_str(timespan),
                multiplier,
                from_date: String::from_str(from_date),
                to_date: String::from_str(to_date),
                limit,
            },
            interval,
        );
        Ok(())
    }

    /// Request for daily series
    pub fn daily_series(&mut self, symbol: &str, from_date: &str, to_date: &str, limit: i32)
        ensures
            final(self).asked(
                *old(self),
                PolygonAsk {
                    symbol: symbol@,
                    timespan: "day"@,
                    multiplier: 1,
                    from_date: from_date@,
                    to_date: to_date@,
                    limit: limit as int,
                },
                Interval::Daily,
            ),
    {
        self.push_request(
            PolygonRequest {
                symbol: String::from_str(symbol),
                timespan: String::from_str("day"),
                multiplier: 1,
                from_date: String::from_str(from_date),
                to_date: String::from_str(to_date),
                limit,
            },
            Interval::Daily,
        );
    }

    /// Request for weekly series
    pub fn weekly_series(&mut self, symbol: &str, from_date: &str, to_date: &str, limit: i32)
        ensures
            final(self).asked(
                *old(self),
                PolygonAsk {
                    symbol: symbol@,
                    timespan: "week"@,
                    multiplier: 1,
                    from_date: from_date@,
                    to_date: to_date@,
                    limit: limit as int,
                },
                Interval::Weekly,
            ),
    {
        self.push_request(
            PolygonRequest {
                symbol: String::from_str(symbol),
                timespan: String::from_str("week"),
                multiplier: 1,
                from_date: String::from_str(from_date),
                to_date: String::from_str(to_date),
                limit,
            },
            Interval::Weekly,
        );
    }

    /// Request for monthly series
    pub fn monthly_series(&mut self, symbol: &str, from_date: &str, to_date: &str, limit: i32)
        ensures
            final(self).asked(
                *old(self),
                PolygonAsk {
                    symbol: symbol@,
                    timespan: "month"@,
                    multiplier: 1,
                    from_date: from_date@,
                    to_date: to_date@,
                    limit: limit as int,
                },
                Interval::Monthly,
            ),
    {
        self.push_request(
            PolygonRequest {
                symbol: String::from_str(symbol),
                timespan: String::from_str("month"),
                multiplier: 1,
                from_date: String::from_str(from_date),
                to_date: String::from_str(to_date),
                limit,
            },
            Interval::Monthly,
        );
    }

    /// Makes the endpoints of the requests and drops the requests. Where a
    /// request has no endpoint, that is the error and nothing changes.
    pub fn create_endpoint(&mut self) -> (r: MarketResult<()>)
        ensures
            final(self).token() == old(self).token(),
            final(self).responses() == old(self).responses(),
            final(self).interval() == old(self).interval(),
            ({
                let references = polygon_references(old(self).token(), old(self).asks());
                if first_unresolved(BASE_URL@, references, 0) == references.len() {
                    &&& r is Ok
                    &&& resolved(BASE_URL@, references, final(self).urls())
                    &&& final(self).asks().len() == 0
                } else {
                    &&& r is Err
                    &&& r->Err_0@ == Failure::UrlParseError
                    &&& final(self).urls() == old(self).urls()
                    &&& final(self).asks() == old(self).asks()
                }
            }),
    {
        let ghost wanted = polygon_references(self.token(), self.asks());
        let mut references: Vec<String> = Vec::with_capacity(self.requests.len());
        let mut i: usize = 0;
        while i < self.requests.len()
            invariant
                *self == *old(self),
                wanted == polygon_references(self.token(), self.asks()),
                wanted.len() == self.requests@.len(),
                i <= self.requests@.len(),
                references@.len() == i,
                forall|j: int| 0 <= j < i ==> references@[j]@ == wanted[j],
            decreases self.requests@.len() - i,
        {
            references.push(reference(&self.token, &self.requests[i]));
            i += 1;
        }
        proof {
            assert(texts_of(references@) =~= wanted);
            lemma_first_unresolved(BASE_URL@, wanted, 0);
        }
        match resolve_all(BASE_URL, &references) {
            Ok(urls) => {
                self.endpoints = urls;
                self.requests.clear();
                Ok(())
            },
            Err(e) => Err(e),
        }
    }

    /// The endpoints that wait to be asked.
    pub fn endpoints(&self) -> (r: &Vec<String>)
        ensures
            texts_of(r@) == self.urls(),
    {
        &self.endpoints
    }

    /// The responses that wait to be transformed.
    pub fn data(&self) -> (r: &Vec<MassivePrices>)
        ensures
            r@ == self.responses(),
    {
        &self.data
    }

    /// Takes in the response of an endpoint.
    pub fn store(&mut self, prices: MassivePrices)
        ensures
            final(self).responses() == old(self).responses().push(prices),
            final(self).token() == old(self).token(),
            final(self).asks() == old(self).asks(),
            final(self).urls() == old(self).urls(),
            final(self).interval() == old(self).interval(),
    {
        self.data.push(prices);
    }

    /// Every endpoint has been asked: the endpoints are dropped.
    pub fn finish_download(&mut self)
        ensures
            final(self).urls().len() == 0,
            final(self).token() == old(self).token(),
            final(self).asks() == old(self).asks(),
            final(self).responses() == old(self).responses(),
            final(self).interval() == old(self).interval(),
    {
        self.endpoints.clear();
    }

    /// Turns the responses into series, each as a response to a request of
    /// the interval that was asked for last, and drops the responses.
    pub fn transform_data(&mut self) -> (r: Vec<MarketResult<MarketSeries>>)
        ensures
            outcomes_of(r@) == responses_outcomes(old(self).responses(), old(self).interval()),
            final(self).responses().len() == 0,
            final(self).token() == old(self).token(),
            final(self).asks() == old(self).asks(),
            final(self).urls() == old(self).urls(),
            final(self).interval() == old(self).interval(),
    {
        let mut results: Vec<MarketResult<MarketSeries>> = Vec::with_capacity(self.data.len());
        let mut i: usize = 0;
        while i < self.data.len()
            invariant
                *self == *old(self),
                i <= self.data@.len(),
                results@.len() == i,
                forall|j: int|
                    0 <= j < i ==> outcome_of(results@[j]) == prices_outcome(
                        self.data@[j],
                        self.interval,
                    ),
            decreases self.data@.len() - i,
        {
            results.push(transform(&self.data[i], self.interval));
            i += 1;
        }
        assert(outcomes_of(results@) =~= responses_outcomes(self.data@, self.interval));
        self.data.clear();
        results
    }
}

} // verus!

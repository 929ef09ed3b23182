//! Yahoo Finance: charts.

use crate::client::{interval_name, Date, Interval, MarketSeries, MarketSeriesView, Series};
use crate::dates::{date_from, date_of_seconds, lemma_date_from};
use crate::endpoint::{
    first_unresolved, lemma_first_unresolved, resolve_all, resolved, texts_of,
};
use crate::errors::{Failure, MarketError, MarketResult};
use crate::fixed::Price;
use crate::publishers::{downloaded, outcome_of, outcomes_of, unparsed};
use vstd::prelude::*;

verus! {

/// Where Yahoo Finance answers.
pub const BASE_URL: &'static str = "https://query1.finance.yahoo.com/v8/finance/chart/";

/// How far back a chart reaches.
#[derive(Clone, Copy, Debug, PartialEq, Eq, Structural)]
pub enum YahooRange {
    Day1,
    Day5,
    Month1,
    Month3,
    Month6,
    Year1,
    Year2,
    Year5,
    Year10,
    Ytd,
    Max,
}

impl Default for YahooRange {
    fn default() -> (r: YahooRange)
        ensures
            r == YahooRange::Month6,
    {
        YahooRange::Month6
    }
}

/// How a range is named in a query.
pub open spec fn range_name(range: YahooRange) -> Seq<char> {
    match range {
        YahooRange::Day1 => "1d"@,
        YahooRange::Day5 => "5d"@,
        YahooRange::Month1 => "1mo"@,
        YahooRange::Month3 => "3mo"@,
        YahooRange::Month6 => "6mo"@,
        YahooRange::Year1 => "1y"@,
        YahooRange::Year2 => "2y"@,
        YahooRange::Year5 => "5y"@,
        YahooRange::Year10 => "10y"@,
        YahooRange::Ytd => "ytd"@,
        YahooRange::Max => "max"@,
    }
}

impl YahooRange {
    /// The name of the range in a query.
    pub fn to_string(&self) -> (r: String)
        ensures
            r@ == range_name(*self),
    {
        let name: &str = match self {
            YahooRange::Day1 => "1d",
            YahooRange::Day5 => "5d",
            YahooRange::Month1 => "1mo",
            YahooRange::Month3 => "3mo",
            YahooRange::Month6 => "6mo",
            YahooRange::Year1 => "1y",
            YahooRange::Year2 => "2y",
            YahooRange::Year5 => "5y",
            YahooRange::Year10 => "10y",
            YahooRange::Ytd => "ytd",
            YahooRange::Max => "max",
        };
        String::from_str(name)
    }
}

/// A request to Yahoo Finance: the chart of a symbol at an interval over a range.
#[derive(Debug)]
pub struct YahooRequest {
    symbol: String,
    interval: String,
    range: YahooRange,
}

/// A request to Yahoo Finance as a value.
pub struct YahooAsk {
    pub symbol: Seq<char>,
    pub interval: Seq<char>,
    pub range: YahooRange,
}

impl View for YahooRequest {
    type V = YahooAsk;

    closed spec fn view(&self) -> YahooAsk {
        YahooAsk { symbol: self.symbol@, interval: self.interval@, range: self.range }
    }
}

impl Default for YahooRequest {
    fn default() -> (r: YahooRequest)
        ensures
            r@ == (YahooAsk {
                symbol: Seq::empty(),
                interval: Seq::empty(),
                range: YahooRange::Month6,
            }),
    {
        YahooRequest { symbol: String::new(), interval: String::new(), range: YahooRange::Month6 }
    }
}

/// The code that stands for an intraday interval, for the intervals from
/// one minute to one hour.
pub open spec fn yahoo_interval(interval: Interval) -> Option<Seq<char>> {
    match interval {
        Interval::Min1 => Some("1m"@),
        Interval::Min5 => Some("5m"@),
        Interval::Min15 => Some("15m"@),
        Interval::Min30 => Some("30m"@),
        Interval::Hour1 => Some("1h"@),
        _ => None,
    }
}

/// The reference, from the base, of the endpoint that answers a request.
pub open spec fn yahoo_reference(request: YahooAsk) -> Seq<char> {
    request.symbol + "?metrics=high&interval="@ + request.interval + "&range="@ + range_name(
        request.range,
    )
}

/// The references of some requests.
pub open spec fn yahoo_references(requests: Seq<YahooAsk>) -> Seq<Seq<char>> {
    Seq::new(requests.len(), |i: int| yahoo_reference(requests[i]))
}

/// The requests of a list as values.
pub open spec fn asks_of(requests: Seq<YahooRequest>) -> Seq<YahooAsk> {
    Seq::new(requests.len(), |i: int| requests[i]@)
}

/// The prices and volumes of a chart, one array for each field.
#[derive(Debug)]
pub struct Quote {
    /// volumes, in ticks
    pub volume: Vec<i64>,
    pub close: Vec<Price>,
    pub low: Vec<Price>,
    pub open: Vec<Price>,
    pub high: Vec<Price>,
}

/// One chart: the symbol, the moments of the bars in seconds since the
/// epoch, and the quotes.
#[derive(Debug)]
pub struct ChartResult {
    pub symbol: String,
    pub timestamp: Vec<i64>,
    pub quote: Vec<Quote>,
}

/// The charts of a response, and what went wrong, where something did.
#[derive(Debug)]
pub struct Chart {
    pub result: Vec<ChartResult>,
    pub error: Option<String>,
}

/// A response.
#[derive(Debug)]
pub struct YahooPrices {
    pub chart: Chart,
}

/// The dates of the first `upto` moments that have one, in their order.
pub open spec fn dates_upto(moments: Seq<i64>, upto: int) -> Seq<Date>
    decreases upto,
{
    if upto <= 0 {
        Seq::empty()
    } else {
        match date_of_seconds(moments[upto - 1] as int) {
            Some(numbers) => dates_upto(moments, upto - 1).push(date_from(numbers)),
            None => dates_upto(moments, upto - 1),
        }
    }
}

/// A failure for each of the first `upto` moments that has no date.
pub open spec fn undated_upto(moments: Seq<i64>, upto: int) -> Seq<
    Result<MarketSeriesView, Failure>,
>
    decreases upto,
{
    if upto <= 0 {
        Seq::empty()
    } else {
        match date_of_seconds(moments[upto - 1] as int) {
            Some(_) => undated_upto(moments, upto - 1),
            None => undated_upto(moments, upto - 1).push(
                Err(Failure::ParsingError("Unable to parse the timestamp"@)),
            ),
        }
    }
}

/// The number of bars that a quote gives: every position but the first and
/// the last of its opening prices.
pub open spec fn inner_count(quote: Quote) -> int {
    if quote.open@.len() >= 2 {
        quote.open@.len() - 2
    } else {
        0
    }
}

/// Whether the arrays of a quote, and the dates, reach as far as its bars do.
pub open spec fn quote_fits(quote: Quote, dates: Seq<Date>) -> bool {
    let last = inner_count(quote);
    inner_count(quote) == 0 || (last < dates.len() && last < quote.close@.len() && last
        < quote.high@.len() && last < quote.low@.len() && last < quote.volume@.len())
}

/// The bars of a quote: one for every position but the first and the last.
pub open spec fn quote_bars(quote: Quote, dates: Seq<Date>) -> Seq<Series> {
    Seq::new(
        inner_count(quote) as nat,
        |k: int|
            Series {
                date: dates[k + 1],
                open: quote.open@[k + 1],
                close: quote.close@[k + 1],
                high: quote.high@[k + 1],
                low: quote.low@[k + 1],
                volume: quote.volume@[k + 1],
            },
    )
}

/// The first position from `from` on whose quote does not fit, or the
/// number of quotes if every one does.
pub open spec fn first_unfit(quotes: Seq<Quote>, dates: Seq<Date>, from: int) -> int
    decreases quotes.len() - from,
{
    if from >= quotes.len() {
        quotes.len() as int
    } else if !quote_fits(quotes[from], dates) {
        from
    } else {
        first_unfit(quotes, dates, from + 1)
    }
}

/// The bars of the first `upto` quotes, one quote after the other.
pub open spec fn bars_upto(quotes: Seq<Quote>, dates: Seq<Date>, upto: int) -> Seq<Series>
    decreases upto,
{
    if upto <= 0 {
        Seq::empty()
    } else {
        bars_upto(quotes, dates, upto - 1) + quote_bars(quotes[upto - 1], dates)
    }
}

/// What becomes of one chart for a request of `interval`: a failure for each
/// moment without a date, then the series of the bars of its quotes, or a
/// failure where a quote does not fit.
pub open spec fn chart_outcomes(chart: ChartResult, interval: Interval) -> Seq<
    Result<MarketSeriesView, Failure>,
> {
    let moments = chart.timestamp@;
    let dates = dates_upto(moments, moments.len() as int);
    let quotes = chart.quote@;
    undated_upto(moments, moments.len() as int).push(
        if first_unfit(quotes, dates, 0) < quotes.len() {
            Err(Failure::DownloadedData("Quote arrays differ in length"@))
        } else {
            Ok(
                MarketSeriesView {
                    symbol: chart.symbol@,
                    interval,
                    data: bars_upto(quotes, dates, quotes.len() as int),
                },
            )
        },
    )
}

/// What becomes of the first `upto` charts, one after the other.
pub open spec fn charts_outcomes(charts: Seq<ChartResult>, interval: Interval, upto: int) -> Seq<
    Result<MarketSeriesView, Failure>,
>
    decreases upto,
{
    if upto <= 0 {
        Seq::empty()
    } else {
        charts_outcomes(charts, interval, upto - 1) + chart_outcomes(charts[upto - 1], interval)
    }
}

/// What becomes of a response to a request of `interval`: the failure that
/// the response reports, if any, then what becomes of its charts.
pub open spec fn prices_outcomes(prices: YahooPrices, interval: Interval) -> Seq<
    Result<MarketSeriesView, Failure>,
> {
    let reported: Seq<Result<MarketSeriesView, Failure>> = match prices.chart.error {
        Some(e) => seq![Err(Failure::DownloadedData("The return data has some error: "@ + e@))],
        None => Seq::empty(),
    };
    reported + charts_outcomes(prices.chart.result@, interval, prices.chart.result@.len() as int)
}

/// Appending two lists one after the other appends their concatenation.
proof fn lemma_concat(
    a: Seq<Result<MarketSeriesView, Failure>>,
    b: Seq<Result<MarketSeriesView, Failure>>,
    c: Seq<Result<MarketSeriesView, Failure>>,
)
    ensures
        (a + b) + c == a + (b + c),
{
    assert((a + b) + c =~= a + (b + c));
}

/// Storing one more result stores one more outcome.
proof fn lemma_push_outcome(results: Seq<MarketResult<MarketSeries>>, next: MarketResult<MarketSeries>)
    ensures
        outcomes_of(results.push(next)) == outcomes_of(results).push(outcome_of(next)),
{
    assert(outcomes_of(results.push(next)) =~= outcomes_of(results).push(outcome_of(next)));
}

/// The dates of the moments of a chart; appends a failure to `results` for
/// each moment without one.
fn chart_dates(results: &mut Vec<MarketResult<MarketSeries>>, moments: &Vec<i64>) -> (dates: Vec<
    Date,
>)
    ensures
        dates@ == dates_upto(moments@, moments@.len() as int),
        outcomes_of(final(results)@) == outcomes_of(old(results)@) + undated_upto(
            moments@,
            moments@.len() as int,
        ),
{
    let ghost start = outcomes_of(results@);
    let mut dates: Vec<Date> = Vec::with_capacity(moments.len());
    let mut i: usize = 0;
    assert(start + undated_upto(moments@, 0) =~= start);
    while i < moments.len()
        invariant
            i <= moments@.len(),
            dates@ == dates_upto(moments@, i as int),
            outcomes_of(results@) == start + undated_upto(moments@, i as int),
        decreases moments@.len() - i,
    {
        match Date::from_seconds(moments[i]) {
            Some(date) => {
                proof {
                    lemma_date_from(date, date_of_seconds(moments@[i as int] as int)->Some_0);
                }
                dates.push(date);
            },
            None => {
                let error = unparsed("Unable to parse the timestamp");
                proof {
                    lemma_push_outcome(results@, Err(error));
                    assert(start + undated_upto(moments@, i + 1) =~= (start + undated_upto(
                        moments@,
                        i as int,
                    )).push(Err(Failure::ParsingError("Unable to parse the timestamp"@))));
                }
                results.push(Err(error));
            },
        }
        i += 1;
    }
    dates
}

/// Appends the bars of a quote to `bars`, if the quote fits.
fn push_quote_bars(bars: &mut Vec<Series>, quote: &Quote, dates: &Vec<Date>) -> (fits: bool)
    ensures
        fits == quote_fits(*quote, dates@),
        fits ==> final(bars)@ == old(bars)@ + quote_bars(*quote, dates@),
{
    let m: usize = quote.open.len();
    if m < 3 {
        assert(old(bars)@ + quote_bars(*quote, dates@) =~= old(bars)@);
        return true;
    }
    let last: usize = m - 2;
    if !(last < dates.len() && last < quote.close.len() && last < quote.high.len() && last
        < quote.low.len() && last < quote.volume.len()) {
        return false;
    }
    let ghost start = bars@;
    let ghost wanted = quote_bars(*quote, dates@);
    let mut j: usize = 1;
    while j < m - 1
        invariant
            m == quote.open@.len(),
            m >= 3,
            last == m - 2,
            last < dates@.len(),
            last < quote.close@.len(),
            last < quote.high@.len(),
            last < quote.low@.len(),
            last < quote.volume@.len(),
            wanted == quote_bars(*quote, dates@),
            1 <= j <= m - 1,
            bars@.len() == start.len() + j - 1,
            forall|k: int| 0 <= k < start.len() ==> bars@[k] == start[k],
            forall|k: int| 0 <= k < j - 1 ==> bars@[start.len() + k] == wanted[k],
        decreases m - j,
    {
        bars.push(
            Series {
                date: dates[j],
                open: quote.open[j],
                close: quote.close[j],
                high: quote.high[j],
                low: quote.low[j],
                volume: quote.volume[j],
            },
        );
        j += 1;
    }
    assert(bars@ =~= start + wanted);
    true
}

/// Appends to `results` what becomes of one chart.
fn transform_chart(
    results: &mut Vec<MarketResult<MarketSeries>>,
    chart: &ChartResult,
    interval: Interval,
)
    ensures
        outcomes_of(final(results)@) == outcomes_of(old(results)@) + chart_outcomes(
            *chart,
            interval,
        ),
{
    let ghost start = outcomes_of(results@);
    let dates = chart_dates(results, &chart.timestamp);
    let ghost undated = undated_upto(chart.timestamp@, chart.timestamp@.len() as int);
    let mut bars: Vec<Series> = Vec::new();
    let mut q: usize = 0;
    let mut fits: bool = true;
    while q < chart.quote.len() && fits
        invariant
            q <= chart.quote@.len(),
            first_unfit(chart.quote@, dates@, 0) == first_unfit(chart.quote@, dates@, q as int),
            fits ==> bars@ == bars_upto(chart.quote@, dates@, q as int),
            !fits ==> first_unfit(chart.quote@, dates@, 0) < chart.quote@.len(),
        decreases chart.quote@.len() - q + (if fits { 1int } else { 0int }),
    {
        fits = push_quote_bars(&mut bars, &chart.quote[q], &dates);
        if fits {
            q += 1;
        } else {
            assert(first_unfit(chart.quote@, dates@, q as int) == q);
        }
    }
    let outcome: MarketResult<MarketSeries> = if fits {
        Ok(MarketSeries { symbol: chart.symbol.clone(), interval, data: bars })
    } else {
        Err(MarketError::DownloadedData(String::from_str("Quote arrays differ in length")))
    };
    proof {
        lemma_push_outcome(results@, outcome);
        assert((start + undated).push(outcome_of(outcome)) =~= start + undated.push(
            outcome_of(outcome),
        ));
    }
    results.push(outcome);
}

/// What becomes of a response to a request of `interval`.
pub fn transform(prices: &YahooPrices, interval: Interval) -> (r: Vec<MarketResult<MarketSeries>>)
    ensures
        outcomes_of(r@) == prices_outcomes(*prices, interval),
{
    let mut results: Vec<MarketResult<MarketSeries>> = Vec::new();
    assert(outcomes_of(results@) =~= Seq::empty());
    match &prices.chart.error {
        Some(e) => {
            let error = downloaded("The return data has some error: ", e.as_str());
            proof {
                lemma_push_outcome(results@, Err(error));
            }
            results.push(Err(error));
            assert(outcomes_of(results@) =~= seq![
                Err::<MarketSeriesView, Failure>(
                    Failure::DownloadedData("The return data has some error: "@ + e@),
                ),
            ]);
        },
        None => {},
    }
    let ghost reported = outcomes_of(results@);
    let mut i: usize = 0;
    assert(reported + charts_outcomes(prices.chart.result@, interval, 0) =~= reported);
    while i < prices.chart.result.len()
        invariant
            i <= prices.chart.result@.len(),
            outcomes_of(results@) == reported + charts_outcomes(
                prices.chart.result@,
                interval,
                i as int,
            ),
        decreases prices.chart.result@.len() - i,
    {
        let ghost sofar = charts_outcomes(prices.chart.result@, interval, i as int);
        transform_chart(&mut results, &prices.chart.result[i], interval);
        proof {
            lemma_concat(reported, sofar, chart_outcomes(prices.chart.result@[i as int], interval));
        }
        i += 1;
    }
    results
}

} // verus!

verus! {

/// What becomes of the response at position `i`: it answers the request
/// whose interval was recorded at that position; a response beyond the
/// recorded intervals answers no request.
pub open spec fn response_outcomes(data: Seq<YahooPrices>, intervals: Seq<Interval>, i: int) -> Seq<
    Result<MarketSeriesView, Failure>,
> {
    if i < intervals.len() {
        prices_outcomes(data[i], intervals[i])
    } else {
        seq![Err(Failure::DownloadedData("Response without a request"@))]
    }
}

/// What becomes of the first `upto` responses, one after the other.
pub open spec fn responses_outcomes(data: Seq<YahooPrices>, intervals: Seq<Interval>, upto: int) -> Seq<
    Result<MarketSeriesView, Failure>,
>
    decreases upto,
{
    if upto <= 0 {
        Seq::empty()
    } else {
        responses_outcomes(data, intervals, upto - 1) + response_outcomes(
            data,
            intervals,
            upto - 1,
        )
    }
}

/// Fetches charts from Yahoo Finance: collects requests, makes their
/// endpoints, holds the responses and turns them into series.
#[derive(Debug)]
pub struct YahooFin {
    requests: Vec<YahooRequest>,
    endpoints: Vec<String>,
    data: Vec<YahooPrices>,
    interval: Vec<Interval>,
}

fn reference(request: &YahooRequest) -> (r: String)
    ensures
        r@ == yahoo_reference(request@),
{
    let mut out = request.symbol.clone();
    out.append("?metrics=high&interval=");
    out.append(request.interval.as_str());
    out.append("&range=");
    let range = request.range.to_string();
    out.append(range.as_str());
    out
}

impl YahooFin {
    /// The requests that wait for their endpoints.
    pub closed spec fn asks(&self) -> Seq<YahooAsk> {
        asks_of(self.requests@)
    }

    /// The endpoints that wait to be asked.
    pub closed spec fn urls(&self) -> Seq<Seq<char>> {
        texts_of(self.endpoints@)
    }

    /// The responses that wait to be transformed.
    pub closed spec fn responses(&self) -> Seq<YahooPrices> {
        self.data@
    }

    /// The intervals that have been asked for, in the order of the requests.
    pub closed spec fn intervals(&self) -> Seq<Interval> {
        self.interval@
    }

    /// A client without requests.
    pub fn new() -> (r: Self)
        ensures
            r.asks().len() == 0,
            r.urls().len() == 0,
            r.responses().len() == 0,
            r.intervals().len() == 0,
    {
        YahooFin {
            requests: Vec::new(),
            endpoints: Vec::new(),
            data: Vec::new(),
            interval: Vec::new(),
        }
    }

    /// Whether a request of `interval` has come to the end of the requests
    /// and nothing else has changed.
    pub open spec fn asked(&self, before: YahooFin, ask: YahooAsk, interval: Interval) -> bool {
        &&& self.asks() == before.asks().push(ask)
        &&& self.intervals() == before.intervals().push(interval)
        &&& self.urls() == before.urls()
        &&& self.responses() == before.responses()
    }

    fn push_request(&mut self, request: YahooRequest)
        ensures
            final(self).asks() == old(self).asks().push(request@),
            final(self).intervals() == old(self).intervals(),
            final(self).urls() == old(self).urls(),
            final(self).responses() == old(self).responses(),
    {
        self.requests.push(request);
        assert(asks_of(self.requests@) =~= asks_of(old(self).requests@).push(request@));
    }

    /// Request for intraday series: for the intervals from one minute to one
    /// hour. The interval is recorded in either case; for any other interval
    /// no request is made.
    pub fn intraday_series(&mut self, symbol: &str, interval: Interval, range: YahooRange) -> (r:
        MarketResult<()>)
        ensures
            match yahoo_interval(interval) {
                Some(code) => r is Ok && final(self).asked(
                    *old(self),
                    YahooAsk { symbol: symbol@, interval: code, range },
                    interval,
                ),
                None => {
                    &&& r is Err
                    &&& r->Err_0@ == Failure::UnsuportedInterval(
                        interval_name(interval) + " interval is not supported by AlphaVantage"@,
                    )
                    &&& final(self).intervals() == old(self).intervals().push(interval)
                    &&& final(self).asks() == old(self).asks()
                    &&& final(self).urls() == old(self).urls()
                    &&& final(self).responses() == old(self).responses()
                },
            },
    {
        self.interval.push(interval);
        let code: &str = match interval {
            Interval::Min1 => "1m",
            Interval::Min5 => "5m",
            Interval::Min15 => "15m",
            Interval::Min30 => "30m",
            Interval::Hour1 => "1h",
            _ => {
                let mut message = interval.to_string();
                message.append(" interval is not supported by AlphaVantage");
                return Err(MarketError::UnsuportedInterval(message));
            },
        };
        self.push_request(
            YahooRequest {
                symbol: String::from_str(symbol),
                interval: String::from_str(code),
                range,
            },
        );
        Ok(())
    }

    /// Request for daily series
    pub fn daily_series(&mut self, symbol: &str, range: YahooRange)
        ensures
            final(self).asked(
                *old(self),
                YahooAsk { symbol: symbol@, interval: "1d"@, range },
                Interval::Daily,
            ),
    {
        self.interval.push(Interval::Daily);
        self.push_request(
            YahooRequest {
                symbol: String::from_str(symbol),
                interval: String::from_str("1d"),
                range,
            },
        );
    }

    /// Request for weekly series
    pub fn weekly_series(&mut self, symbol: &str, range: YahooRange)
        ensures
            final(self).asked(
                *old(self),
                YahooAsk { symbol: symbol@, interval: "1wk"@, range },
                Interval::Weekly,
            ),
    {
        self.interval.push(Interval::Weekly);
        self.push_request(
            YahooRequest {
                symbol: String::from_str(symbol),
                interval: String::from_str("1wk"),
                range,
            },
        );
    }

    /// Request for monthly series
    pub fn monthly_series(&mut self, symbol: &str, range: YahooRange)
        ensures
            final(self).asked(
                *old(self),
                YahooAsk { symbol: symbol@, interval: "1m"@, range },
                Interval::Monthly,
            ),
    {
        self.interval.push(Interval::Monthly);
        self.push_request(
            YahooRequest {
                symbol: String::from_str(symbol),
                interval: String::from_str("1m"),
                range,
            },
        );
    }

    /// Makes the endpoints of the requests and drops the requests. Where a
    /// request has no endpoint, that is the error and nothing changes.
    pub fn create_endpoint(&mut self) -> (r: MarketResult<()>)
        ensures
            final(self).responses() == old(self).responses(),
            final(self).intervals() == old(self).intervals(),
            ({
                let references = yahoo_references(old(self).asks());
                if first_unresolved(BASE_URL@, references, 0) == references.len() {
                    &&& r is Ok
                    &&& resolved(BASE_URL@, references, final(self).urls())
                    &&& final(self).asks().len() == 0
                } else {
                    &&& r is Err
                    &&& r->Err_0@ == Failure::UrlParseError
                    &&& final(self).urls() == old(self).urls()
                    &&& final(self).asks() == old(self).asks()
                }
            }),
    {
        let ghost wanted = yahoo_references(self.asks());
        let mut references: Vec<String> = Vec::with_capacity(self.requests.len());
        let mut i: usize = 0;
        while i < self.requests.len()
            invariant
                *self == *old(self),
                wanted == yahoo_references(self.asks()),
                wanted.len() == self.requests@.len(),
                i <= self.requests@.len(),
                references@.len() == i,
                forall|j: int| 0 <= j < i ==> references@[j]@ == wanted[j],
            decreases self.requests@.len() - i,
        {
            references.push(reference(&self.requests[i]));
            i += 1;
        }
        proof {
            assert(texts_of(references@) =~= wanted);
            lemma_first_unresolved(BASE_URL@, wanted, 0);
        }
        match resolve_all(BASE_URL, &references) {
            Ok(urls) => {
                self.endpoints = urls;
                self.requests.clear();
                Ok(())
            },
            Err(e) => Err(e),
        }
    }

    /// The endpoints that wait to be asked.
    pub fn endpoints(&self) -> (r: &Vec<String>)
        ensures
            texts_of(r@) == self.urls(),
    {
        &self.endpoints
    }

    /// The responses that wait to be transformed.
    pub fn data(&self) -> (r: &Vec<YahooPrices>)
        ensures
            r@ == self.responses(),
    {
        &self.data
    }

    /// Takes in the response of an endpoint.
    pub fn store(&mut self, prices: YahooPrices)
        ensures
            final(self).responses() == old(self).responses().push(prices),
            final(self).asks() == old(self).asks(),
            final(self).urls() == old(self).urls(),
            final(self).intervals() == old(self).intervals(),
    {
        self.data.push(prices);
    }

    /// Every endpoint has been asked: the endpoints are dropped.
    pub fn finish_download(&mut self)
        ensures
            final(self).urls().len() == 0,
            final(self).asks() == old(self).asks(),
            final(self).responses() == old(self).responses(),
            final(self).intervals() == old(self).intervals(),
    {
        self.endpoints.clear();
    }

    /// Turns the responses into series, each as the answer to the request
    /// whose interval was recorded at its position, and drops the responses.
    /// The recorded intervals stay.
    pub fn transform_data(&mut self) -> (r: Vec<MarketResult<MarketSeries>>)
        ensures
            outcomes_of(r@) == responses_outcomes(
                old(self).responses(),
                old(self).intervals(),
                old(self).responses().len() as int,
            ),
            final(self).responses().len() == 0,
            final(self).asks() == old(self).asks(),
            final(self).urls() == old(self).urls(),
            final(self).intervals() == old(self).intervals(),
    {
        let mut results: Vec<MarketResult<MarketSeries>> = Vec::new();
        assert(outcomes_of(results@) =~= Seq::empty());
        let mut i: usize = 0;
        while i < self.data.len()
            invariant
                *self == *old(self),
                i <= self.data@.len(),
                outcomes_of(results@) == responses_outcomes(self.data@, self.interval@, i as int),
            decreases self.data@.len() - i,
        {
            let ghost sofar = outcomes_of(results@);
            if i < self.interval.len() {
                let mut more = transform(&self.data[i], self.interval[i]);
                let ghost added = outcomes_of(more@);
                results.append(&mut more);
                assert(outcomes_of(results@) =~= sofar + added);
            } else {
                let error = MarketError::DownloadedData(
                    String::from_str("Response without a request"),
                );
                proof {
                    lemma_push_outcome(results@, Err(error));
                }
                results.push(Err(error));
                assert(outcomes_of(results@) =~= sofar + response_outcomes(
                    self.data@,
                    self.interval@,
                    i as int,
                ));
            }
            i += 1;
        }
        self.data.clear();
        results
    }
}

} // verus!

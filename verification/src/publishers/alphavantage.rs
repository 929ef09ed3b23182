//! AlphaVantage: intraday, daily, weekly and monthly series.

use crate::client::{interval_or_daily, Date, Interval, MarketSeries, MarketSeriesView, Series};
use crate::dates::{date_from, lemma_date_from, parsed_date};
use crate::decimal::{parse_volume, price_of_text, volume_of_text};
use crate::endpoint::{joined_url, resolve, texts_of};
use crate::errors::{Failure, MarketError, MarketResult};
use crate::fixed::Price;
use crate::publishers::{outcomes_of, unparsed};
use crate::sorting::{sort_by_date, sorted_by_date};
use crate::text::{lowercase_of, trim, trimmed};
use vstd::prelude::*;

verus! {

/// Where AlphaVantage answers.
pub const BASE_URL: &'static str = "https://www.alphavantage.co/";

/// The intervals of intraday series.
#[derive(Clone, Copy, Debug, PartialEq, Eq, Structural)]
pub enum AlphaInterval {
    Min1,
    Min5,
    Min15,
    Min30,
    Min60,
}

impl Default for AlphaInterval {
    fn default() -> (r: AlphaInterval)
        ensures
            r == AlphaInterval::Min60,
    {
        AlphaInterval::Min60
    }
}

/// The functions of the API.
#[derive(Clone, Copy, Debug, PartialEq, Eq, Structural)]
pub enum Function {
    TimeSeriesIntraday,
    TimeSeriesDaily,
    TimeSeriesDailyAdjusted,
    TimeSeriesWeekly,
    TimeSeriesWeeklyAdjusted,
    TimeSeriesMonthly,
    TimeSeriesMonthlyAdjusted,
}

impl Default for Function {
    fn default() -> (r: Function)
        ensures
            r == Function::TimeSeriesDaily,
    {
        Function::TimeSeriesDaily
    }
}

/// How much of a series is asked for.
#[derive(Clone, Copy, Debug, PartialEq, Eq, Structural)]
pub enum OutputSize {
    /// only the latest 100 data points
    Compact,
    /// the full-length series
    Full,
}

impl Default for OutputSize {
    fn default() -> (r: OutputSize)
        ensures
            r == OutputSize::Compact,
    {
        OutputSize::Compact
    }
}

/// The shape of the response to a function.
#[derive(Clone, Copy, Debug, PartialEq, Eq, Structural)]
pub enum Shape {
    Intraday,
    Daily,
    WeekMonth,
}

/// How a function is named in a query.
pub open spec fn function_name(function: Function) -> Seq<char> {
    match function {
        Function::TimeSeriesIntraday => "TIME_SERIES_INTRADAY"@,
        Function::TimeSeriesDaily => "TIME_SERIES_DAILY"@,
        Function::TimeSeriesDailyAdjusted => "TIME_SERIES_DAILY_ADJUSTED"@,
        Function::TimeSeriesWeekly => "TIME_SERIES_WEEKLY"@,
        Function::TimeSeriesWeeklyAdjusted => "TIME_SERIES_WEEKLY_ADJUSTED"@,
        Function::TimeSeriesMonthly => "TIME_SERIES_MONTHLY"@,
        Function::TimeSeriesMonthlyAdjusted => "TIME_SERIES_MONTHLY_ADJUSTED"@,
    }
}

/// How an output size is named in a query.
pub open spec fn output_size_name(size: OutputSize) -> Seq<char> {
    match size {
        OutputSize::Compact => "Compact"@,
        OutputSize::Full => "Full"@,
    }
}

/// How an intraday interval is named in a query.
pub open spec fn alpha_interval_name(interval: AlphaInterval) -> Seq<char> {
    match interval {
        AlphaInterval::Min1 => "1min"@,
        AlphaInterval::Min5 => "5min"@,
        AlphaInterval::Min15 => "15min"@,
        AlphaInterval::Min30 => "30min"@,
        AlphaInterval::Min60 => "60min"@,
    }
}

/// The shape of the response to a function.
pub open spec fn shape_of(function: Function) -> Shape {
    match function {
        Function::TimeSeriesIntraday => Shape::Intraday,
        Function::TimeSeriesDaily | Function::TimeSeriesDailyAdjusted => Shape::Daily,
        _ => Shape::WeekMonth,
    }
}

impl Function {
    /// The name of the function in a query.
    pub fn to_string(&self) -> (r: String)
        ensures
            r@ == function_name(*self),
    {
        match self {
            Function::TimeSeriesIntraday => String::from_str("TIME_SERIES_INTRADAY"),
            Function::TimeSeriesDaily => String::from_str("TIME_SERIES_DAILY"),
            Function::TimeSeriesDailyAdjusted => String::from_str("TIME_SERIES_DAILY_ADJUSTED"),
            Function::TimeSeriesWeekly => String::from_str("TIME_SERIES_WEEKLY"),
            Function::TimeSeriesWeeklyAdjusted => String::from_str("TIME_SERIES_WEEKLY_ADJUSTED"),
            Function::TimeSeriesMonthly => String::from_str("TIME_SERIES_MONTHLY"),
            Function::TimeSeriesMonthlyAdjusted => String::from_str(
                "TIME_SERIES_MONTHLY_ADJUSTED",
            ),
        }
    }

    /// The shape of the response to the function.
    pub fn shape(&self) -> (r: Shape)
        ensures
            r == shape_of(*self),
    {
        match self {
            Function::TimeSeriesIntraday => Shape::Intraday,
            Function::TimeSeriesDaily => Shape::Daily,
            Function::TimeSeriesDailyAdjusted => Shape::Daily,
            _ => Shape::WeekMonth,
        }
    }
}

impl OutputSize {
    /// The name of the output size in a query.
    pub fn to_string(&self) -> (r: String)
        ensures
            r@ == output_size_name(*self),
    {
        match self {
            OutputSize::Compact => String::from_str("Compact"),
            OutputSize::Full => String::from_str("Full"),
        }
    }
}

impl AlphaInterval {
    /// The name of the interval in a query.
    pub fn to_string(&self) -> (r: String)
        ensures
            r@ == alpha_interval_name(*self),
    {
        match self {
            AlphaInterval::Min1 => String::from_str("1min"),
            AlphaInterval::Min5 => String::from_str("5min"),
            AlphaInterval::Min15 => String::from_str("15min"),
            AlphaInterval::Min30 => String::from_str("30min"),
            AlphaInterval::Min60 => String::from_str("60min"),
        }
    }
}

/// A request to AlphaVantage.
#[derive(Debug)]
pub struct AVRequest {
    symbol: String,
    function: Function,
    interval: Option<AlphaInterval>,
    output_size: OutputSize,
}

/// A request to AlphaVantage as a value.
pub struct AVAsk {
    pub symbol: Seq<char>,
    pub function: Function,
    pub interval: Option<AlphaInterval>,
    pub output_size: OutputSize,
}

impl View for AVRequest {
    type V = AVAsk;

    closed spec fn view(&self) -> AVAsk {
        AVAsk {
            symbol: self.symbol@,
            function: self.function,
            interval: self.interval,
            output_size: self.output_size,
        }
    }
}

impl Default for AVRequest {
    fn default() -> (r: AVRequest)
        ensures
            r@ == (AVAsk {
                symbol: Seq::empty(),
                function: Function::TimeSeriesDaily,
                interval: None,
                output_size: OutputSize::Compact,
            }),
    {
        AVRequest {
            symbol: String::new(),
            function: Function::TimeSeriesDaily,
            interval: None,
            output_size: OutputSize::Compact,
        }
    }
}

impl AVRequest {
    /// The function that the request calls.
    pub fn function(&self) -> (r: Function)
        ensures
            r == self@.function,
    {
        self.function
    }
}

/// The reference, from the base, of the endpoint that answers a request.
/// An intraday request names its interval, the hourly one if it has none.
pub open spec fn av_reference(token: Seq<char>, request: AVAsk) -> Seq<char> {
    if request.function == Function::TimeSeriesIntraday {
        "query?function="@ + function_name(request.function) + "&symbol="@ + request.symbol
            + "&interval="@ + alpha_interval_name(
            match request.interval {
                Some(interval) => interval,
                None => AlphaInterval::Min60,
            },
        ) + "&outputsize="@ + output_size_name(request.output_size) + "&datatype=json&apikey="@
            + token
    } else {
        "query?function="@ + function_name(request.function) + "&symbol="@ + request.symbol
            + "&outputsize="@ + output_size_name(request.output_size) + "&datatype=json&apikey="@
            + token
    }
}

/// The endpoint that answers a request, if its reference makes a URL.
pub open spec fn av_endpoint(token: Seq<char>, request: AVAsk) -> Option<Seq<char>> {
    joined_url(BASE_URL@, av_reference(token, request))
}

/// The reference of a request, as text.
fn reference(token: &String, request: &AVRequest) -> (r: String)
    ensures
        r@ == av_reference(token@, request@),
{
    let mut out = String::from_str("query?function=");
    let name = request.function.to_string();
    out.append(name.as_str());
    out.append("&symbol=");
    out.append(request.symbol.as_str());
    match request.function {
        Function::TimeSeriesIntraday => {
            out.append("&interval=");
            let interval = match request.interval {
                Some(interval) => interval,
                None => AlphaInterval::Min60,
            };
            let interval_name = interval.to_string();
            out.append(interval_name.as_str());
        },
        _ => {},
    }
    out.append("&outputsize=");
    let size = request.output_size.to_string();
    out.append(size.as_str());
    out.append("&datatype=json&apikey=");
    out.append(token.as_str());
    out
}

/// One bar of a response, every number as the text that came.
#[derive(Debug)]
pub struct TimeSeriesData {
    pub open: String,
    pub high: String,
    pub low: String,
    pub close: String,
    pub volume: String,
}

/// What a response says about an intraday series.
#[derive(Debug)]
pub struct MetaIntraday {
    pub information: String,
    pub symbol: String,
    pub last_refreshed: String,
    pub interval: String,
    pub output_size: String,
    pub time_zone: String,
}

/// What a response says about a daily series.
#[derive(Debug)]
pub struct MetaDaily {
    pub information: String,
    pub symbol: String,
    pub last_refreshed: String,
    pub output_size: String,
    pub time_zone: String,
}

/// What a response says about a weekly or monthly series.
#[derive(Debug)]
pub struct MetaWeekMonth {
    pub information: String,
    pub symbol: String,
    pub last_refreshed: String,
    pub time_zone: String,
}

/// An intraday response: the bars by the text of their date, in the order
/// in which they came.
#[derive(Debug)]
pub struct AlphaIntradayPrices {
    pub meta_data: MetaIntraday,
    pub time_series: Vec<(String, TimeSeriesData)>,
}

/// A daily response.
#[derive(Debug)]
pub struct AlphaDailyPrices {
    pub meta_data: MetaDaily,
    pub time_series: Vec<(String, TimeSeriesData)>,
}

/// A weekly or monthly response.
#[derive(Debug)]
pub struct AlphaWMPrices {
    pub meta_data: MetaWeekMonth,
    pub time_series: Vec<(String, TimeSeriesData)>,
}

/// What becomes of one bar of a response under the text of its date: the
/// bar, or the first of its fields that cannot be read, in the order open,
/// close, high, low, volume, date.
pub open spec fn bar_outcome(date: Seq<char>, bar: TimeSeriesData) -> Result<Series, Failure> {
    if price_of_text(trimmed(bar.open@)) is None {
        Err(Failure::ParsingError("Unable to parse Open field: invalid decimal number"@))
    } else if price_of_text(trimmed(bar.close@)) is None {
        Err(Failure::ParsingError("Unable to parse Close field: invalid decimal number"@))
    } else if price_of_text(trimmed(bar.high@)) is None {
        Err(Failure::ParsingError("Unable to parse High field: invalid decimal number"@))
    } else if price_of_text(trimmed(bar.low@)) is None {
        Err(Failure::ParsingError("Unable to parse Low field: invalid decimal number"@))
    } else if volume_of_text(trimmed(bar.volume@)) is None {
        Err(Failure::ParsingError("Unable to parse Volume field: invalid decimal number"@))
    } else {
        match parsed_date(date, "%Y-%m-%d"@) {
            Err(message) => Err(
                Failure::ParsingError("Unable to parse Volume field: "@ + message),
            ),
            Ok(numbers) => Ok(
                Series {
                    date: date_from(numbers),
                    open: Price::of_ticks(price_of_text(trimmed(bar.open@))->Some_0),
                    close: Price::of_ticks(price_of_text(trimmed(bar.close@))->Some_0),
                    high: Price::of_ticks(price_of_text(trimmed(bar.high@))->Some_0),
                    low: Price::of_ticks(price_of_text(trimmed(bar.low@))->Some_0),
                    volume: volume_of_text(trimmed(bar.volume@))->Some_0 as i64,
                },
            ),
        }
    }
}

/// The bar of a response under the text of its date, or the first of its
/// fields that cannot be read.
pub fn transform(date: &String, bar: &TimeSeriesData) -> (r: MarketResult<Series>)
    ensures
        match bar_outcome(date@, *bar) {
            Ok(series) => r == Ok::<Series, MarketError>(series),
            Err(failure) => r is Err && r->Err_0@ == failure,
        },
{
    let open = match Price::parse(trim(bar.open.as_str())) {
        Some(price) => price,
        None => {
            return Err(unparsed("Unable to parse Open field: invalid decimal number"));
        },
    };
    let close = match Price::parse(trim(bar.close.as_str())) {
        Some(price) => price,
        None => {
            return Err(unparsed("Unable to parse Close field: invalid decimal number"));
        },
    };
    let high = match Price::parse(trim(bar.high.as_str())) {
        Some(price) => price,
        None => {
            return Err(unparsed("Unable to parse High field: invalid decimal number"));
        },
    };
    let low = match Price::parse(trim(bar.low.as_str())) {
        Some(price) => price,
        None => {
            return Err(unparsed("Unable to parse Low field: invalid decimal number"));
        },
    };
    let volume = match parse_volume(trim(bar.volume.as_str())) {
        Some(volume) => volume,
        None => {
            return Err(unparsed("Unable to parse Volume field: invalid decimal number"));
        },
    };
    let day = match Date::parse(date.as_str(), "%Y-%m-%d") {
        Ok(day) => day,
        Err(message) => {
            let mut text = String::from_str("Unable to parse Volume field: ");
            text.append(message.as_str());
            return Err(MarketError::ParsingError(text));
        },
    };
    proof {
        lemma_date_from(day, parsed_date(date@, "%Y-%m-%d"@)->Ok_0);
    }
    Ok(Series { date: day, open, close, high, low, volume })
}

/// The first position from `from` on whose bar cannot be read, or the
/// number of bars if every one can.
pub open spec fn first_unread(bars: Seq<(String, TimeSeriesData)>, from: int) -> int
    decreases bars.len() - from,
{
    if from >= bars.len() {
        bars.len() as int
    } else if bar_outcome(bars[from].0@, bars[from].1) is Err {
        from
    } else {
        first_unread(bars, from + 1)
    }
}

/// The bars of a response that come before the first that cannot be read.
pub open spec fn read_bars(bars: Seq<(String, TimeSeriesData)>) -> Seq<Series> {
    Seq::new(
        first_unread(bars, 0) as nat,
        |i: int| bar_outcome(bars[i].0@, bars[i].1)->Ok_0,
    )
}

/// What becomes of the bars of one response: where a bar cannot be read,
/// its failure; then, in either case, a series of the bars before it, in
/// order of date.
#[verifier::opaque]
pub open spec fn series_outcomes(
    symbol: Seq<char>,
    interval: Interval,
    bars: Seq<(String, TimeSeriesData)>,
) -> Seq<Result<MarketSeriesView, Failure>> {
    let unread = first_unread(bars, 0);
    let series = Ok::<MarketSeriesView, Failure>(
        MarketSeriesView { symbol, interval, data: sorted_by_date(read_bars(bars)) },
    );
    if unread < bars.len() {
        seq![
            Err::<MarketSeriesView, Failure>(bar_outcome(bars[unread].0@, bars[unread].1)->Err_0),
            series,
        ]
    } else {
        seq![series]
    }
}

/// Appends to `results` what becomes of the bars of one response.
fn transform_series(
    results: &mut Vec<MarketResult<MarketSeries>>,
    symbol: &String,
    interval: Interval,
    bars: &Vec<(String, TimeSeriesData)>,
)
    ensures
        outcomes_of(final(results)@) == outcomes_of(old(results)@) + series_outcomes(
            symbol@,
            interval,
            bars@,
        ),
{
    reveal(series_outcomes);
    let ghost before = outcomes_of(results@);
    let mut read: Vec<Series> = Vec::with_capacity(bars.len());
    let mut i: usize = 0;
    let mut failed: bool = false;
    while i < bars.len() && !failed
        invariant
            i <= bars@.len(),
            first_unread(bars@, 0) == first_unread(bars@, i as int),
            !failed ==> read@.len() == i,
            !failed ==> outcomes_of(results@) == before,
            forall|j: int|
                0 <= j < read@.len() ==> read@[j] == bar_outcome(bars@[j].0@, bars@[j].1)->Ok_0,
            failed ==> i < bars@.len() && first_unread(bars@, 0) == i && read@.len() == i
                && outcomes_of(results@) == before.push(
                Err::<MarketSeriesView, Failure>(bar_outcome(bars@[i as int].0@, bars@[i as int].1)->Err_0),
            ),
        decreases bars@.len() - i + (if failed { 0int } else { 1int }),
    {
        match transform(&bars[i].0, &bars[i].1) {
            Ok(series) => {
                read.push(series);
                i += 1;
            },
            Err(e) => {
                proof {
                    assert(outcomes_of(results@.push(Err(e))) =~= before.push(
                        Err::<MarketSeriesView, Failure>(e@),
                    ));
                }
                results.push(Err(e));
                failed = true;
            },
        }
    }
    assert(read@ =~= read_bars(bars@));
    let ghost sofar = results@;
    let series = MarketSeries { symbol: symbol.clone(), interval, data: sort_by_date(read) };
    results.push(Ok(series));
    proof {
        assert(outcomes_of(results@) =~= outcomes_of(sofar).push(
            Ok::<MarketSeriesView, Failure>(series@),
        ));
        assert(outcomes_of(results@) =~= before + series_outcomes(symbol@, interval, bars@));
    }
}

} // verus!

verus! {

/// Fetches time series from AlphaVantage: collects requests, makes their
/// endpoints, holds the responses and turns them into series.
#[derive(Debug)]
pub struct AlphaVantage {
    token: String,
    requests: Vec<AVRequest>,
    endpoints: Vec<String>,
    data_intraday: Vec<AlphaIntradayPrices>,
    data_daily: Vec<AlphaDailyPrices>,
    data_wm: Vec<AlphaWMPrices>,
}

/// The requests of a list as values.
pub open spec fn asks_of(requests: Seq<AVRequest>) -> Seq<AVAsk> {
    Seq::new(requests.len(), |i: int| requests[i]@)
}

/// The first position from `from` on whose request has no endpoint, or the
/// number of requests if every one has.
pub open spec fn first_without_endpoint(token: Seq<char>, requests: Seq<AVAsk>, from: int) -> int
    decreases requests.len() - from,
{
    if from >= requests.len() {
        requests.len() as int
    } else if av_endpoint(token, requests[from]) is None {
        from
    } else {
        first_without_endpoint(token, requests, from + 1)
    }
}

/// What becomes of one intraday response: the interval is the one that the
/// response names, or the daily one where it names none that is known.
#[verifier::opaque]
pub open spec fn intraday_outcome(prices: AlphaIntradayPrices) -> Seq<
    Result<MarketSeriesView, Failure>,
> {
    series_outcomes(
        prices.meta_data.symbol@,
        interval_or_daily(lowercase_of(prices.meta_data.interval@)),
        prices.time_series@,
    )
}

/// What becomes of the intraday responses up to `upto`, one after the other.
pub open spec fn intraday_outcomes(data: Seq<AlphaIntradayPrices>, upto: int) -> Seq<
    Result<MarketSeriesView, Failure>,
>
    decreases upto,
{
    if upto <= 0 {
        Seq::empty()
    } else {
        intraday_outcomes(data, upto - 1) + intraday_outcome(data[upto - 1])
    }
}

/// What becomes of the daily responses up to `upto`, one after the other.
pub open spec fn daily_outcomes(data: Seq<AlphaDailyPrices>, upto: int) -> Seq<
    Result<MarketSeriesView, Failure>,
>
    decreases upto,
{
    if upto <= 0 {
        Seq::empty()
    } else {
        daily_outcomes(data, upto - 1) + series_outcomes(
            data[upto - 1].meta_data.symbol@,
            Interval::Daily,
            data[upto - 1].time_series@,
        )
    }
}

/// What becomes of the weekly and monthly responses up to `upto`, one after
/// the other. The responses do not say which of the two they are; their
/// series count as daily.
pub open spec fn wm_outcomes(data: Seq<AlphaWMPrices>, upto: int) -> Seq<
    Result<MarketSeriesView, Failure>,
>
    decreases upto,
{
    if upto <= 0 {
        Seq::empty()
    } else {
        wm_outcomes(data, upto - 1) + series_outcomes(
            data[upto - 1].meta_data.symbol@,
            Interval::Daily,
            data[upto - 1].time_series@,
        )
    }
}

impl AlphaVantage {
    /// The token that requests are made with.
    pub closed spec fn token(&self) -> Seq<char> {
        self.token@
    }

    /// The requests that wait for their endpoints or their responses.
    pub closed spec fn asks(&self) -> Seq<AVAsk> {
        asks_of(self.requests@)
    }

    /// The endpoints that wait to be asked.
    pub closed spec fn urls(&self) -> Seq<Seq<char>> {
        texts_of(self.endpoints@)
    }

    /// The intraday responses that wait to be transformed.
    pub closed spec fn intraday(&self) -> Seq<AlphaIntradayPrices> {
        self.data_intraday@
    }

    /// The daily responses that wait to be transformed.
    pub closed spec fn daily(&self) -> Seq<AlphaDailyPrices> {
        self.data_daily@
    }

    /// The weekly and monthly responses that wait to be transformed.
    pub closed spec fn week_month(&self) -> Seq<AlphaWMPrices> {
        self.data_wm@
    }

    /// create new instance of AlphaVantage
    pub fn new(token: String) -> (r: Self)
        ensures
            r.token() == token@,
            r.asks().len() == 0,
            r.urls().len() == 0,
            r.intraday().len() == 0,
            r.daily().len() == 0,
            r.week_month().len() == 0,
    {
        AlphaVantage {
            token,
            requests: Vec::new(),
            endpoints: Vec::new(),
            data_intraday: Vec::new(),
            data_daily: Vec::new(),
            data_wm: Vec::new(),
        }
    }

    /// Whether only the requests have changed, by one more at the end.
    pub open spec fn asked(&self, before: AlphaVantage, ask: AVAsk) -> bool {
        &&& self.asks() == before.asks().push(ask)
        &&& self.token() == before.token()
        &&& self.urls() == before.urls()
        &&& self.intraday() == before.intraday()
        &&& self.daily() == before.daily()
        &&& self.week_month() == before.week_month()
    }

    fn push_request(&mut self, request: AVRequest)
        ensures
            final(self).asked(*old(self), request@),
    {
        self.requests.push(request);
        assert(asks_of(self.requests@) =~= asks_of(old(self).requests@).push(request@));
    }

    /// Request for intraday series
    pub fn intraday_series(&mut self, symbol: String, output_size: OutputSize, interval: AlphaInterval)
        ensures
            final(self).asked(
                *old(self),
                AVAsk {
                    symbol: symbol@,
                    function: Function::TimeSeriesIntraday,
                    interval: Some(interval),
                    output_size,
                },
            ),
    {
        self.push_request(
            AVRequest {
                symbol,
                function: Function::TimeSeriesIntraday,
                interval: Some(interval),
                output_size,
            },
        );
    }

    /// Request for daily series
    pub fn daily_series(&mut self, symbol: String, output_size: OutputSize)
        ensures
            final(self).asked(
                *old(self),
                AVAsk {
                    symbol: symbol@,
                    function: Function::TimeSeriesDaily,
                    interval: None,
                    output_size,
                },
            ),
    {
        self.push_request(
            AVRequest { symbol, function: Function::TimeSeriesDaily, interval: None, output_size },
        );
    }

    /// Request for weekly series
    pub fn weekly_series(&mut self, symbol: String, output_size: OutputSize)
        ensures
            final(self).asked(
                *old(self),
                AVAsk {
                    symbol: symbol@,
                    function: Function::TimeSeriesWeekly,
                    interval: None,
                    output_size,
                },
            ),
    {
        self.push_request(
            AVRequest { symbol, function: Function::TimeSeriesWeekly, interval: None, output_size },
        );
    }

    /// Request for monthly series
    pub fn monthly_series(&mut self, symbol: String, output_size: OutputSize)
        ensures
            final(self).asked(
                *old(self),
                AVAsk {
                    symbol: symbol@,
                    function: Function::TimeSeriesMonthly,
                    interval: None,
                    output_size,
                },
            ),
    {
        self.push_request(
            AVRequest { symbol, function: Function::TimeSeriesMonthly, interval: None, output_size },
        );
    }

    /// Makes the endpoints of the requests, which stay. Where a request has
    /// none, that is the error and nothing changes.
    pub fn create_endpoint(&mut self) -> (r: MarketResult<()>)
        ensures
            final(self).token() == old(self).token(),
            final(self).asks() == old(self).asks(),
            final(self).intraday() == old(self).intraday(),
            final(self).daily() == old(self).daily(),
            final(self).week_month() == old(self).week_month(),
            first_without_endpoint(old(self).token(), old(self).asks(), 0) == old(self).asks().len()
                ==> r is Ok && final(self).urls().len() == old(self).asks().len() && forall|i: int|
                0 <= i < old(self).asks().len() ==> av_endpoint(
                    old(self).token(),
                    old(self).asks()[i],
                ) == Some(#[trigger] final(self).urls()[i]),
            first_without_endpoint(old(self).token(), old(self).asks(), 0) < old(self).asks().len()
                ==> r is Err && r->Err_0@ == Failure::UrlParseError && final(self).urls() == old(
                self,
            ).urls(),
    {
        let ghost token = self.token();
        let ghost asks = self.asks();
        let mut made: Vec<String> = Vec::with_capacity(self.requests.len());
        let mut i: usize = 0;
        while i < self.requests.len()
            invariant
                *self == *old(self),
                token == self.token(),
                asks == self.asks(),
                asks.len() == self.requests@.len(),
                i <= self.requests@.len(),
                made@.len() == i,
                first_without_endpoint(token, asks, 0) == first_without_endpoint(
                    token,
                    asks,
                    i as int,
                ),
                forall|j: int| 0 <= j < i ==> av_endpoint(token, asks[j]) == Some(made@[j]@),
            decreases self.requests@.len() - i,
        {
            let reference = reference(&self.token, &self.requests[i]);
            assert(asks[i as int] == self.requests@[i as int]@);
            match resolve(BASE_URL, reference.as_str()) {
                Ok(url) => {
                    made.push(url);
                },
                Err(e) => {
                    assert(first_without_endpoint(token, asks, i as int) == i);
                    return Err(e);
                },
            }
            i += 1;
        }
        self.endpoints = made;
        Ok(())
    }

    /// The endpoints that wait to be asked, in the order of the requests.
    pub fn endpoints(&self) -> (r: &Vec<String>)
        ensures
            texts_of(r@) == self.urls(),
    {
        &self.endpoints
    }

    /// The shape of the response to the request at position `i`, if there
    /// is a request at that position.
    pub fn expected(&self, i: usize) -> (r: Option<Shape>)
        ensures
            r == (if i < self.asks().len() {
                Some(shape_of(self.asks()[i as int].function))
            } else {
                None
            }),
    {
        if i < self.requests.len() {
            Some(self.requests[i].function.shape())
        } else {
            None
        }
    }

    /// Whether token, requests and endpoints are those of `before`.
    pub open spec fn same_but_data(&self, before: AlphaVantage) -> bool {
        &&& self.token() == before.token()
        &&& self.asks() == before.asks()
        &&& self.urls() == before.urls()
    }

    /// Takes in an intraday response.
    pub fn store_intraday(&mut self, prices: AlphaIntradayPrices)
        ensures
            final(self).same_but_data(*old(self)),
            final(self).intraday() == old(self).intraday().push(prices),
            final(self).daily() == old(self).daily(),
            final(self).week_month() == old(self).week_month(),
    {
        self.data_intraday.push(prices);
    }

    /// Takes in a daily response.
    pub fn store_daily(&mut self, prices: AlphaDailyPrices)
        ensures
            final(self).same_but_data(*old(self)),
            final(self).intraday() == old(self).intraday(),
            final(self).daily() == old(self).daily().push(prices),
            final(self).week_month() == old(self).week_month(),
    {
        self.data_daily.push(prices);
    }

    /// Takes in a weekly or monthly response.
    pub fn store_week_month(&mut self, prices: AlphaWMPrices)
        ensures
            final(self).same_but_data(*old(self)),
            final(self).intraday() == old(self).intraday(),
            final(self).daily() == old(self).daily(),
            final(self).week_month() == old(self).week_month().push(prices),
    {
        self.data_wm.push(prices);
    }

    /// The daily responses that wait to be transformed.
    pub fn daily_data(&self) -> (r: &Vec<AlphaDailyPrices>)
        ensures
            r@ == self.daily(),
    {
        &self.data_daily
    }

    /// Every endpoint has been asked: requests and endpoints are dropped,
    /// the responses stay.
    pub fn finish_download(&mut self)
        ensures
            final(self).token() == old(self).token(),
            final(self).asks().len() == 0,
            final(self).urls().len() == 0,
            final(self).intraday() == old(self).intraday(),
            final(self).daily() == old(self).daily(),
            final(self).week_month() == old(self).week_month(),
    {
        self.requests.clear();
        self.endpoints.clear();
    }

    /// Turns the responses into series: first the intraday ones, then the
    /// daily, then the weekly and monthly. The responses are dropped.
    pub fn transform_data(&mut self) -> (r: Vec<MarketResult<MarketSeries>>)
        ensures
            outcomes_of(r@) == intraday_outcomes(
                old(self).intraday(),
                old(self).intraday().len() as int,
            ) + daily_outcomes(old(self).daily(), old(self).daily().len() as int) + wm_outcomes(
                old(self).week_month(),
                old(self).week_month().len() as int,
            ),
            final(self).same_but_data(*old(self)),
            final(self).intraday().len() == 0,
            final(self).daily().len() == 0,
            final(self).week_month().len() == 0,
    {
        let mut results: Vec<MarketResult<MarketSeries>> = Vec::new();
        assert(outcomes_of(results@) =~= Seq::empty());
        transform_intraday(&mut results, &self.data_intraday);
        assert(outcomes_of(results@) =~= intraday_outcomes(
            self.data_intraday@,
            self.data_intraday@.len() as int,
        ));
        transform_daily(&mut results, &self.data_daily);
        transform_week_month(&mut results, &self.data_wm);
        self.data_daily.clear();
        self.data_intraday.clear();
        self.data_wm.clear();
        results
    }
}

/// Appends to `results` what becomes of one intraday response.
fn transform_one_intraday(results: &mut Vec<MarketResult<MarketSeries>>, prices: &AlphaIntradayPrices)
    ensures
        outcomes_of(final(results)@) == outcomes_of(old(results)@) + intraday_outcome(*prices),
{
    reveal(intraday_outcome);
    let interval = Interval::from_text(prices.meta_data.interval.as_str());
    transform_series(results, &prices.meta_data.symbol, interval, &prices.time_series);
}

/// Appends to `results` what becomes of intraday responses.
fn transform_intraday(
    results: &mut Vec<MarketResult<MarketSeries>>,
    data: &Vec<AlphaIntradayPrices>,
)
    ensures
        outcomes_of(final(results)@) == outcomes_of(old(results)@) + intraday_outcomes(
            data@,
            data@.len() as int,
        ),
{
    let ghost before = outcomes_of(results@);
    let mut i: usize = 0;
    assert(before + intraday_outcomes(data@, 0) =~= before);
    while i < data.len()
        invariant
            i <= data@.len(),
            outcomes_of(results@) == before + intraday_outcomes(data@, i as int),
        decreases data@.len() - i,
    {
        let ghost sofar = intraday_outcomes(data@, i as int);
        transform_one_intraday(results, &data[i]);
        proof {
            lemma_concat(before, sofar, intraday_outcome(data@[i as int]));
        }
        i += 1;
    }
}

/// Appends to `results` what becomes of daily responses.
fn transform_daily(results: &mut Vec<MarketResult<MarketSeries>>, data: &Vec<AlphaDailyPrices>)
    ensures
        outcomes_of(final(results)@) == outcomes_of(old(results)@) + daily_outcomes(
            data@,
            data@.len() as int,
        ),
{
    let ghost before = outcomes_of(results@);
    let mut i: usize = 0;
    assert(before + daily_outcomes(data@, 0) =~= before);
    while i < data.len()
        invariant
            i <= data@.len(),
            outcomes_of(results@) == before + daily_outcomes(data@, i as int),
        decreases data@.len() - i,
    {
        let prices = &data[i];
        let ghost sofar = daily_outcomes(data@, i as int);
        transform_series(results, &prices.meta_data.symbol, Interval::Daily, &prices.time_series);
        proof {
            lemma_concat(
                before,
                sofar,
                series_outcomes(prices.meta_data.symbol@, Interval::Daily, prices.time_series@),
            );
        }
        i += 1;
    }
}

/// Appends to `results` what becomes of weekly and monthly responses.
fn transform_week_month(results: &mut Vec<MarketResult<MarketSeries>>, data: &Vec<AlphaWMPrices>)
    ensures
        outcomes_of(final(results)@) == outcomes_of(old(results)@) + wm_outcomes(
            data@,
            data@.len() as int,
        ),
{
    let ghost before = outcomes_of(results@);
    let mut i: usize = 0;
    assert(before + wm_outcomes(data@, 0) =~= before);
    while i < data.len()
        invariant
            i <= data@.len(),
            outcomes_of(results@) == before + wm_outcomes(data@, i as int),
        decreases data@.len() - i,
    {
        let prices = &data[i];
        let ghost sofar = wm_outcomes(data@, i as int);
        transform_series(results, &prices.meta_data.symbol, Interval::Daily, &prices.time_series);
        proof {
            lemma_concat(
                before,
                sofar,
                series_outcomes(prices.meta_data.symbol@, Interval::Daily, prices.time_series@),
            );
        }
        i += 1;
    }
}

/// Appending two lists one after the other appends their concatenation.
proof fn lemma_concat(
    a: Seq<Result<MarketSeriesView, Failure>>,
    b: Seq<Result<MarketSeriesView, Failure>>,
    c: Seq<Result<MarketSeriesView, Failure>>,
)
    ensures
        (a + b) + c == a + (b + c),
{
    assert((a + b) + c =~= a + (b + c));
}

} // verus!

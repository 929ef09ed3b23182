//! The common representation of a price series.

use crate::fixed::{in_price_range, Price};
use crate::indicators::{Ask, EnhancedMarketSeries, Indicators};
use crate::text::{
    lemma_append_twice, lowercase, lowercase_of, padded2, padded4, push_padded2, push_padded4,
    push_ticks, same_text, ticks_text,
};
use vstd::prelude::*;
use vstd::std_specs::convert::FromSpecImpl;

verus! {

/// A calendar date.
#[derive(Clone, Copy, Debug, PartialEq, Eq, Structural)]
pub struct Date {
    pub year: i32,
    pub month: u32,
    pub day: u32,
}

/// One bar: the prices and the volume of one interval.
#[derive(Clone, Copy, Debug)]
pub struct Series {
    /// the date of the bar
    pub date: Date,
    /// the opening price
    pub open: Price,
    /// the closing price
    pub close: Price,
    /// the highest price
    pub high: Price,
    /// the lowest price
    pub low: Price,
    /// the number of shares traded, in ticks; no indicator reads it, so it has no limit
    pub volume: i64,
}

/// The closing prices of `series`, in ticks.
pub open spec fn closes(series: Seq<Series>) -> Seq<int> {
    Seq::new(series.len(), |i: int| series[i].close@)
}

/// The highest prices of `series`, in ticks.
pub open spec fn highs(series: Seq<Series>) -> Seq<int> {
    Seq::new(series.len(), |i: int| series[i].high@)
}

/// The lowest prices of `series`, in ticks.
pub open spec fn lows(series: Seq<Series>) -> Seq<int> {
    Seq::new(series.len(), |i: int| series[i].low@)
}

/// The integers that `v` holds.
pub open spec fn ints(v: Seq<i64>) -> Seq<int> {
    Seq::new(v.len(), |i: int| v[i] as int)
}

/// Whether every element of `v` is a magnitude that a price may have.
pub open spec fn all_in_price_range(v: Seq<int>) -> bool {
    forall|i: int| 0 <= i < v.len() ==> in_price_range(#[trigger] v[i])
}

/// The closing prices of `series` as plain ticks.
pub fn close_ticks(series: &[Series]) -> (r: Vec<i64>)
    ensures
        ints(r@) == closes(series@),
        all_in_price_range(ints(r@)),
{
    let mut out: Vec<i64> = Vec::with_capacity(series.len());
    let mut i: usize = 0;
    while i < series.len()
        invariant
            i <= series.len(),
            out.len() == i,
            forall|j: int| 0 <= j < i ==> out[j] as int == series[j].close@,
            forall|j: int| 0 <= j < i ==> in_price_range(#[trigger] out[j] as int),
        decreases series.len() - i,
    {
        out.push(series[i].close.ticks());
        i += 1;
    }
    assert(ints(out@) =~= closes(series@));
    out
}

/// The highest prices of `series` as plain ticks.
pub fn high_ticks(series: &[Series]) -> (r: Vec<i64>)
    ensures
        ints(r@) == highs(series@),
        all_in_price_range(ints(r@)),
{
    let mut out: Vec<i64> = Vec::with_capacity(series.len());
    let mut i: usize = 0;
    while i < series.len()
        invariant
            i <= series.len(),
            out.len() == i,
            forall|j: int| 0 <= j < i ==> out[j] as int == series[j].high@,
            forall|j: int| 0 <= j < i ==> in_price_range(#[trigger] out[j] as int),
        decreases series.len() - i,
    {
        out.push(series[i].high.ticks());
        i += 1;
    }
    assert(ints(out@) =~= highs(series@));
    out
}

/// The lowest prices of `series` as plain ticks.
pub fn low_ticks(series: &[Series]) -> (r: Vec<i64>)
    ensures
        ints(r@) == lows(series@),
        all_in_price_range(ints(r@)),
{
    let mut out: Vec<i64> = Vec::with_capacity(series.len());
    let mut i: usize = 0;
    while i < series.len()
        invariant
            i <= series.len(),
            out.len() == i,
            forall|j: int| 0 <= j < i ==> out[j] as int == series[j].low@,
            forall|j: int| 0 <= j < i ==> in_price_range(#[trigger] out[j] as int),
        decreases series.len() - i,
    {
        out.push(series[i].low.ticks());
        i += 1;
    }
    assert(ints(out@) =~= lows(series@));
    out
}

} // verus!

verus! {

/// The time interval between two bars.
#[derive(Clone, Copy, Debug, PartialEq, Eq, Structural)]
pub enum Interval {
    /// 1 minute interval
    Min1,
    /// 5 minutes interval
    Min5,
    /// 15 minutes interval
    Min15,
    /// 30 minutes interval
    Min30,
    /// 1 hour interval
    Hour1,
    /// 2 hours interval
    Hour2,
    /// 4 hours interval
    Hour4,
    /// daily interval
    Daily,
    /// weekly interval
    Weekly,
    /// monthly interval
    Monthly,
}

impl Default for Interval {
    fn default() -> (r: Interval)
        ensures
            r == Interval::Daily,
    {
        Interval::Daily
    }
}

/// How an interval is written out.
pub open spec fn interval_name(interval: Interval) -> Seq<char> {
    match interval {
        Interval::Min1 => "1 minute"@,
        Interval::Min5 => "5 minutes"@,
        Interval::Min15 => "15 minutes"@,
        Interval::Min30 => "30 minutes"@,
        Interval::Hour1 => "1 hour"@,
        Interval::Hour2 => "2 hours"@,
        Interval::Hour4 => "4 hours"@,
        Interval::Daily => "Daily"@,
        Interval::Weekly => "Weekly"@,
        Interval::Monthly => "Monthly"@,
    }
}

/// The interval that a lower-case code stands for: the codes of the
/// providers' responses, `60min` and `1h` both meaning one hour.
pub open spec fn interval_of_code(code: Seq<char>) -> Option<Interval> {
    if code == "1min"@ {
        Some(Interval::Min1)
    } else if code == "5min"@ {
        Some(Interval::Min5)
    } else if code == "15min"@ {
        Some(Interval::Min15)
    } else if code == "30min"@ {
        Some(Interval::Min30)
    } else if code == "60min"@ {
        Some(Interval::Hour1)
    } else if code == "1h"@ {
        Some(Interval::Hour1)
    } else if code == "2h"@ {
        Some(Interval::Hour2)
    } else if code == "4h"@ {
        Some(Interval::Hour4)
    } else if code == "1day"@ {
        Some(Interval::Daily)
    } else if code == "1week"@ {
        Some(Interval::Weekly)
    } else if code == "1month"@ {
        Some(Interval::Monthly)
    } else {
        None
    }
}

impl Interval {
    /// The interval written out, as in `"5 minutes"` or `"Daily"`.
    pub fn to_string(&self) -> (r: String)
        ensures
            r@ == interval_name(*self),
    {
        let name: &str = match self {
            Interval::Min1 => "1 minute",
            Interval::Min5 => "5 minutes",
            Interval::Min15 => "15 minutes",
            Interval::Min30 => "30 minutes",
            Interval::Hour1 => "1 hour",
            Interval::Hour2 => "2 hours",
            Interval::Hour4 => "4 hours",
            Interval::Daily => "Daily",
            Interval::Weekly => "Weekly",
            Interval::Monthly => "Monthly",
        };
        String::from_str(name)
    }

    /// The interval that a code in lower case stands for.
    pub fn from_code(code: &str) -> (r: Result<Interval, &'static str>)
        ensures
            match interval_of_code(code@) {
                Some(interval) => r == Ok::<Interval, &'static str>(interval),
                None => r is Err && r->Err_0@ == "Invalid interval string"@,
            },
    {
        if same_text(code, "1min") {
            Ok(Interval::Min1)
        } else if same_text(code, "5min") {
            Ok(Interval::Min5)
        } else if same_text(code, "15min") {
            Ok(Interval::Min15)
        } else if same_text(code, "30min") {
            Ok(Interval::Min30)
        } else if same_text(code, "60min") {
            Ok(Interval::Hour1)
        } else if same_text(code, "1h") {
            Ok(Interval::Hour1)
        } else if same_text(code, "2h") {
            Ok(Interval::Hour2)
        } else if same_text(code, "4h") {
            Ok(Interval::Hour4)
        } else if same_text(code, "1day") {
            Ok(Interval::Daily)
        } else if same_text(code, "1week") {
            Ok(Interval::Weekly)
        } else if same_text(code, "1month") {
            Ok(Interval::Monthly)
        } else {
            Err("Invalid interval string")
        }
    }

    /// The interval that a code stands for, whatever the case of its letters.
    pub fn from_str(s: &str) -> (r: Result<Interval, &'static str>)
        ensures
            match interval_of_code(lowercase_of(s@)) {
                Some(interval) => r == Ok::<Interval, &'static str>(interval),
                None => r is Err && r->Err_0@ == "Invalid interval string"@,
            },
    {
        let code = lowercase(s);
        Interval::from_code(code.as_str())
    }
}

/// The interval that a code in lower case stands for, and the daily one for
/// any other text.
pub open spec fn interval_or_daily(code: Seq<char>) -> Interval {
    match interval_of_code(code) {
        Some(interval) => interval,
        None => Interval::Daily,
    }
}

impl Interval {
    /// The interval that a code stands for, whatever the case of its
    /// letters, and the daily one for any other text.
    pub fn from_text(s: &str) -> (r: Interval)
        ensures
            r == interval_or_daily(lowercase_of(s@)),
    {
        match Interval::from_str(s) {
            Ok(interval) => interval,
            Err(_) => Interval::Daily,
        }
    }
}

impl From<String> for Interval {
    /// The interval that a code stands for, and the daily one for any other text.
    fn from(s: String) -> (r: Interval) {
        Interval::from_text(s.as_str())
    }
}

impl FromSpecImpl<String> for Interval {
    open spec fn obeys_from_spec() -> bool {
        true
    }

    open spec fn from_spec(s: String) -> Interval {
        interval_or_daily(lowercase_of(s@))
    }
}

} // verus!

verus! {

/// A year as a date writes it: four digits from 0 to 9999, and a sign and at
/// least four digits for any other.
pub open spec fn year_text(year: int) -> Seq<char> {
    if 0 <= year <= 9999 {
        padded4(year as nat)
    } else if year < 0 {
        seq!['-'] + padded4((-year) as nat)
    } else {
        seq!['+'] + padded4(year as nat)
    }
}

/// A date written out, as in `2024-01-31`.
pub open spec fn date_text(date: Date) -> Seq<char> {
    year_text(date.year as int) + seq!['-'] + padded2(date.month as nat) + seq!['-'] + padded2(
        date.day as nat,
    )
}

/// Whether `a` is an earlier date than `b`.
pub open spec fn date_before(a: Date, b: Date) -> bool {
    a.year < b.year || (a.year == b.year && (a.month < b.month || (a.month == b.month && a.day
        < b.day)))
}

/// Appends a date, written out, to `out`.
pub fn push_date(out: &mut String, date: &Date)
    ensures
        final(out)@ == old(out)@ + date_text(*date),
{
    if date.year < 0 {
        out.push('-');
        push_padded4(out, (-(date.year as i64)) as u128);
    } else if date.year > 9999 {
        out.push('+');
        push_padded4(out, date.year as u128);
    } else {
        push_padded4(out, date.year as u128);
    }
    out.push('-');
    push_padded2(out, date.month as u128);
    out.push('-');
    push_padded2(out, date.day as u128);
    assert(final(out)@ =~= old(out)@ + date_text(*date));
}

impl Date {
    /// The date written out, as in `2024-01-31`.
    pub fn to_string(&self) -> (r: String)
        ensures
            r@ == date_text(*self),
    {
        let mut out = String::new();
        push_date(&mut out, self);
        assert(out@ =~= date_text(*self));
        out
    }

    /// Whether this is an earlier date than `other`.
    pub fn is_before(&self, other: &Date) -> (r: bool)
        ensures
            r == date_before(*self, *other),
    {
        self.year < other.year || (self.year == other.year && (self.month < other.month || (
        self.month == other.month && self.day < other.day)))
    }
}

/// One bar written out on a line.
pub open spec fn series_text(bar: Series) -> Seq<char> {
    "Date: "@ + date_text(bar.date) + ", Open: "@ + ticks_text(bar.open@) + ", Close: "@
        + ticks_text(bar.close@) + ", High: "@ + ticks_text(bar.high@) + ", Low: "@ + ticks_text(
        bar.low@,
    ) + ", Volume: "@ + ticks_text(bar.volume as int)
}

/// Appends one bar, written out, to `out`.
pub fn push_series(out: &mut String, bar: &Series)
    ensures
        final(out)@ == old(out)@ + series_text(*bar),
{
    let ghost start = out@;
    out.append("Date: ");
    let ghost t1 = "Date: "@;
    push_date(out, &bar.date);
    let ghost t2 = t1 + date_text(bar.date);
    proof {
        lemma_append_twice(start, t1, date_text(bar.date));
    }
    out.append(", Open: ");
    let ghost t3 = t2 + ", Open: "@;
    proof {
        lemma_append_twice(start, t2, ", Open: "@);
    }
    push_ticks(out, bar.open.ticks());
    let ghost t4 = t3 + ticks_text(bar.open@);
    proof {
        lemma_append_twice(start, t3, ticks_text(bar.open@));
    }
    out.append(", Close: ");
    let ghost t5 = t4 + ", Close: "@;
    proof {
        lemma_append_twice(start, t4, ", Close: "@);
    }
    push_ticks(out, bar.close.ticks());
    let ghost t6 = t5 + ticks_text(bar.close@);
    proof {
        lemma_append_twice(start, t5, ticks_text(bar.close@));
    }
    out.append(", High: ");
    let ghost t7 = t6 + ", High: "@;
    proof {
        lemma_append_twice(start, t6, ", High: "@);
    }
    push_ticks(out, bar.high.ticks());
    let ghost t8 = t7 + ticks_text(bar.high@);
    proof {
        lemma_append_twice(start, t7, ticks_text(bar.high@));
    }
    out.append(", Low: ");
    let ghost t9 = t8 + ", Low: "@;
    proof {
        lemma_append_twice(start, t8, ", Low: "@);
    }
    push_ticks(out, bar.low.ticks());
    let ghost t10 = t9 + ticks_text(bar.low@);
    proof {
        lemma_append_twice(start, t9, ticks_text(bar.low@));
    }
    out.append(", Volume: ");
    let ghost t11 = t10 + ", Volume: "@;
    proof {
        lemma_append_twice(start, t10, ", Volume: "@);
    }
    push_ticks(out, bar.volume);
    proof {
        lemma_append_twice(start, t11, ticks_text(bar.volume as int));
    }
}

impl Series {
    /// The bar written out on a line, every price with its four decimal places.
    pub fn to_string(&self) -> (r: String)
        ensures
            r@ == series_text(*self),
    {
        let mut out = String::new();
        push_series(&mut out, self);
        assert(out@ =~= series_text(*self));
        out
    }
}

/// A price series in the common representation.
#[derive(Debug)]
pub struct MarketSeries {
    /// holds symbol like: "GOOGL"
    pub symbol: String,
    /// interval from intraday to monthly
    pub interval: Interval,
    /// the bars, in ascending order of date
    pub data: Vec<Series>,
}

/// The first `upto` bars, each on a line of its own behind two spaces, with
/// a line break between one and the next.
pub open spec fn series_lines(data: Seq<Series>, upto: int) -> Seq<char>
    decreases upto,
{
    if upto <= 0 {
        Seq::empty()
    } else if upto == 1 {
        "  "@ + series_text(data[0])
    } else {
        series_lines(data, upto - 1) + "\n"@ + "  "@ + series_text(data[upto - 1])
    }
}

/// A series written out: a heading, then the bars line by line.
pub open spec fn market_series_text(series: MarketSeries) -> Seq<char> {
    "MarketSeries: Symbol = "@ + series.symbol@ + ", Interval = "@ + interval_name(
        series.interval,
    ) + ", Series =\n"@ + series_lines(series.data@, series.data@.len() as int)
}

impl MarketSeries {
    /// The series ready to have indicators requested: no request made and
    /// nothing computed yet.
    pub fn enhance_data(self) -> (r: EnhancedMarketSeries)
        ensures
            r.symbol == self.symbol,
            r.interval == self.interval,
            r.series == self.data,
            r.asks@ == Seq::<Ask>::empty(),
            r.indicators.is_empty(),
    {
        EnhancedMarketSeries {
            symbol: self.symbol,
            interval: self.interval,
            series: self.data,
            asks: Vec::new(),
            indicators: Indicators::new(),
        }
    }

    /// The series written out: a heading, then the bars line by line.
    pub fn to_string(&self) -> (r: String)
        ensures
            r@ == market_series_text(*self),
    {
        let mut out = String::from_str("MarketSeries: Symbol = ");
        out.append(self.symbol.as_str());
        out.append(", Interval = ");
        let name = self.interval.to_string();
        out.append(name.as_str());
        out.append(", Series =\n");
        let ghost head = out@;
        let mut i: usize = 0;
        while i < self.data.len()
            invariant
                i <= self.data@.len(),
                out@ == head + series_lines(self.data@, i as int),
            decreases self.data@.len() - i,
        {
            if i > 0 {
                out.append("\n");
            }
            out.append("  ");
            push_series(&mut out, &self.data[i]);
            assert(out@ =~= head + series_lines(self.data@, i + 1));
            i += 1;
        }
        out
    }
}

} // verus!

verus! {

/// A series as a value.
pub struct MarketSeriesView {
    pub symbol: Seq<char>,
    pub interval: Interval,
    pub data: Seq<Series>,
}

impl View for MarketSeries {
    type V = MarketSeriesView;

    open spec fn view(&self) -> MarketSeriesView {
        MarketSeriesView { symbol: self.symbol@, interval: self.interval, data: self.data@ }
    }
}

} // verus!

//! A series and its indicators written out as a table, one line for each bar.

use crate::client::{date_text, interval_name, push_date, Series};
use crate::indicators::table::LabelMap;
use crate::indicators::{ask_text, push_ask, Ask, Bands, EnhancedMarketSeries};
use crate::text::{cents_text, lemma_append_twice, push_cents};
use std::collections::VecDeque;
use vstd::prelude::*;

verus! {

/// What one line contributes to the bar at position `i`: its label and its
/// value there, or nothing where the line does not reach that far.
pub open spec fn line_entry_text(label: Seq<char>, values: Seq<i64>, i: int) -> Seq<char> {
    if i < values.len() {
        label + ": "@ + cents_text(values[i] as int) + ", "@
    } else {
        Seq::empty()
    }
}

/// What three lines under one label contribute to the bar at position `i`:
/// the label and the three values there, or nothing where any of the lines
/// does not reach that far.
pub open spec fn band_entry_text(
    label: Seq<char>,
    first: Seq<i64>,
    second: Seq<i64>,
    third: Seq<i64>,
    i: int,
) -> Seq<char> {
    if i < first.len() && i < second.len() && i < third.len() {
        label + ": "@ + cents_text(first[i] as int) + ", "@ + cents_text(second[i] as int) + ", "@
            + cents_text(third[i] as int) + ", "@
    } else {
        Seq::empty()
    }
}

/// What the first `upto` labels of a table of lines contribute to bar `i`.
pub open spec fn lines_text(table: LabelMap<VecDeque<i64>>, i: int, upto: int) -> Seq<char>
    decreases upto,
{
    if upto <= 0 {
        Seq::empty()
    } else {
        lines_text(table, i, upto - 1) + line_entry_text(
            table.labels()[upto - 1],
            table@[table.labels()[upto - 1]]@,
            i,
        )
    }
}

/// What the first `upto` labels of a table of bands contribute to bar `i`.
pub open spec fn bands_text(table: LabelMap<Bands>, i: int, upto: int) -> Seq<char>
    decreases upto,
{
    if upto <= 0 {
        Seq::empty()
    } else {
        bands_text(table, i, upto - 1) + band_entry_text(
            table.labels()[upto - 1],
            table@[table.labels()[upto - 1]].0@,
            table@[table.labels()[upto - 1]].1@,
            table@[table.labels()[upto - 1]].2@,
            i,
        )
    }
}

/// The prices and the volume of a bar, each rounded to two decimal places.
pub open spec fn prices_text(bar: Series) -> Seq<char> {
    "Date: "@ + date_text(bar.date) + ", Open: "@ + cents_text(bar.open@) + ", Close: "@
        + cents_text(bar.close@) + ", High: "@ + cents_text(bar.high@) + ", Low: "@ + cents_text(
        bar.low@,
    ) + ", Volume: "@ + cents_text(bar.volume as int) + ", "@
}

/// The line of the bar at position `i`: its prices, then every indicator's
/// value at that position, table by table and label by label; a comma and a
/// line break behind every bar but the last.
#[verifier::opaque]
pub open spec fn bar_text(e: EnhancedMarketSeries, i: int) -> Seq<char> {
    prices_text(e.series@[i]) + lines_text(
        e.indicators.sma,
        i,
        e.indicators.sma.labels().len() as int,
    ) + lines_text(e.indicators.ema, i, e.indicators.ema.labels().len() as int) + lines_text(
        e.indicators.rsi,
        i,
        e.indicators.rsi.labels().len() as int,
    ) + lines_text(e.indicators.stochastic, i, e.indicators.stochastic.labels().len() as int)
        + bands_text(e.indicators.macd, i, e.indicators.macd.labels().len() as int) + bands_text(
        e.indicators.bb,
        i,
        e.indicators.bb.labels().len() as int,
    ) + (if i < e.series@.len() - 1 {
        ",\n"@
    } else {
        Seq::empty()
    })
}

/// The lines of the first `upto` bars.
pub open spec fn bars_text(e: EnhancedMarketSeries, upto: int) -> Seq<char>
    decreases upto,
{
    if upto <= 0 {
        Seq::empty()
    } else {
        bars_text(e, upto - 1) + bar_text(e, upto - 1)
    }
}

/// The first `upto` requests, with a comma and a space between one and the next.
pub open spec fn asks_text(asks: Seq<Ask>, upto: int) -> Seq<char>
    decreases upto,
{
    if upto <= 0 {
        Seq::empty()
    } else if upto == 1 {
        ask_text(asks[0])
    } else {
        asks_text(asks, upto - 1) + ", "@ + ask_text(asks[upto - 1])
    }
}

/// The heading of the table: symbol, interval and the list of requests.
pub open spec fn heading_text(e: EnhancedMarketSeries) -> Seq<char> {
    "EnhancedMarketSerie: Symbol = "@ + e.symbol@ + ", Interval = "@ + interval_name(e.interval)
        + ",  Requested Indicators: ["@ + asks_text(e.asks@, e.asks@.len() as int)
        + "], Series: \n"@
}

/// The whole table: the heading, then the bars line by line.
pub open spec fn report_text(e: EnhancedMarketSeries) -> Seq<char> {
    heading_text(e) + bars_text(e, e.series@.len() as int)
}

/// Appends what one line contributes to bar `i`.
fn push_line_entry(out: &mut String, label: &String, values: &VecDeque<i64>, i: usize)
    ensures
        final(out)@ == old(out)@ + line_entry_text(label@, values@, i as int),
{
    if i < values.len() {
        let mut entry = label.clone();
        entry.append(": ");
        push_cents(&mut entry, values[i]);
        entry.append(", ");
        out.append(entry.as_str());
    } else {
        assert(old(out)@ + Seq::<char>::empty() =~= old(out)@);
    }
}

/// Appends what three lines under one label contribute to bar `i`.
fn push_band_entry(out: &mut String, label: &String, value: &Bands, i: usize)
    ensures
        final(out)@ == old(out)@ + band_entry_text(
            label@,
            value.0@,
            value.1@,
            value.2@,
            i as int,
        ),
{
    if i < value.0.len() && i < value.1.len() && i < value.2.len() {
        let mut entry = label.clone();
        entry.append(": ");
        push_cents(&mut entry, value.0[i]);
        entry.append(", ");
        push_cents(&mut entry, value.1[i]);
        entry.append(", ");
        push_cents(&mut entry, value.2[i]);
        entry.append(", ");
        out.append(entry.as_str());
    } else {
        assert(old(out)@ + Seq::<char>::empty() =~= old(out)@);
    }
}

/// Appends what a table of lines contributes to bar `i`.
fn push_lines(out: &mut String, table: &LabelMap<VecDeque<i64>>, i: usize)
    ensures
        final(out)@ == old(out)@ + lines_text(*table, i as int, table.labels().len() as int),
{
    let ghost head = out@;
    let mut k: usize = 0;
    assert(head + lines_text(*table, i as int, 0) =~= head);
    while k < table.len()
        invariant
            k <= table.labels().len(),
            out@ == head + lines_text(*table, i as int, k as int),
        decreases table.labels().len() - k,
    {
        let ghost sofar = lines_text(*table, i as int, k as int);
        let label = table.label_at(k);
        let values = table.value_at(k);
        push_line_entry(out, label, values, i);
        proof {
            lemma_append_twice(head, sofar, line_entry_text(label@, values@, i as int));
        }
        k += 1;
    }
}

/// Appends what a table of bands contributes to bar `i`.
fn push_bands(out: &mut String, table: &LabelMap<Bands>, i: usize)
    ensures
        final(out)@ == old(out)@ + bands_text(*table, i as int, table.labels().len() as int),
{
    let ghost head = out@;
    let mut k: usize = 0;
    assert(head + bands_text(*table, i as int, 0) =~= head);
    while k < table.len()
        invariant
            k <= table.labels().len(),
            out@ == head + bands_text(*table, i as int, k as int),
        decreases table.labels().len() - k,
    {
        let ghost sofar = bands_text(*table, i as int, k as int);
        let label = table.label_at(k);
        let value = table.value_at(k);
        push_band_entry(out, label, value, i);
        proof {
            lemma_append_twice(
                head,
                sofar,
                band_entry_text(label@, value.0@, value.1@, value.2@, i as int),
            );
        }
        k += 1;
    }
}

/// Appends the prices and the volume of a bar.
fn push_prices(out: &mut String, bar: &Series)
    ensures
        final(out)@ == old(out)@ + prices_text(*bar),
{
    let ghost start = out@;
    out.append("Date: ");
    let ghost t1 = "Date: "@;
    push_date(out, &bar.date);
    let ghost t2 = t1 + date_text(bar.date);
    proof {
        lemma_append_twice(start, t1, date_text(bar.date));
    }
    out.append(", Open: ");
    let ghost t3 = t2 + ", Open: "@;
    proof {
        lemma_append_twice(start, t2, ", Open: "@);
    }
    push_cents(out, bar.open.ticks());
    let ghost t4 = t3 + cents_text(bar.open@);
    proof {
        lemma_append_twice(start, t3, cents_text(bar.open@));
    }
    out.append(", Close: ");
    let ghost t5 = t4 + ", Close: "@;
    proof {
        lemma_append_twice(start, t4, ", Close: "@);
    }
    push_cents(out, bar.close.ticks());
    let ghost t6 = t5 + cents_text(bar.close@);
    proof {
        lemma_append_twice(start, t5, cents_text(bar.close@));
    }
    out.append(", High: ");
    let ghost t7 = t6 + ", High: "@;
    proof {
        lemma_append_twice(start, t6, ", High: "@);
    }
    push_cents(out, bar.high.ticks());
    let ghost t8 = t7 + cents_text(bar.high@);
    proof {
        lemma_append_twice(start, t7, cents_text(bar.high@));
    }
    out.append(", Low: ");
    let ghost t9 = t8 + ", Low: "@;
    proof {
        lemma_append_twice(start, t8, ", Low: "@);
    }
    push_cents(out, bar.low.ticks());
    let ghost t10 = t9 + cents_text(bar.low@);
    proof {
        lemma_append_twice(start, t9, cents_text(bar.low@));
    }
    out.append(", Volume: ");
    let ghost t11 = t10 + ", Volume: "@;
    proof {
        lemma_append_twice(start, t10, ", Volume: "@);
    }
    push_cents(out, bar.volume);
    let ghost t12 = t11 + cents_text(bar.volume as int);
    proof {
        lemma_append_twice(start, t11, cents_text(bar.volume as int));
    }
    out.append(", ");
    proof {
        lemma_append_twice(start, t12, ", "@);
    }
}

/// Appends the line of the bar at position `i`.
fn push_bar(out: &mut String, e: &EnhancedMarketSeries, i: usize)
    requires
        i < e.series@.len(),
    ensures
        final(out)@ == old(out)@ + bar_text(*e, i as int),
{
    reveal(bar_text);
    let ghost start = out@;
    let ghost at = i as int;
    push_prices(out, &e.series[i]);
    let ghost t1 = prices_text(e.series@[at]);
    push_lines(out, &e.indicators.sma, i);
    let ghost p2 = lines_text(e.indicators.sma, at, e.indicators.sma.labels().len() as int);
    let ghost t2 = t1 + p2;
    proof {
        lemma_append_twice(start, t1, p2);
    }
    push_lines(out, &e.indicators.ema, i);
    let ghost p3 = lines_text(e.indicators.ema, at, e.indicators.ema.labels().len() as int);
    let ghost t3 = t2 + p3;
    proof {
        lemma_append_twice(start, t2, p3);
    }
    push_lines(out, &e.indicators.rsi, i);
    let ghost p4 = lines_text(e.indicators.rsi, at, e.indicators.rsi.labels().len() as int);
    let ghost t4 = t3 + p4;
    proof {
        lemma_append_twice(start, t3, p4);
    }
    push_lines(out, &e.indicators.stochastic, i);
    let ghost p5 = lines_text(
        e.indicators.stochastic,
        at,
        e.indicators.stochastic.labels().len() as int,
    );
    let ghost t5 = t4 + p5;
    proof {
        lemma_append_twice(start, t4, p5);
    }
    push_bands(out, &e.indicators.macd, i);
    let ghost p6 = bands_text(e.indicators.macd, at, e.indicators.macd.labels().len() as int);
    let ghost t6 = t5 + p6;
    proof {
        lemma_append_twice(start, t5, p6);
    }
    push_bands(out, &e.indicators.bb, i);
    let ghost p7 = bands_text(e.indicators.bb, at, e.indicators.bb.labels().len() as int);
    let ghost t7 = t6 + p7;
    proof {
        lemma_append_twice(start, t6, p7);
    }
    assert(out@ == start + t7);
    if i < e.series.len() - 1 {
        out.append(",\n");
        proof {
            lemma_append_twice(start, t7, ",\n"@);
        }
    } else {
        assert(t7 + Seq::<char>::empty() =~= t7);
    }
}

/// Appends the list of requests.
fn push_asks(out: &mut String, asks: &Vec<Ask>)
    ensures
        final(out)@ == old(out)@ + asks_text(asks@, asks@.len() as int),
{
    let ghost head = out@;
    let mut k: usize = 0;
    while k < asks.len()
        invariant
            k <= asks@.len(),
            out@ == head + asks_text(asks@, k as int),
        decreases asks@.len() - k,
    {
        if k > 0 {
            out.append(", ");
        }
        push_ask(out, &asks[k]);
        assert(out@ =~= head + asks_text(asks@, k + 1));
        k += 1;
    }
}

/// The heading of the table.
fn heading(e: &EnhancedMarketSeries) -> (r: String)
    ensures
        r@ == heading_text(*e),
{
    let mut out = String::from_str("EnhancedMarketSerie: Symbol = ");
    out.append(e.symbol.as_str());
    out.append(", Interval = ");
    let name = e.interval.to_string();
    out.append(name.as_str());
    out.append(",  Requested Indicators: [");
    push_asks(&mut out, &e.asks);
    out.append("], Series: \n");
    out
}

impl EnhancedMarketSeries {
    /// The series and its indicators written out as a table: a heading with
    /// symbol, interval and requests, then one line for each bar with its
    /// prices and, label by label, the value of every indicator at that bar.
    /// Every number is rounded to two decimal places.
    pub fn to_string(&self) -> (r: String)
        ensures
            r@ == report_text(*self),
    {
        let mut out = heading(self);
        let ghost head = out@;
        let mut i: usize = 0;
        assert(head + bars_text(*self, 0) =~= head);
        while i < self.series.len()
            invariant
                i <= self.series@.len(),
                out@ == head + bars_text(*self, i as int),
            decreases self.series@.len() - i,
        {
            let ghost sofar = bars_text(*self, i as int);
            push_bar(&mut out, self, i);
            proof {
                lemma_append_twice(head, sofar, bar_text(*self, i as int));
            }
            i += 1;
        }
        out
    }
}

} // verus!

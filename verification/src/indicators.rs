//! Technical indicators over a price series, and the requests for them.

pub mod bollinger;
pub mod ema;
pub mod labels;
pub mod laws;
pub mod macd;
pub mod report;
pub mod rsi;
pub mod sma;
pub mod stochastic;
pub mod table;

use crate::client::{closes, highs, ints, lows, Interval, Series};
use crate::indicators::bollinger::{
    bollinger_defined, bollinger_lower, bollinger_middle, bollinger_upper,
    calculate_bollinger_bands, BB_MAX_MULTIPLIER,
};
use crate::indicators::ema::{calculate_ema, ema_values};
use crate::indicators::macd::{
    calculate_macd, macd_defined, macd_histogram, macd_line, macd_signal,
};
use crate::indicators::rsi::{calculate_rsi, rsi_values};
use crate::indicators::sma::{calculate_sma, sma_values};
use crate::indicators::stochastic::{calculate_stochastic, stochastic_values};
use crate::indicators::table::LabelMap;
use crate::text::{decimal, lemma_append_twice, push_decimal};
use std::collections::VecDeque;
use vstd::prelude::*;

verus! {

/// A request for one indicator, with its parameters.
#[derive(Clone, Copy, Debug, PartialEq, Eq, Structural)]
pub enum Ask {
    /// simple moving average over a period
    SMA(usize),
    /// exponential moving average over a period
    EMA(usize),
    /// relative strength index over a period
    RSI(usize),
    /// stochastic oscillator over a period
    Stochastic(usize),
    /// moving average convergence/divergence: fast, slow and signal period
    MACD(usize, usize, usize),
    /// Bollinger bands: period and multiplier of the standard deviation
    BB(usize, usize),
}

/// Three lines that belong together: MACD, signal and histogram, or upper,
/// middle and lower band.
pub type Bands = (VecDeque<i64>, VecDeque<i64>, VecDeque<i64>);

/// Two numbers as a label lists them: `a, b)`.
pub open spec fn pair_text(a: nat, b: nat) -> Seq<char> {
    decimal(a) + (seq![',', ' '] + (decimal(b) + seq![')']))
}

/// Three numbers as a label lists them: `a, b, c)`.
pub open spec fn triple_text(a: nat, b: nat, c: nat) -> Seq<char> {
    decimal(a) + (seq![',', ' '] + pair_text(b, c))
}

/// The label under which the result of `ask` is stored.
pub open spec fn label_of(ask: Ask) -> Seq<char> {
    match ask {
        Ask::SMA(period) => seq!['S', 'M', 'A', ' '] + decimal(period as nat),
        Ask::EMA(period) => seq!['E', 'M', 'A', ' '] + decimal(period as nat),
        Ask::RSI(period) => seq!['R', 'S', 'I', ' '] + decimal(period as nat),
        Ask::Stochastic(period) => seq!['S', 'T', 'O', ' '] + decimal(period as nat),
        Ask::MACD(fast, slow, signal) => seq!['M', 'A', 'C', 'D', ' ', '('] + triple_text(
            fast as nat,
            slow as nat,
            signal as nat,
        ),
        Ask::BB(period, std_dev) => seq!['B', 'B', ' ', '('] + pair_text(
            period as nat,
            std_dev as nat,
        ),
    }
}

/// How `ask` is written out in a list of requests.
pub open spec fn ask_text(ask: Ask) -> Seq<char> {
    match ask {
        Ask::SMA(period) => seq!['S', 'M', 'A', '('] + decimal(period as nat) + seq![')'],
        Ask::EMA(period) => seq!['E', 'M', 'A', '('] + decimal(period as nat) + seq![')'],
        Ask::RSI(period) => seq!['R', 'S', 'I', '('] + decimal(period as nat) + seq![')'],
        Ask::Stochastic(period) => seq!['S', 'T', 'O', '('] + decimal(period as nat) + seq![')'],
        Ask::MACD(fast, slow, signal) => seq!['M', 'A', 'C', 'D', '('] + triple_text(
            fast as nat,
            slow as nat,
            signal as nat,
        ),
        Ask::BB(period, std_dev) => seq!['B', 'B', '('] + pair_text(period as nat, std_dev as nat),
    }
}

impl Ask {
    /// The label under which the result of this request is stored, as in
    /// `"SMA 10"` or `"MACD (12, 26, 9)"`.
    pub fn label(&self) -> (r: String)
        ensures
            r@ == label_of(*self),
    {
        match *self {
            Ask::SMA(period) => {
                let mut out = String::from_str("SMA ");
                proof {
                    reveal_strlit("SMA ");
                    assert(out@ =~= seq!['S', 'M', 'A', ' ']);
                }
                push_decimal(&mut out, period as u128);
                out
            },
            Ask::EMA(period) => {
                let mut out = String::from_str("EMA ");
                proof {
                    reveal_strlit("EMA ");
                    assert(out@ =~= seq!['E', 'M', 'A', ' ']);
                }
                push_decimal(&mut out, period as u128);
                out
            },
            Ask::RSI(period) => {
                let mut out = String::from_str("RSI ");
                proof {
                    reveal_strlit("RSI ");
                    assert(out@ =~= seq!['R', 'S', 'I', ' ']);
                }
                push_decimal(&mut out, period as u128);
                out
            },
            Ask::Stochastic(period) => {
                let mut out = String::from_str("STO ");
                proof {
                    reveal_strlit("STO ");
                    assert(out@ =~= seq!['S', 'T', 'O', ' ']);
                }
                push_decimal(&mut out, period as u128);
                out
            },
            Ask::MACD(fast, slow, signal) => {
                let mut out = String::from_str("MACD (");
                proof {
                    reveal_strlit("MACD (");
                    assert(out@ =~= seq!['M', 'A', 'C', 'D', ' ', '(']);
                }
                push_triple(&mut out, fast, slow, signal);
                out
            },
            Ask::BB(period, std_dev) => {
                let mut out = String::from_str("BB (");
                proof {
                    reveal_strlit("BB (");
                    assert(out@ =~= seq!['B', 'B', ' ', '(']);
                }
                push_pair(&mut out, period, std_dev);
                out
            },
        }
    }

    /// The request written out, as in `"SMA(10)"` or `"MACD(12, 26, 9)"`.
    pub fn to_string(&self) -> (r: String)
        ensures
            r@ == ask_text(*self),
    {
        let mut out = String::new();
        push_ask(&mut out, self);
        assert(out@ =~= ask_text(*self));
        out
    }
}

/// Appends a list of two numbers as a label lists them.
fn push_pair(out: &mut String, a: usize, b: usize)
    ensures
        final(out)@ == old(out)@ + pair_text(a as nat, b as nat),
{
    proof {
        reveal_strlit(", ");
        reveal_strlit(")");
        assert(", "@ =~= seq![',', ' ']);
        assert(")"@ =~= seq![')']);
    }
    push_decimal(out, a as u128);
    out.append(", ");
    push_decimal(out, b as u128);
    out.append(")");
    assert(final(out)@ =~= old(out)@ + pair_text(a as nat, b as nat));
}

/// Appends a list of three numbers as a label lists them.
fn push_triple(out: &mut String, a: usize, b: usize, c: usize)
    ensures
        final(out)@ == old(out)@ + triple_text(a as nat, b as nat, c as nat),
{
    proof {
        reveal_strlit(", ");
        assert(", "@ =~= seq![',', ' ']);
    }
    push_decimal(out, a as u128);
    out.append(", ");
    push_pair(out, b, c);
    assert(final(out)@ =~= old(out)@ + triple_text(a as nat, b as nat, c as nat));
}

/// Appends a number between the opening of a request and a closing bracket.
fn push_call(out: &mut String, opening: &str, period: usize)
    ensures
        final(out)@ == old(out)@ + (opening@ + decimal(period as nat) + seq![')']),
{
    proof {
        reveal_strlit(")");
        assert(")"@ =~= seq![')']);
    }
    out.append(opening);
    push_decimal(out, period as u128);
    out.append(")");
    assert(final(out)@ =~= old(out)@ + (opening@ + decimal(period as nat) + seq![')']));
}

/// Appends `ask`, written out, to `out`.
pub fn push_ask(out: &mut String, ask: &Ask)
    ensures
        final(out)@ == old(out)@ + ask_text(*ask),
{
    match *ask {
        Ask::SMA(period) => {
            proof {
                reveal_strlit("SMA(");
                assert("SMA("@ =~= seq!['S', 'M', 'A', '(']);
            }
            push_call(out, "SMA(", period);
        },
        Ask::EMA(period) => {
            proof {
                reveal_strlit("EMA(");
                assert("EMA("@ =~= seq!['E', 'M', 'A', '(']);
            }
            push_call(out, "EMA(", period);
        },
        Ask::RSI(period) => {
            proof {
                reveal_strlit("RSI(");
                assert("RSI("@ =~= seq!['R', 'S', 'I', '(']);
            }
            push_call(out, "RSI(", period);
        },
        Ask::Stochastic(period) => {
            proof {
                reveal_strlit("STO(");
                assert("STO("@ =~= seq!['S', 'T', 'O', '(']);
            }
            push_call(out, "STO(", period);
        },
        Ask::MACD(fast, slow, signal) => {
            proof {
                reveal_strlit("MACD(");
                assert("MACD("@ =~= seq!['M', 'A', 'C', 'D', '(']);
            }
            out.append("MACD(");
            push_triple(out, fast, slow, signal);
            proof {
                lemma_append_twice(
                    old(out)@,
                    "MACD("@,
                    triple_text(fast as nat, slow as nat, signal as nat),
                );
            }
        },
        Ask::BB(period, std_dev) => {
            proof {
                reveal_strlit("BB(");
                assert("BB("@ =~= seq!['B', 'B', '(']);
            }
            out.append("BB(");
            push_pair(out, period, std_dev);
            proof {
                lemma_append_twice(old(out)@, "BB("@, pair_text(period as nat, std_dev as nat));
            }
        },
    }
}

} // verus!

verus! {

/// The computed indicators, one table for each kind.
#[derive(Debug)]
pub struct Indicators {
    /// Simple Moving Average
    pub sma: LabelMap<VecDeque<i64>>,
    /// Exponential Moving Average
    pub ema: LabelMap<VecDeque<i64>>,
    /// Relative Strength Index
    pub rsi: LabelMap<VecDeque<i64>>,
    /// Stochastic Oscillator
    pub stochastic: LabelMap<VecDeque<i64>>,
    /// Moving average convergence/divergence: MACD line, signal line, histogram
    pub macd: LabelMap<Bands>,
    /// Bollinger bands: upper, middle, lower
    pub bb: LabelMap<Bands>,
}

impl Indicators {
    /// No indicator computed yet.
    pub fn new() -> (r: Indicators)
        ensures
            r.is_empty(),
    {
        Indicators {
            sma: LabelMap::new(),
            ema: LabelMap::new(),
            rsi: LabelMap::new(),
            stochastic: LabelMap::new(),
            macd: LabelMap::new(),
            bb: LabelMap::new(),
        }
    }

    /// Whether every table is empty.
    pub open spec fn is_empty(&self) -> bool {
        &&& self.sma@ == Map::<Seq<char>, VecDeque<i64>>::empty()
        &&& self.ema@ == Map::<Seq<char>, VecDeque<i64>>::empty()
        &&& self.rsi@ == Map::<Seq<char>, VecDeque<i64>>::empty()
        &&& self.stochastic@ == Map::<Seq<char>, VecDeque<i64>>::empty()
        &&& self.macd@ == Map::<Seq<char>, Bands>::empty()
        &&& self.bb@ == Map::<Seq<char>, Bands>::empty()
        &&& self.sma.labels() == Seq::<Seq<char>>::empty()
        &&& self.ema.labels() == Seq::<Seq<char>>::empty()
        &&& self.rsi.labels() == Seq::<Seq<char>>::empty()
        &&& self.stochastic.labels() == Seq::<Seq<char>>::empty()
        &&& self.macd.labels() == Seq::<Seq<char>>::empty()
        &&& self.bb.labels() == Seq::<Seq<char>>::empty()
    }
}

impl Default for Indicators {
    fn default() -> (r: Indicators)
        ensures
            r.is_empty(),
    {
        Indicators::new()
    }
}

/// Whether the indicator that `ask` requests can be computed in 64 bits:
/// an exponential moving average needs a positive period, and Bollinger
/// bands a multiplier of at most `BB_MAX_MULTIPLIER`. Any other request can.
pub open spec fn computable(ask: Ask) -> bool {
    match ask {
        Ask::EMA(period) => period >= 1,
        Ask::BB(_, std_dev) => std_dev <= BB_MAX_MULTIPLIER,
        _ => true,
    }
}

/// Whether every one of `asks` can be computed.
pub open spec fn all_computable(asks: Seq<Ask>) -> bool {
    forall|i: int| 0 <= i < asks.len() ==> computable(#[trigger] asks[i])
}

impl Ask {
    /// Whether the indicator that this request asks for can be computed.
    pub fn is_computable(&self) -> (r: bool)
        ensures
            r == computable(*self),
    {
        match *self {
            Ask::EMA(period) => period >= 1,
            Ask::BB(_, std_dev) => std_dev <= BB_MAX_MULTIPLIER,
            _ => true,
        }
    }
}

/// The kinds of indicator, each with a table of its own.
pub enum Kind {
    Sma,
    Ema,
    Rsi,
    Stochastic,
    Macd,
    Bb,
}

/// The kind of indicator that `ask` requests.
pub open spec fn kind_of(ask: Ask) -> Kind {
    match ask {
        Ask::SMA(_) => Kind::Sma,
        Ask::EMA(_) => Kind::Ema,
        Ask::RSI(_) => Kind::Rsi,
        Ask::Stochastic(_) => Kind::Stochastic,
        Ask::MACD(_, _, _) => Kind::Macd,
        Ask::BB(_, _) => Kind::Bb,
    }
}

/// The line that `ask` computes from `series`, for the kinds with one line.
pub open spec fn line_of(series: Seq<Series>, ask: Ask) -> Seq<int> {
    match ask {
        Ask::SMA(period) => sma_values(closes(series), period as nat),
        Ask::EMA(period) => ema_values(closes(series), period as nat),
        Ask::RSI(period) => rsi_values(closes(series), period as nat),
        Ask::Stochastic(period) => stochastic_values(
            closes(series),
            highs(series),
            lows(series),
            period as nat,
        ),
        _ => Seq::empty(),
    }
}

/// The three lines that `ask` computes from `series`, for the kinds with
/// three: all empty where the indicator is not defined.
pub open spec fn bands_of(series: Seq<Series>, ask: Ask) -> (Seq<int>, Seq<int>, Seq<int>) {
    match ask {
        Ask::MACD(fast, slow, signal) => if macd_defined(
            series.len(),
            fast as nat,
            slow as nat,
            signal as nat,
        ) {
            (
                macd_line(closes(series), fast as nat, slow as nat),
                macd_signal(closes(series), fast as nat, slow as nat, signal as nat),
                macd_histogram(closes(series), fast as nat, slow as nat, signal as nat),
            )
        } else {
            (Seq::empty(), Seq::empty(), Seq::empty())
        },
        Ask::BB(period, std_dev) => if bollinger_defined(series.len(), period as nat) {
            (
                bollinger_upper(
                    highs(series),
                    lows(series),
                    closes(series),
                    period as nat,
                    std_dev as nat,
                ),
                bollinger_middle(closes(series), period as nat),
                bollinger_lower(
                    highs(series),
                    lows(series),
                    closes(series),
                    period as nat,
                    std_dev as nat,
                ),
            )
        } else {
            (Seq::empty(), Seq::empty(), Seq::empty())
        },
        _ => (Seq::empty(), Seq::empty(), Seq::empty()),
    }
}

/// A table of lines as plain values.
pub open spec fn lines(table: Map<Seq<char>, VecDeque<i64>>) -> Map<Seq<char>, Seq<int>> {
    Map::new(|label: Seq<char>| table.contains_key(label), |label: Seq<char>| ints(table[label]@))
}

/// A table of bands as plain values.
pub open spec fn bands(table: Map<Seq<char>, Bands>) -> Map<
    Seq<char>,
    (Seq<int>, Seq<int>, Seq<int>),
> {
    Map::new(
        |label: Seq<char>| table.contains_key(label),
        |label: Seq<char>| (ints(table[label].0@), ints(table[label].1@), ints(table[label].2@)),
    )
}

/// The table of one kind of line after `asks` have been computed in order
/// over `series`, starting from `before`: each ask of that kind stores its
/// line under its label, over whatever was there.
pub open spec fn lines_after(
    kind: Kind,
    series: Seq<Series>,
    asks: Seq<Ask>,
    before: Map<Seq<char>, Seq<int>>,
) -> Map<Seq<char>, Seq<int>>
    decreases asks.len(),
{
    if asks.len() == 0 {
        before
    } else {
        let earlier = lines_after(kind, series, asks.drop_last(), before);
        if kind_of(asks.last()) == kind {
            earlier.insert(label_of(asks.last()), line_of(series, asks.last()))
        } else {
            earlier
        }
    }
}

/// The table of one kind of bands after `asks` have been computed in order
/// over `series`, starting from `before`.
pub open spec fn bands_after(
    kind: Kind,
    series: Seq<Series>,
    asks: Seq<Ask>,
    before: Map<Seq<char>, (Seq<int>, Seq<int>, Seq<int>)>,
) -> Map<Seq<char>, (Seq<int>, Seq<int>, Seq<int>)>
    decreases asks.len(),
{
    if asks.len() == 0 {
        before
    } else {
        let earlier = bands_after(kind, series, asks.drop_last(), before);
        if kind_of(asks.last()) == kind {
            earlier.insert(label_of(asks.last()), bands_of(series, asks.last()))
        } else {
            earlier
        }
    }
}

/// The order of the labels of one kind after `asks` have been computed,
/// starting from `before`: a label that is new goes to the end.
pub open spec fn labels_after(kind: Kind, asks: Seq<Ask>, before: Seq<Seq<char>>) -> Seq<
    Seq<char>,
>
    decreases asks.len(),
{
    if asks.len() == 0 {
        before
    } else {
        let earlier = labels_after(kind, asks.drop_last(), before);
        if kind_of(asks.last()) == kind && !earlier.contains(label_of(asks.last())) {
            earlier.push(label_of(asks.last()))
        } else {
            earlier
        }
    }
}

} // verus!

verus! {

impl Indicators {
    /// Whether these are the tables that computing `asks` in order over
    /// `series` makes of the tables `before`.
    pub open spec fn computed_from(
        &self,
        before: Indicators,
        series: Seq<Series>,
        asks: Seq<Ask>,
    ) -> bool {
        &&& lines(self.sma@) == lines_after(Kind::Sma, series, asks, lines(before.sma@))
        &&& lines(self.ema@) == lines_after(Kind::Ema, series, asks, lines(before.ema@))
        &&& lines(self.rsi@) == lines_after(Kind::Rsi, series, asks, lines(before.rsi@))
        &&& lines(self.stochastic@) == lines_after(
            Kind::Stochastic,
            series,
            asks,
            lines(before.stochastic@),
        )
        &&& bands(self.macd@) == bands_after(Kind::Macd, series, asks, bands(before.macd@))
        &&& bands(self.bb@) == bands_after(Kind::Bb, series, asks, bands(before.bb@))
        &&& self.sma.labels() == labels_after(Kind::Sma, asks, before.sma.labels())
        &&& self.ema.labels() == labels_after(Kind::Ema, asks, before.ema.labels())
        &&& self.rsi.labels() == labels_after(Kind::Rsi, asks, before.rsi.labels())
        &&& self.stochastic.labels() == labels_after(
            Kind::Stochastic,
            asks,
            before.stochastic.labels(),
        )
        &&& self.macd.labels() == labels_after(Kind::Macd, asks, before.macd.labels())
        &&& self.bb.labels() == labels_after(Kind::Bb, asks, before.bb.labels())
    }
}

/// A price series together with the indicators requested for it and, once
/// `calculate` has run, their values.
#[derive(Debug)]
pub struct EnhancedMarketSeries {
    /// holds symbol like: "GOOGL"
    pub symbol: String,
    /// interval from intraday to monthly
    pub interval: Interval,
    /// the bars of the series
    pub series: Vec<Series>,
    /// the requests for technical indicators, in the order they were made
    pub asks: Vec<Ask>,
    /// calculated indicators
    pub indicators: Indicators,
}

/// The first `i + 1` asks are the first `i` and then ask `i`.
proof fn lemma_next_ask(asks: Seq<Ask>, i: int)
    requires
        0 <= i < asks.len(),
    ensures
        asks.take(i + 1).len() == i + 1,
        asks.take(i + 1).drop_last() == asks.take(i),
        asks.take(i + 1).last() == asks[i],
{
    assert(asks.take(i + 1).drop_last() =~= asks.take(i));
}

/// Storing a line in a table stores its values in the table of values.
proof fn lemma_lines_insert(
    table: Map<Seq<char>, VecDeque<i64>>,
    label: Seq<char>,
    line: VecDeque<i64>,
)
    ensures
        lines(table.insert(label, line)) == lines(table).insert(label, ints(line@)),
{
    assert(lines(table.insert(label, line)) =~= lines(table).insert(label, ints(line@)));
}

/// Storing bands in a table stores their values in the table of values.
proof fn lemma_bands_insert(table: Map<Seq<char>, Bands>, label: Seq<char>, value: Bands)
    ensures
        bands(table.insert(label, value)) == bands(table).insert(
            label,
            (ints(value.0@), ints(value.1@), ints(value.2@)),
        ),
{
    assert(bands(table.insert(label, value)) =~= bands(table).insert(
        label,
        (ints(value.0@), ints(value.1@), ints(value.2@)),
    ));
}

impl EnhancedMarketSeries {
    /// Requests a simple moving average over `period` bars.
    pub fn with_sma(self, period: usize) -> (r: Self)
        ensures
            r.asks@ == self.asks@.push(Ask::SMA(period)),
            r.symbol == self.symbol,
            r.interval == self.interval,
            r.series == self.series,
            r.indicators == self.indicators,
    {
        let mut this = self;
        this.asks.push(Ask::SMA(period));
        this
    }

    /// Requests an exponential moving average over `period` bars.
    pub fn with_ema(self, period: usize) -> (r: Self)
        ensures
            r.asks@ == self.asks@.push(Ask::EMA(period)),
            r.symbol == self.symbol,
            r.interval == self.interval,
            r.series == self.series,
            r.indicators == self.indicators,
    {
        let mut this = self;
        this.asks.push(Ask::EMA(period));
        this
    }

    /// Requests a relative strength index over `period` bars.
    pub fn with_rsi(self, period: usize) -> (r: Self)
        ensures
            r.asks@ == self.asks@.push(Ask::RSI(period)),
            r.symbol == self.symbol,
            r.interval == self.interval,
            r.series == self.series,
            r.indicators == self.indicators,
    {
        let mut this = self;
        this.asks.push(Ask::RSI(period));
        this
    }

    /// Requests a stochastic oscillator over `period` bars.
    pub fn with_stochastic(self, period: usize) -> (r: Self)
        ensures
            r.asks@ == self.asks@.push(Ask::Stochastic(period)),
            r.symbol == self.symbol,
            r.interval == self.interval,
            r.series == self.series,
            r.indicators == self.indicators,
    {
        let mut this = self;
        this.asks.push(Ask::Stochastic(period));
        this
    }

    /// Requests a MACD with a fast, a slow and a signal period.
    pub fn with_macd(self, fast: usize, slow: usize, signal: usize) -> (r: Self)
        ensures
            r.asks@ == self.asks@.push(Ask::MACD(fast, slow, signal)),
            r.symbol == self.symbol,
            r.interval == self.interval,
            r.series == self.series,
            r.indicators == self.indicators,
    {
        let mut this = self;
        this.asks.push(Ask::MACD(fast, slow, signal));
        this
    }

    /// Requests Bollinger bands over `period` bars, `std_dev` standard
    /// deviations wide.
    pub fn with_bb(self, period: usize, std_dev: usize) -> (r: Self)
        ensures
            r.asks@ == self.asks@.push(Ask::BB(period, std_dev)),
            r.symbol == self.symbol,
            r.interval == self.interval,
            r.series == self.series,
            r.indicators == self.indicators,
    {
        let mut this = self;
        this.asks.push(Ask::BB(period, std_dev));
        this
    }

    /// Whether every request that has been made can be computed.
    pub fn is_computable(&self) -> (r: bool)
        ensures
            r == all_computable(self.asks@),
    {
        let mut i: usize = 0;
        while i < self.asks.len()
            invariant
                i <= self.asks@.len(),
                forall|j: int| 0 <= j < i ==> computable(#[trigger] self.asks@[j]),
            decreases self.asks@.len() - i,
        {
            if !self.asks[i].is_computable() {
                return false;
            }
            i += 1;
        }
        true
    }

    /// Computes every requested indicator, in the order of the requests, and
    /// stores each result under the label of its request. A request that
    /// repeats an earlier label replaces that result. Every request has to
    /// be one that can be computed; `is_computable` tells.
    pub fn calculate(self) -> (r: Self)
        requires
            all_computable(self.asks@),
        ensures
            r.symbol == self.symbol,
            r.interval == self.interval,
            r.series == self.series,
            r.asks == self.asks,
            r.indicators.computed_from(self.indicators, self.series@, self.asks@),
    {
        let ghost before = self.indicators;
        let EnhancedMarketSeries { symbol, interval, series, asks, indicators } = self;
        let Indicators { sma, ema, rsi, stochastic, macd, bb } = indicators;
        let mut sma = sma;
        let mut ema = ema;
        let mut rsi = rsi;
        let mut stochastic = stochastic;
        let mut macd = macd;
        let mut bb = bb;
        let ghost bars = series@;
        let ghost all = asks@;
        let mut i: usize = 0;
        while i < asks.len()
            invariant
                i <= asks@.len(),
                bars == series@,
                all == asks@,
                all_computable(all),
                lines(sma@) == lines_after(Kind::Sma, bars, all.take(i as int), lines(before.sma@)),
                lines(ema@) == lines_after(Kind::Ema, bars, all.take(i as int), lines(before.ema@)),
                lines(rsi@) == lines_after(Kind::Rsi, bars, all.take(i as int), lines(before.rsi@)),
                lines(stochastic@) == lines_after(
                    Kind::Stochastic,
                    bars,
                    all.take(i as int),
                    lines(before.stochastic@),
                ),
                bands(macd@) == bands_after(
                    Kind::Macd,
                    bars,
                    all.take(i as int),
                    bands(before.macd@),
                ),
                bands(bb@) == bands_after(Kind::Bb, bars, all.take(i as int), bands(before.bb@)),
                sma.labels() == labels_after(Kind::Sma, all.take(i as int), before.sma.labels()),
                ema.labels() == labels_after(Kind::Ema, all.take(i as int), before.ema.labels()),
                rsi.labels() == labels_after(Kind::Rsi, all.take(i as int), before.rsi.labels()),
                stochastic.labels() == labels_after(
                    Kind::Stochastic,
                    all.take(i as int),
                    before.stochastic.labels(),
                ),
                macd.labels() == labels_after(Kind::Macd, all.take(i as int), before.macd.labels()),
                bb.labels() == labels_after(Kind::Bb, all.take(i as int), before.bb.labels()),
            decreases asks@.len() - i,
        {
            let ask = asks[i];
            let label = ask.label();
            proof {
                assert(computable(all[i as int]));
                lemma_next_ask(all, i as int);
                sma.lemma_keys_are_labels();
                ema.lemma_keys_are_labels();
                rsi.lemma_keys_are_labels();
                stochastic.lemma_keys_are_labels();
                macd.lemma_keys_are_labels();
                bb.lemma_keys_are_labels();
            }
            match ask {
                Ask::SMA(period) => {
                    let line = calculate_sma(series.as_slice(), period);
                    proof {
                        lemma_lines_insert(sma@, label@, line);
                    }
                    sma = sma.insert(label, line);
                },
                Ask::EMA(period) => {
                    let line = calculate_ema(series.as_slice(), period);
                    proof {
                        lemma_lines_insert(ema@, label@, line);
                    }
                    ema = ema.insert(label, line);
                },
                Ask::RSI(period) => {
                    let line = calculate_rsi(series.as_slice(), period);
                    proof {
                        lemma_lines_insert(rsi@, label@, line);
                    }
                    rsi = rsi.insert(label, line);
                },
                Ask::Stochastic(period) => {
                    let line = calculate_stochastic(series.as_slice(), period);
                    proof {
                        lemma_lines_insert(stochastic@, label@, line);
                    }
                    stochastic = stochastic.insert(label, line);
                },
                Ask::MACD(fast, slow, signal) => {
                    let value = calculate_macd(series.as_slice(), fast, slow, signal);
                    proof {
                        lemma_bands_insert(macd@, label@, value);
                        assert(ints(value.0@) =~= bands_of(bars, ask).0);
                        assert(ints(value.1@) =~= bands_of(bars, ask).1);
                        assert(ints(value.2@) =~= bands_of(bars, ask).2);
                    }
                    macd = macd.insert(label, value);
                },
                Ask::BB(period, std_dev) => {
                    let value = calculate_bollinger_bands(series.as_slice(), period, std_dev);
                    proof {
                        lemma_bands_insert(bb@, label@, value);
                        assert(ints(value.0@) =~= bands_of(bars, ask).0);
                        assert(ints(value.1@) =~= bands_of(bars, ask).1);
                        assert(ints(value.2@) =~= bands_of(bars, ask).2);
                    }
                    bb = bb.insert(label, value);
                },
            }
            i += 1;
        }
        assert(all.take(i as int) =~= all);
        EnhancedMarketSeries {
            symbol,
            interval,
            series,
            asks,
            indicators: Indicators { sma, ema, rsi, stochastic, macd, bb },
        }
    }
}

} // verus!

//! Stochastic oscillator.

use crate::client::{
    all_in_price_range, close_ticks, closes, high_ticks, highs, ints, low_ticks, lows, Series,
};
use crate::fixed::{
    div_floor_signed, floor_quotient, in_price_range, lemma_floor_quotient_magnitude,
    lemma_window_max, lemma_window_min, window_max, window_min, PRICE_LIMIT,
};
use std::collections::VecDeque;
use vstd::prelude::*;

verus! {

/// One hundred per cent, in ticks.
pub const PERCENT: i64 = 1_000_000;

/// Where `close` stands between `lowest` and `highest`, in per cent and in
/// ticks, rounded down; zero where the range is flat.
pub open spec fn percent_k(close: int, lowest: int, highest: int) -> int {
    if highest == lowest {
        0
    } else {
        floor_quotient(PERCENT * (close - lowest), highest - lowest)
    }
}

/// %K at position `i`, over the `period + 1` bars from `i - period` to `i`.
/// Zero while fewer bars have been seen.
pub open spec fn stochastic_at(
    close: Seq<int>,
    high: Seq<int>,
    low: Seq<int>,
    period: nat,
    i: int,
) -> int {
    if i >= period {
        percent_k(close[i], window_min(low, i - period, i + 1), window_max(high, i - period, i + 1))
    } else {
        0
    }
}

/// Whether a series of `len` bars has a stochastic oscillator of this period.
pub open spec fn stochastic_defined(len: nat, period: nat) -> bool {
    1 <= period < len
}

/// The stochastic oscillator of a series: as long as the series where it is
/// defined, empty where it is not.
pub open spec fn stochastic_values(
    close: Seq<int>,
    high: Seq<int>,
    low: Seq<int>,
    period: nat,
) -> Seq<int> {
    if stochastic_defined(close.len(), period) {
        Seq::new(close.len(), |i: int| stochastic_at(close, high, low, period, i))
    } else {
        Seq::empty()
    }
}

/// The smallest and the largest value of a window.
fn extremes(low: &[i64], high: &[i64], from: usize, to: usize) -> (r: (i64, i64))
    requires
        from < to <= low@.len(),
        low@.len() == high@.len(),
    ensures
        r.0 == window_min(ints(low@), from as int, to as int),
        r.1 == window_max(ints(high@), from as int, to as int),
{
    let mut lowest: i64 = low[from];
    let mut highest: i64 = high[from];
    let mut j: usize = from + 1;
    while j < to
        invariant
            from < j <= to <= low@.len(),
            low@.len() == high@.len(),
            lowest == window_min(ints(low@), from as int, j as int),
            highest == window_max(ints(high@), from as int, j as int),
        decreases to - j,
    {
        if low[j] < lowest {
            lowest = low[j];
        }
        if high[j] > highest {
            highest = high[j];
        }
        j += 1;
    }
    (lowest, highest)
}

/// Stochastic oscillator (%K) of a series over a look-back of `period` bars.
///
/// For a period of at least one that is shorter than the series, the output is
/// as long as the series. Position `i >= period` holds
/// `100 * (close - lowest) / (highest - lowest)` in ticks, rounded down, where
/// `lowest` is the lowest low and `highest` the highest high of the
/// `period + 1` bars that end at `i`, and zero where the two are equal; the
/// first `period` positions hold zero. Otherwise the output is empty.
pub fn calculate_stochastic(series: &[Series], period: usize) -> (r: VecDeque<i64>)
    ensures
        ints(r@) == stochastic_values(
            closes(series@),
            highs(series@),
            lows(series@),
            period as nat,
        ),
        stochastic_defined(series@.len(), period as nat) ==> r@.len() == series@.len(),
        !stochastic_defined(series@.len(), period as nat) ==> r@.len() == 0,
        forall|i: int| 0 <= i < r@.len() && i < period ==> r@[i] == 0,
{
    let mut out: VecDeque<i64> = VecDeque::new();
    let n: usize = series.len();
    let ghost c = closes(series@);
    let ghost h = highs(series@);
    let ghost l = lows(series@);
    if period == 0 || n <= period {
        assert(ints(out@) =~= stochastic_values(c, h, l, period as nat));
        return out;
    }
    let close = close_ticks(series);
    let high = high_ticks(series);
    let low = low_ticks(series);
    assert(ints(close@).len() == close@.len());
    assert(ints(high@).len() == high@.len());
    assert(ints(low@).len() == low@.len());
    assert(c.len() == n && h.len() == n && l.len() == n);
    let mut i: usize = 0;
    while i < n
        invariant
            n == series@.len(),
            close@.len() == n,
            high@.len() == n,
            low@.len() == n,
            c == ints(close@),
            h == ints(high@),
            l == ints(low@),
            all_in_price_range(c),
            all_in_price_range(h),
            all_in_price_range(l),
            1 <= period < n,
            i <= n,
            out@.len() == i,
            forall|j: int| 0 <= j < i ==> out@[j] as int == stochastic_at(c, h, l, period as nat, j),
        decreases n - i,
    {
        if i >= period {
            let (lowest, highest) = extremes(low.as_slice(), high.as_slice(), i - period, i + 1);
            let value: i64 = if highest == lowest {
                0
            } else {
                proof {
                    lemma_window_min(l, i - period, i + 1);
                    lemma_window_max(h, i - period, i + 1);
                    assert(in_price_range(lowest as int));
                    assert(in_price_range(highest as int));
                    assert(in_price_range(c[i as int]));
                    assert(c[i as int] == close@[i as int]);
                    assert(-PERCENT * (2 * PRICE_LIMIT) <= PERCENT * (c[i as int] - lowest)
                        <= PERCENT * (2 * PRICE_LIMIT)) by (nonlinear_arith)
                        requires
                            -2 * PRICE_LIMIT <= c[i as int] - lowest <= 2 * PRICE_LIMIT,
                    ;
                    lemma_floor_quotient_magnitude(
                        PERCENT * (c[i as int] - lowest),
                        highest - lowest,
                        PERCENT * (2 * PRICE_LIMIT),
                    );
                }
                let range: i128 = (highest as i128) - (lowest as i128);
                let above: i128 = (close[i] as i128) - (lowest as i128);
                div_floor_signed((PERCENT as i128) * above, range) as i64
            };
            out.push_back(value);
        } else {
            out.push_back(0);
        }
        i += 1;
    }
    assert(ints(out@) =~= stochastic_values(c, h, l, period as nat));
    assert(forall|i: int| 0 <= i < out@.len() ==> out@[i] as int == ints(out@)[i]);
    out
}

} // verus!

//! Exponential moving average.

use crate::client::{close_ticks, closes, ints, Series};
use crate::fixed::{div_floor, lemma_quotient_between};
use std::collections::VecDeque;
use vstd::prelude::*;

verus! {

/// The average at position `i`. The first value seeds the average; each later
/// one moves it towards the new value by the smoothing factor `2 / (period + 1)`:
/// `(2 * v[i] + (period - 1) * previous) / (period + 1)`, rounded down.
pub open spec fn ema_at(v: Seq<int>, period: nat, i: int) -> int
    decreases i,
{
    if i <= 0 {
        v[0]
    } else {
        (2 * v[i] + (period - 1) * ema_at(v, period, i - 1)) / (period as int + 1)
    }
}

/// The exponential moving average of `v`: as long as `v`, whatever the period.
pub open spec fn ema_values(v: Seq<int>, period: nat) -> Seq<int> {
    Seq::new(v.len(), |i: int| ema_at(v, period, i))
}

/// The average never leaves the bounds of the values that went into it.
pub proof fn lemma_ema_between(v: Seq<int>, period: nat, i: int, lo: int, hi: int)
    requires
        period >= 1,
        0 <= i < v.len(),
        forall|j: int| 0 <= j <= i ==> lo <= #[trigger] v[j] <= hi,
    ensures
        lo <= ema_at(v, period, i) <= hi,
    decreases i,
{
    if i > 0 {
        lemma_ema_between(v, period, i - 1, lo, hi);
        let prev = ema_at(v, period, i - 1);
        lemma_step_between(v[i], prev, period as int, lo, hi);
    }
}

/// One step of the average stays between the bounds of its two inputs.
proof fn lemma_step_between(x: int, prev: int, period: int, lo: int, hi: int)
    requires
        period >= 1,
        lo <= x <= hi,
        lo <= prev <= hi,
    ensures
        (period + 1) * lo <= 2 * x + (period - 1) * prev <= (period + 1) * hi,
        lo <= (2 * x + (period - 1) * prev) / (period + 1) <= hi,
{
    assert((period + 1) * lo <= 2 * x + (period - 1) * prev) by (nonlinear_arith)
        requires
            period >= 1,
            lo <= x,
            lo <= prev,
    ;
    assert(2 * x + (period - 1) * prev <= (period + 1) * hi) by (nonlinear_arith)
        requires
            period >= 1,
            x <= hi,
            prev <= hi,
    ;
    lemma_quotient_between(2 * x + (period - 1) * prev, period + 1, lo, hi);
}

/// Exponential moving average of a plain sequence of values.
///
/// The output is as long as the input and starts with the first value itself;
/// nothing is padded. The period has to be positive: with a period of zero
/// the smoothing factor is 2, and the average leaves the range of the values
/// and, in the end, of 64 bits.
pub fn calculate_ema_slice(series: &[i64], period: usize) -> (r: VecDeque<i64>)
    requires
        period >= 1,
    ensures
        ints(r@) == ema_values(ints(series@), period as nat),
        r@.len() == series@.len(),
        series@.len() >= 1 ==> r@[0] == series@[0],
{
    let mut out: VecDeque<i64> = VecDeque::new();
    let n: usize = series.len();
    let ghost v = ints(series@);
    let mut prev: i64 = 0;
    let mut i: usize = 0;
    while i < n
        invariant
            n == series.len(),
            v == ints(series@),
            period >= 1,
            i <= n,
            out@.len() == i,
            forall|j: int| 0 <= j < i ==> out@[j] as int == ema_at(v, period as nat, j),
            i > 0 ==> prev as int == ema_at(v, period as nat, i - 1),
        decreases n - i,
    {
        let next: i64 = if i == 0 {
            series[0]
        } else {
            proof {
                lemma_step_between(
                    v[i as int],
                    prev as int,
                    period as int,
                    i64::MIN as int,
                    i64::MAX as int,
                );
                assert(((period as int) + 1) * (i64::MAX as int) <= i128::MAX
                    && ((period as int) + 1) * (i64::MIN as int) >= i128::MIN)
                    by (nonlinear_arith)
                    requires
                        1 <= period <= 0xffff_ffff_ffff_ffff,
                ;
                assert(((period as int) - 1) * (prev as int) <= i128::MAX
                    && ((period as int) - 1) * (prev as int) >= i128::MIN)
                    by (nonlinear_arith)
                    requires
                        1 <= period <= 0xffff_ffff_ffff_ffff,
                        i64::MIN <= prev <= i64::MAX,
                ;
            }
            let weight: i128 = (period as i128) - 1;
            let carried: i128 = weight * (prev as i128);
            let fresh: i128 = 2 * (series[i] as i128);
            div_floor(fresh + carried, (period as i128) + 1) as i64
        };
        out.push_back(next);
        prev = next;
        i += 1;
    }
    assert(ints(out@) =~= ema_values(v, period as nat));
    out
}

/// Exponential moving average of the closing prices with smoothing factor
/// `2 / (period + 1)`.
///
/// The output is as long as the series. Position 0 holds the first closing
/// price itself, and every later position the average moved towards that
/// bar's closing price; nothing is padded. The period has to be positive.
pub fn calculate_ema(series: &[Series], period: usize) -> (r: VecDeque<i64>)
    requires
        period >= 1,
    ensures
        ints(r@) == ema_values(closes(series@), period as nat),
        r@.len() == series@.len(),
        series@.len() >= 1 ==> r@[0] as int == series@[0].close@,
{
    let values = close_ticks(series);
    let out = calculate_ema_slice(values.as_slice(), period);
    proof {
        assert(ints(values@).len() == values@.len());
        assert(closes(series@).len() == series@.len());
        if series@.len() >= 1 {
            assert(ints(values@)[0] == values@[0]);
            assert(closes(series@)[0] == series@[0].close@);
        }
    }
    out
}

} // verus!

//! Simple moving average.

use crate::client::{close_ticks, closes, ints, Series};
use crate::fixed::{
    div_floor, lemma_quotient_between, lemma_window_sum_bounds, lemma_window_sum_drop_first,
    window_sum,
};
use std::collections::VecDeque;
use vstd::prelude::*;

verus! {

/// The average at position `i`: the mean of the last `period` values up to and
/// including `v[i]`, rounded down, or zero while fewer than `period` values
/// have been seen.
pub open spec fn sma_at(v: Seq<int>, period: nat, i: int) -> int {
    if period >= 1 && i + 1 >= period {
        window_sum(v, i + 1 - period, i + 1) / (period as int)
    } else {
        0
    }
}

/// The simple moving average of `v`: as long as `v`, or empty for a period of zero.
pub open spec fn sma_values(v: Seq<int>, period: nat) -> Seq<int> {
    if period == 0 {
        Seq::empty()
    } else {
        Seq::new(v.len(), |i: int| sma_at(v, period, i))
    }
}

/// Fewer than 2^64 - 1 values of 64 bits, and one more, sum up within 128 bits.
proof fn lemma_fits(count: int)
    requires
        0 <= count <= 0xffff_ffff_ffff_fffe,
    ensures
        i128::MIN <= count * (i64::MIN as int) + (i64::MIN as int),
        count * (i64::MAX as int) + (i64::MAX as int) <= i128::MAX,
{
    assert(count * (i64::MIN as int) >= 0xffff_ffff_ffff_fffe * (i64::MIN as int))
        by (nonlinear_arith)
        requires
            0 <= count <= 0xffff_ffff_ffff_fffe,
    ;
    assert(count * (i64::MAX as int) <= 0xffff_ffff_ffff_fffe * (i64::MAX as int))
        by (nonlinear_arith)
        requires
            0 <= count <= 0xffff_ffff_ffff_fffe,
    ;
}

/// The simple moving average of `values`, computed with a sliding sum.
pub fn sma_of(values: &[i64], period: usize) -> (r: VecDeque<i64>)
    ensures
        ints(r@) == sma_values(ints(values@), period as nat),
{
    let mut out: VecDeque<i64> = VecDeque::new();
    if period == 0 {
        assert(ints(out@) =~= sma_values(ints(values@), period as nat));
        return out;
    }
    let n: usize = values.len();
    let ghost v = ints(values@);
    let mut sum: i128 = 0;
    let mut i: usize = 0;
    while i < n
        invariant
            n == values.len(),
            v == ints(values@),
            period >= 1,
            i <= n,
            out.len() == i,
            forall|j: int| 0 <= j < i ==> out@[j] as int == sma_at(v, period as nat, j),
            sum == window_sum(v, if i >= period { i - period } else { 0 }, i as int),
        decreases n - i,
    {
        let ghost start: int = if i >= period { i - period } else { 0 };
        proof {
            assert(forall|j: int| 0 <= j < v.len() ==> i64::MIN <= #[trigger] v[j] <= i64::MAX);
        }
        if i >= period {
            proof {
                lemma_window_sum_drop_first(v, start, i as int);
                lemma_window_sum_bounds(v, start + 1, i as int, i64::MIN as int, i64::MAX as int);
                lemma_fits(i - start - 1);
            }
            sum = sum - (values[i - period] as i128);
        }
        let ghost first: int = i + 1 - period;
        let ghost begin: int = if first >= 0 { first } else { 0 };
        proof {
            lemma_window_sum_bounds(v, begin, i as int, i64::MIN as int, i64::MAX as int);
            lemma_fits(i - begin);
        }
        sum = sum + (values[i] as i128);
        if i + 1 >= period {
            proof {
                lemma_window_sum_bounds(v, first, i + 1, i64::MIN as int, i64::MAX as int);
                lemma_quotient_between(
                    sum as int,
                    period as int,
                    i64::MIN as int,
                    i64::MAX as int,
                );
            }
            let mean: i128 = div_floor(sum, period as i128);
            out.push_back(mean as i64);
        } else {
            out.push_back(0);
        }
        i += 1;
    }
    assert(ints(out@) =~= sma_values(v, period as nat));
    out
}

/// Simple moving average of the closing prices over `period` bars.
///
/// The output is as long as the series. Position `i` holds the mean of the
/// closing prices of bars `i - period + 1` to `i`, rounded down to a whole
/// tick; the first `period - 1` positions, where the window has not filled,
/// hold zero. A period of zero gives an empty output.
pub fn calculate_sma(series: &[Series], period: usize) -> (r: VecDeque<i64>)
    ensures
        ints(r@) == sma_values(closes(series@), period as nat),
        period >= 1 ==> r@.len() == series@.len(),
        forall|i: int| 0 <= i < r@.len() && i + 1 < period ==> r@[i] == 0,
{
    let values = close_ticks(series);
    let out = sma_of(values.as_slice(), period);
    assert(ints(out@).len() == out@.len());
    assert(forall|i: int| 0 <= i < out@.len() ==> out@[i] as int == ints(out@)[i]);
    out
}

} // verus!

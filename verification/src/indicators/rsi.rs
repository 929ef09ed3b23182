//! Relative strength index.

use crate::client::{all_in_price_range, close_ticks, closes, ints, Series};
use crate::fixed::{
    in_price_range, lemma_quotient_between, lemma_window_sum_bounds, lemma_window_sum_drop_first,
    window_sum, PRICE_LIMIT, SCALE,
};
use std::collections::VecDeque;
use vstd::prelude::*;

verus! {

/// The index of a series without a single loss: one hundred, in ticks.
pub const RSI_MAX: i64 = 1_000_000;

/// The rise from `v[j - 1]` to `v[j]`, or zero where there is none. Position 0
/// has no predecessor and counts as no rise.
pub open spec fn gain_at(v: Seq<int>, j: int) -> int {
    if j >= 1 && v[j] > v[j - 1] {
        v[j] - v[j - 1]
    } else {
        0
    }
}

/// The fall from `v[j - 1]` to `v[j]`, or zero where there is none.
pub open spec fn loss_at(v: Seq<int>, j: int) -> int {
    if j >= 1 && v[j] < v[j - 1] {
        v[j - 1] - v[j]
    } else {
        0
    }
}

/// The rises of `v`, position by position.
pub open spec fn gains(v: Seq<int>) -> Seq<int> {
    Seq::new(v.len(), |j: int| gain_at(v, j))
}

/// The falls of `v`, position by position.
pub open spec fn losses(v: Seq<int>) -> Seq<int> {
    Seq::new(v.len(), |j: int| loss_at(v, j))
}

/// The index from the sum of the rises and the sum of the falls of one window:
/// `100 * rises / (rises + falls)` in ticks, rounded down, which is
/// `100 - 100 / (1 + rs)` for the relative strength `rs = rises / falls`; one
/// hundred where nothing fell.
pub open spec fn rsi_from(rises: int, falls: int) -> int {
    if falls == 0 {
        RSI_MAX as int
    } else {
        RSI_MAX * rises / (rises + falls)
    }
}

/// The index at position `i`, over the `period` changes that end at bar `i`
/// (the window of `period + 1` bars from `i - period` to `i`). Zero while
/// fewer than `period` changes have been seen.
pub open spec fn rsi_at(v: Seq<int>, period: nat, i: int) -> int {
    if period >= 1 && i >= period {
        rsi_from(
            window_sum(gains(v), i + 1 - period, i + 1),
            window_sum(losses(v), i + 1 - period, i + 1),
        )
    } else {
        0
    }
}

/// The relative strength index of `v`: as long as `v`, or empty for a period of zero.
pub open spec fn rsi_values(v: Seq<int>, period: nat) -> Seq<int> {
    if period == 0 {
        Seq::empty()
    } else {
        Seq::new(v.len(), |i: int| rsi_at(v, period, i))
    }
}

/// A series that never falls has an index of one hundred wherever the index
/// is computed.
pub proof fn lemma_rsi_of_rising_series(v: Seq<int>, period: nat, i: int)
    requires
        forall|j: int| 1 <= j < v.len() ==> v[j - 1] <= #[trigger] v[j],
        period >= 1,
        period <= i < v.len(),
    ensures
        rsi_values(v, period)[i] == RSI_MAX,
        rsi_values(v, period)[i] == 100 * SCALE,
{
    let falls = losses(v);
    assert forall|j: int| 0 <= j < falls.len() implies 0 <= #[trigger] falls[j] <= 0 by {
        if j >= 1 {
            assert(v[j - 1] <= v[j]);
        }
    }
    lemma_window_sum_bounds(falls, i + 1 - period, i + 1, 0, 0);
}

/// Windows of changes between prices sum up well within 128 bits, also when
/// multiplied by `RSI_MAX`.
proof fn lemma_change_sum_fits(count: int, sum: int)
    requires
        0 <= count <= 0xffff_ffff_ffff_ffff,
        count * 0 <= sum <= count * (2 * PRICE_LIMIT),
    ensures
        0 <= sum,
        RSI_MAX * sum + RSI_MAX * (2 * PRICE_LIMIT) <= i128::MAX,
{
    assert(count * (2 * PRICE_LIMIT) <= 0xffff_ffff_ffff_ffff * (2 * PRICE_LIMIT))
        by (nonlinear_arith)
        requires
            0 <= count <= 0xffff_ffff_ffff_ffff,
    ;
    assert(count * 0 == 0);
}

/// The rise and the fall from `before` to `after`.
fn change(before: i64, after: i64) -> (r: (i128, i128))
    requires
        in_price_range(before as int),
        in_price_range(after as int),
    ensures
        r.0 == (if after > before { after - before } else { 0 }),
        r.1 == (if after < before { before - after } else { 0 }),
        0 <= r.0 <= 2 * PRICE_LIMIT,
        0 <= r.1 <= 2 * PRICE_LIMIT,
{
    if after > before {
        ((after as i128) - (before as i128), 0)
    } else {
        (0, (before as i128) - (after as i128))
    }
}

/// The relative strength index of `values`, computed with two sliding sums.
fn rsi_of(values: &[i64], period: usize) -> (r: VecDeque<i64>)
    requires
        all_in_price_range(ints(values@)),
    ensures
        ints(r@) == rsi_values(ints(values@), period as nat),
{
    let mut out: VecDeque<i64> = VecDeque::new();
    if period == 0 {
        assert(ints(out@) =~= rsi_values(ints(values@), period as nat));
        return out;
    }
    let n: usize = values.len();
    let ghost v = ints(values@);
    let ghost up = gains(v);
    let ghost down = losses(v);
    proof {
        assert forall|j: int| 0 <= j < v.len() implies 0 <= #[trigger] up[j] <= 2 * PRICE_LIMIT by {
            if j >= 1 {
                assert(in_price_range(v[j]) && in_price_range(v[j - 1]));
            }
        }
        assert forall|j: int| 0 <= j < v.len() implies 0 <= #[trigger] down[j] <= 2
            * PRICE_LIMIT by {
            if j >= 1 {
                assert(in_price_range(v[j]) && in_price_range(v[j - 1]));
            }
        }
    }
    let mut rises: i128 = 0;
    let mut falls: i128 = 0;
    let mut i: usize = 0;
    while i < n
        invariant
            n == values.len(),
            v == ints(values@),
            up == gains(v),
            down == losses(v),
            all_in_price_range(v),
            forall|j: int| 0 <= j < v.len() ==> 0 <= #[trigger] up[j] <= 2 * PRICE_LIMIT,
            forall|j: int| 0 <= j < v.len() ==> 0 <= #[trigger] down[j] <= 2 * PRICE_LIMIT,
            period >= 1,
            i <= n,
            out@.len() == i,
            forall|j: int| 0 <= j < i ==> out@[j] as int == rsi_at(v, period as nat, j),
            rises == window_sum(up, if i >= period { i - period } else { 0 }, i as int),
            falls == window_sum(down, if i >= period { i - period } else { 0 }, i as int),
        decreases n - i,
    {
        let ghost start: int = if i >= period { i - period } else { 0 };
        if i >= period {
            let leaving: (i128, i128) = if i - period >= 1 {
                assert(in_price_range(v[i - period]) && in_price_range(v[i - period - 1]));
                change(values[i - period - 1], values[i - period])
            } else {
                (0, 0)
            };
            proof {
                lemma_window_sum_drop_first(up, start, i as int);
                lemma_window_sum_drop_first(down, start, i as int);
                lemma_window_sum_bounds(up, start + 1, i as int, 0, 2 * PRICE_LIMIT);
                lemma_window_sum_bounds(down, start + 1, i as int, 0, 2 * PRICE_LIMIT);
                lemma_change_sum_fits(i - start - 1, rises - leaving.0);
                lemma_change_sum_fits(i - start - 1, falls - leaving.1);
            }
            rises = rises - leaving.0;
            falls = falls - leaving.1;
        }
        let ghost first: int = i + 1 - period;
        let ghost begin: int = if first >= 0 { first } else { 0 };
        let arriving: (i128, i128) = if i >= 1 {
            assert(in_price_range(v[i as int]) && in_price_range(v[i - 1]));
            change(values[i - 1], values[i])
        } else {
            (0, 0)
        };
        proof {
            lemma_window_sum_bounds(up, begin, i as int, 0, 2 * PRICE_LIMIT);
            lemma_window_sum_bounds(down, begin, i as int, 0, 2 * PRICE_LIMIT);
            lemma_change_sum_fits(i - begin, rises as int);
            lemma_change_sum_fits(i - begin, falls as int);
            assert(up[i as int] == arriving.0);
            assert(down[i as int] == arriving.1);
        }
        rises = rises + arriving.0;
        falls = falls + arriving.1;
        if i >= period {
            proof {
                lemma_window_sum_bounds(up, first, i + 1, 0, 2 * PRICE_LIMIT);
                lemma_window_sum_bounds(down, first, i + 1, 0, 2 * PRICE_LIMIT);
                lemma_change_sum_fits(i + 1 - first, rises as int);
                lemma_change_sum_fits(i + 1 - first, falls as int);
            }
            let index: i64 = if falls == 0 {
                RSI_MAX
            } else {
                proof {
                    assert(0 * (rises + falls) <= RSI_MAX * rises <= RSI_MAX * (rises + falls))
                        by (nonlinear_arith)
                        requires
                            rises >= 0,
                            falls > 0,
                    ;
                    lemma_quotient_between(
                        RSI_MAX * rises,
                        (rises + falls) as int,
                        0,
                        RSI_MAX as int,
                    );
                }
                (((RSI_MAX as i128) * rises) / (rises + falls)) as i64
            };
            out.push_back(index);
        } else {
            out.push_back(0);
        }
        i += 1;
    }
    assert(ints(out@) =~= rsi_values(v, period as nat));
    out
}

/// Relative strength index of the closing prices over `period` changes.
///
/// This is the plain sliding-window index, not Wilder's smoothed one: each
/// value is computed afresh from the `period` changes between the `period + 1`
/// bars that end at its position, as `100 * rises / (rises + falls)` in ticks,
/// rounded down, and is one hundred where nothing fell in the window.
///
/// The output is as long as the series; the first `period` positions hold
/// zero. A period of zero gives an empty output.
pub fn calculate_rsi(series: &[Series], period: usize) -> (r: VecDeque<i64>)
    ensures
        ints(r@) == rsi_values(closes(series@), period as nat),
        period >= 1 ==> r@.len() == series@.len(),
        forall|i: int| 0 <= i < r@.len() && i < period ==> r@[i] == 0,
{
    let values = close_ticks(series);
    let out = rsi_of(values.as_slice(), period);
    assert(ints(out@).len() == out@.len());
    assert(forall|i: int| 0 <= i < out@.len() ==> out@[i] as int == ints(out@)[i]);
    out
}

} // verus!

//! Bollinger bands.

use crate::client::{
    all_in_price_range, close_ticks, closes, high_ticks, highs, ints, low_ticks, lows, Series,
};
use crate::fixed::{
    div_floor, in_price_range, isqrt, lemma_quotient_between, lemma_sqrt_floor_bounds,
    lemma_window_sum_bounds, sqrt_floor, window_sum, PRICE_LIMIT,
};
use crate::indicators::ema::{calculate_ema_slice, ema_at, ema_values, lemma_ema_between};
use std::collections::VecDeque;
use vstd::arithmetic::div_mod::{lemma_fundamental_div_mod, lemma_fundamental_div_mod_converse};
use vstd::prelude::*;

verus! {

/// The largest multiplier of the standard deviation with which the bands of
/// every series fit into 64 bits: a standard deviation is at most twice the
/// limit of a price.
pub const BB_MAX_MULTIPLIER: usize = 4_611_685;

/// Whether a series of `len` bars has Bollinger bands of this period.
pub open spec fn bollinger_defined(len: nat, period: nat) -> bool {
    1 <= period < len
}

/// The typical price of each bar: the mean of high, low and close, rounded down.
pub open spec fn typical_prices(high: Seq<int>, low: Seq<int>, close: Seq<int>) -> Seq<int> {
    Seq::new(close.len(), |i: int| (high[i] + low[i] + close[i]) / 3)
}

/// The squared distance of each value of `v` from `center`.
pub open spec fn squares_around(v: Seq<int>, center: int) -> Seq<int> {
    Seq::new(v.len(), |j: int| (v[j] - center) * (v[j] - center))
}

/// The standard deviation at position `i`: the square root, rounded down, of
/// the mean, rounded down, of the squared distances that the typical prices of
/// the `period` bars ending at `i` have from the typical price of bar `i`.
pub open spec fn deviation_at(typical: Seq<int>, period: nat, i: int) -> int {
    sqrt_floor(
        (window_sum(squares_around(typical, typical[i]), i + 1 - period, i + 1) / (
        period as int)) as nat,
    ) as int
}

/// The middle band: the exponential moving average of the closing prices.
pub open spec fn bollinger_middle(close: Seq<int>, period: nat) -> Seq<int> {
    ema_values(close, period)
}

/// The last value of the middle band, from which both outer bands are offset.
pub open spec fn bollinger_center(close: Seq<int>, period: nat) -> int {
    ema_at(close, period, close.len() - 1)
}

/// The upper band: from position `period` on, the center plus `multiplier`
/// standard deviations; zero before.
pub open spec fn bollinger_upper(
    high: Seq<int>,
    low: Seq<int>,
    close: Seq<int>,
    period: nat,
    multiplier: nat,
) -> Seq<int> {
    Seq::new(
        close.len(),
        |i: int|
            if i >= period {
                bollinger_center(close, period) + multiplier * deviation_at(
                    typical_prices(high, low, close),
                    period,
                    i,
                )
            } else {
                0
            },
    )
}

/// The lower band: from position `period` on, the center less `multiplier`
/// standard deviations; zero before.
pub open spec fn bollinger_lower(
    high: Seq<int>,
    low: Seq<int>,
    close: Seq<int>,
    period: nat,
    multiplier: nat,
) -> Seq<int> {
    Seq::new(
        close.len(),
        |i: int|
            if i >= period {
                bollinger_center(close, period) - multiplier * deviation_at(
                    typical_prices(high, low, close),
                    period,
                    i,
                )
            } else {
                0
            },
    )
}

/// The typical prices of a series, each within the range of a price.
fn typical_ticks(high: &[i64], low: &[i64], close: &[i64]) -> (r: Vec<i64>)
    requires
        high@.len() == close@.len(),
        low@.len() == close@.len(),
        all_in_price_range(ints(high@)),
        all_in_price_range(ints(low@)),
        all_in_price_range(ints(close@)),
    ensures
        ints(r@) == typical_prices(ints(high@), ints(low@), ints(close@)),
        all_in_price_range(ints(r@)),
{
    let n: usize = close.len();
    let mut out: Vec<i64> = Vec::with_capacity(n);
    let ghost t = typical_prices(ints(high@), ints(low@), ints(close@));
    let mut i: usize = 0;
    while i < n
        invariant
            n == close@.len(),
            high@.len() == n,
            low@.len() == n,
            all_in_price_range(ints(high@)),
            all_in_price_range(ints(low@)),
            all_in_price_range(ints(close@)),
            t == typical_prices(ints(high@), ints(low@), ints(close@)),
            i <= n,
            out@.len() == i,
            forall|j: int| 0 <= j < i ==> out@[j] as int == t[j],
            forall|j: int| 0 <= j < i ==> in_price_range(#[trigger] out@[j] as int),
        decreases n - i,
    {
        proof {
            assert(in_price_range(ints(high@)[i as int]));
            assert(in_price_range(ints(low@)[i as int]));
            assert(in_price_range(ints(close@)[i as int]));
            lemma_quotient_between(
                high@[i as int] + low@[i as int] + close@[i as int],
                3,
                -PRICE_LIMIT as int,
                PRICE_LIMIT as int,
            );
        }
        let total: i128 = (high[i] as i128) + (low[i] as i128) + (close[i] as i128);
        out.push(div_floor(total, 3) as i64);
        i += 1;
    }
    assert(ints(out@) =~= t);
    out
}

/// The square of a distance between two prices is at most the square of twice the limit.
proof fn lemma_square_bound(d: int)
    requires
        -2 * PRICE_LIMIT <= d <= 2 * PRICE_LIMIT,
    ensures
        0 <= d * d <= 4 * PRICE_LIMIT * PRICE_LIMIT,
{
    assert(0 <= d * d <= 4 * PRICE_LIMIT * PRICE_LIMIT) by (nonlinear_arith)
        requires
            -2 * PRICE_LIMIT <= d <= 2 * PRICE_LIMIT,
    ;
}

/// The standard deviation of the typical prices of one window.
fn deviation(typical: &[i64], period: usize, i: usize) -> (r: i64)
    requires
        all_in_price_range(ints(typical@)),
        1 <= period <= i < typical@.len(),
    ensures
        r == deviation_at(ints(typical@), period as nat, i as int),
        0 <= r <= 2 * PRICE_LIMIT,
{
    let ghost t = ints(typical@);
    let ghost sq = squares_around(t, t[i as int]);
    let ghost limit: int = 4 * PRICE_LIMIT * PRICE_LIMIT;
    let first: usize = i - period + 1;
    let center: i64 = typical[i];
    let divisor: u128 = period as u128;
    proof {
        assert(in_price_range(t[i as int]));
        assert forall|j: int| 0 <= j < sq.len() implies 0 <= #[trigger] sq[j] <= limit by {
            assert(in_price_range(t[j]));
            lemma_square_bound(t[j] - t[i as int]);
        }
    }
    // The sum of the squares is held as `whole * period + rest`: the sum itself
    // may not fit into 128 bits, its mean always does.
    let mut whole: u128 = 0;
    let mut rest: u128 = 0;
    let mut j: usize = first;
    while j <= i
        invariant
            t == ints(typical@),
            sq == squares_around(t, t[i as int]),
            limit == 4 * PRICE_LIMIT * PRICE_LIMIT,
            all_in_price_range(t),
            forall|k: int| 0 <= k < sq.len() ==> 0 <= #[trigger] sq[k] <= limit,
            1 <= period <= i < typical@.len(),
            first == i + 1 - period,
            center == typical@[i as int],
            divisor == period,
            first <= j <= i + 1,
            window_sum(sq, first as int, j as int) == whole * divisor + rest,
            rest < divisor,
        decreases i + 1 - j,
    {
        proof {
            assert(in_price_range(t[j as int]));
            assert(in_price_range(t[i as int]));
            lemma_square_bound(t[j as int] - t[i as int]);
            assert(sq[j as int] == (t[j as int] - t[i as int]) * (t[j as int] - t[i as int]));
            lemma_window_sum_bounds(sq, first as int, j as int, 0, limit);
            lemma_mean_bound(whole as int, rest as int, divisor as int, j - first, limit);
        }
        let distance: i128 = (typical[j] as i128) - (center as i128);
        let square: u128 = (distance * distance) as u128;
        proof {
            lemma_fundamental_div_mod(square as int, divisor as int);
            vstd::arithmetic::div_mod::lemma_mod_bound(square as int, divisor as int);
            assert(divisor * 0 == 0 && divisor * limit >= limit) by (nonlinear_arith)
                requires
                    limit >= 0,
                    divisor >= 1,
            ;
            lemma_quotient_between(square as int, divisor as int, 0, limit);
            assert((whole + square / divisor) * divisor + (rest + square % divisor) == whole
                * divisor + rest + square) by (nonlinear_arith)
                requires
                    square == divisor * (square / divisor) + square % divisor,
            ;
            assert((whole + square / divisor + 1) * divisor + (rest + square % divisor - divisor)
                == whole * divisor + rest + square) by (nonlinear_arith)
                requires
                    square == divisor * (square / divisor) + square % divisor,
            ;
        }
        whole = whole + square / divisor;
        rest = rest + square % divisor;
        if rest >= divisor {
            whole = whole + 1;
            rest = rest - divisor;
        }
        j += 1;
    }
    proof {
        lemma_window_sum_bounds(sq, first as int, i + 1, 0, limit);
        lemma_mean_bound(whole as int, rest as int, divisor as int, i + 1 - first, limit);
        lemma_fundamental_div_mod_converse(
            window_sum(sq, first as int, i + 1),
            divisor as int,
            whole as int,
            rest as int,
        );
        lemma_sqrt_floor_bounds(whole as nat);
        let root = sqrt_floor(whole as nat);
        if root > 2 * PRICE_LIMIT {
            assert(root * root > 4 * PRICE_LIMIT * PRICE_LIMIT) by (nonlinear_arith)
                requires
                    root >= 2 * PRICE_LIMIT + 1,
            ;
        }
    }
    isqrt(whole) as i64
}

/// A sum of `count <= divisor` terms of at most `limit` each, held as
/// `whole * divisor + rest`, has `whole <= limit`.
proof fn lemma_mean_bound(whole: int, rest: int, divisor: int, count: int, limit: int)
    requires
        0 <= whole,
        0 <= rest,
        0 <= count <= divisor,
        1 <= divisor,
        0 <= limit,
        count * 0 <= whole * divisor + rest <= count * limit,
    ensures
        whole <= limit,
{
    if whole > limit {
        assert(whole * divisor >= limit * divisor + divisor) by (nonlinear_arith)
            requires
                whole >= limit + 1,
                1 <= divisor,
        ;
        assert(limit * divisor >= count * limit) by (nonlinear_arith)
            requires
                0 <= count <= divisor,
                0 <= limit,
        ;
    }
}

/// Bollinger bands of a series: upper, middle and lower band.
///
/// Where `bollinger_defined` holds, all three bands are as long as the series.
/// The middle band is the exponential moving average of the closing prices
/// and is not padded. The outer bands hold zero at the first `period`
/// positions; from position `period` on they lie `multiplier` standard
/// deviations above and below the last value of the middle band, the standard
/// deviation being that of the typical prices of the `period` bars ending at
/// the position, taken around that position's typical price. Otherwise all
/// three are empty. The multiplier may not exceed `BB_MAX_MULTIPLIER`.
pub fn calculate_bollinger_bands(series: &[Series], period: usize, std_dev: usize) -> (r: (
    VecDeque<i64>,
    VecDeque<i64>,
    VecDeque<i64>,
))
    requires
        std_dev <= BB_MAX_MULTIPLIER,
    ensures
        bollinger_defined(series@.len(), period as nat) ==> {
            &&& ints(r.0@) == bollinger_upper(
                highs(series@),
                lows(series@),
                closes(series@),
                period as nat,
                std_dev as nat,
            )
            &&& ints(r.1@) == bollinger_middle(closes(series@), period as nat)
            &&& ints(r.2@) == bollinger_lower(
                highs(series@),
                lows(series@),
                closes(series@),
                period as nat,
                std_dev as nat,
            )
            &&& r.0@.len() == series@.len()
            &&& r.1@.len() == series@.len()
            &&& r.2@.len() == series@.len()
            &&& forall|i: int| 0 <= i < period ==> r.0@[i] == 0 && r.2@[i] == 0
        },
        !bollinger_defined(series@.len(), period as nat) ==> r.0@.len() == 0
            && r.1@.len() == 0 && r.2@.len() == 0,
{
    let n: usize = series.len();
    if period == 0 || n <= period {
        return (VecDeque::new(), VecDeque::new(), VecDeque::new());
    }
    let close = close_ticks(series);
    let high = high_ticks(series);
    let low = low_ticks(series);
    let ghost c = closes(series@);
    let ghost h = highs(series@);
    let ghost l = lows(series@);
    assert(ints(close@).len() == close@.len());
    assert(ints(high@).len() == high@.len());
    assert(ints(low@).len() == low@.len());
    assert(c.len() == n && h.len() == n && l.len() == n);

    let middle = calculate_ema_slice(close.as_slice(), period);
    assert(ints(middle@).len() == middle@.len());
    let center: i64 = middle[n - 1];
    proof {
        assert forall|j: int| 0 <= j <= n - 1 implies -PRICE_LIMIT <= #[trigger] c[j]
            <= PRICE_LIMIT by {
            assert(in_price_range(c[j]));
        }
        lemma_ema_between(c, period as nat, n - 1, -PRICE_LIMIT as int, PRICE_LIMIT as int);
        assert(ints(middle@)[n - 1] == middle@[n - 1]);
        assert(center == bollinger_center(c, period as nat));
    }
    let typical = typical_ticks(high.as_slice(), low.as_slice(), close.as_slice());
    let ghost t = typical_prices(h, l, c);
    assert(ints(typical@).len() == typical@.len());

    let mut upper: VecDeque<i64> = VecDeque::new();
    let mut lower: VecDeque<i64> = VecDeque::new();
    let ghost up = bollinger_upper(h, l, c, period as nat, std_dev as nat);
    let ghost down = bollinger_lower(h, l, c, period as nat, std_dev as nat);
    let mut i: usize = 0;
    while i < n
        invariant
            n == series@.len(),
            c.len() == n,
            t == typical_prices(h, l, c),
            t == ints(typical@),
            typical@.len() == n,
            all_in_price_range(t),
            1 <= period < n,
            std_dev <= BB_MAX_MULTIPLIER,
            center == bollinger_center(c, period as nat),
            in_price_range(center as int),
            up == bollinger_upper(h, l, c, period as nat, std_dev as nat),
            down == bollinger_lower(h, l, c, period as nat, std_dev as nat),
            i <= n,
            upper@.len() == i,
            lower@.len() == i,
            forall|j: int| 0 <= j < i ==> upper@[j] as int == up[j],
            forall|j: int| 0 <= j < i ==> lower@[j] as int == down[j],
            forall|j: int| 0 <= j < i && j < period ==> upper@[j] == 0 && lower@[j] == 0,
        decreases n - i,
    {
        if i >= period {
            let spread: i64 = deviation(typical.as_slice(), period, i);
            proof {
                assert(0 <= std_dev * spread <= BB_MAX_MULTIPLIER * (2 * PRICE_LIMIT))
                    by (nonlinear_arith)
                    requires
                        0 <= std_dev <= BB_MAX_MULTIPLIER,
                        0 <= spread <= 2 * PRICE_LIMIT,
                ;
            }
            let offset: i64 = (std_dev as i64) * spread;
            upper.push_back(center + offset);
            lower.push_back(center - offset);
        } else {
            upper.push_back(0);
            lower.push_back(0);
        }
        i += 1;
    }
    assert(ints(upper@) =~= up);
    assert(ints(lower@) =~= down);
    (upper, middle, lower)
}

} // verus!

//! Fixed-point prices and the integer arithmetic the indicators are built on.

use vstd::arithmetic::div_mod::{lemma_fundamental_div_mod, lemma_fundamental_div_mod_converse};
use vstd::prelude::*;

verus! {

/// Ticks in one whole unit of price: four decimal places.
pub const SCALE: i64 = 10_000;

/// Largest magnitude, in ticks, that a price may have.
pub const PRICE_LIMIT: i64 = 1_000_000_000_000;

/// Whether `ticks` is a magnitude that a price may have.
pub open spec fn in_price_range(ticks: int) -> bool {
    -PRICE_LIMIT <= ticks <= PRICE_LIMIT
}

/// A price in ticks, never beyond `PRICE_LIMIT` in either direction.
#[derive(Clone, Copy, Debug)]
pub struct Price {
    ticks: i64,
}

impl View for Price {
    type V = int;

    closed spec fn view(&self) -> int {
        self.ticks as int
    }
}

impl Price {
    #[verifier::type_invariant]
    spec fn bounded(self) -> bool {
        in_price_range(self.ticks as int)
    }

    /// The price of `ticks` ticks.
    pub closed spec fn of_ticks(ticks: int) -> Price {
        Price { ticks: ticks as i64 }
    }

    /// The price of some ticks is a price of that many ticks, and the only one.
    pub proof fn lemma_of_ticks(self)
        ensures
            self == Price::of_ticks(self@),
            i64::MIN <= self@ <= i64::MAX,
    {
    }

    /// The price of `ticks` ticks, if that is within range.
    pub fn from_ticks(ticks: i64) -> (r: Option<Price>)
        ensures
            r is Some <==> in_price_range(ticks as int),
            r matches Some(p) ==> p@ == ticks && p == Price::of_ticks(ticks as int),
    {
        if -PRICE_LIMIT <= ticks && ticks <= PRICE_LIMIT {
            Some(Price { ticks })
        } else {
            None
        }
    }

    /// The price of nothing.
    pub fn zero() -> (r: Price)
        ensures
            r@ == 0,
    {
        Price { ticks: 0 }
    }

    /// The price in ticks.
    pub fn ticks(&self) -> (r: i64)
        ensures
            r == self@,
            in_price_range(r as int),
    {
        proof {
            use_type_invariant(self);
        }
        self.ticks
    }
}

/// `a / b` rounded towards minus infinity.
pub fn div_floor(a: i128, b: i128) -> (q: i128)
    requires
        b > 0,
    ensures
        q == a as int / b as int,
{
    if a >= 0 {
        a / b
    } else {
        let below: i128 = -(a + 1);
        let k: i128 = below / b;
        proof {
            let s = below as int % b as int;
            lemma_fundamental_div_mod(below as int, b as int);
            assert(a as int == (-k - 1) * b + (b - s - 1)) by (nonlinear_arith)
                requires
                    below == b * k + s,
                    below == -(a + 1),
            ;
            lemma_fundamental_div_mod_converse(a as int, b as int, -k - 1, b - s - 1);
        }
        -k - 1
    }
}

/// The largest natural number whose square does not exceed `n`.
pub open spec fn sqrt_floor(n: nat) -> nat
    decreases n,
{
    if n == 0 {
        0
    } else {
        let r = sqrt_floor((n - 1) as nat);
        if (r + 1) * (r + 1) <= n {
            r + 1
        } else {
            r
        }
    }
}

/// `sqrt_floor(n)` squared is at most `n`, and the next square is beyond it.
pub proof fn lemma_sqrt_floor_bounds(n: nat)
    ensures
        sqrt_floor(n) * sqrt_floor(n) <= n,
        n < (sqrt_floor(n) + 1) * (sqrt_floor(n) + 1),
    decreases n,
{
    let s = sqrt_floor(n);
    if n > 0 {
        lemma_sqrt_floor_bounds((n - 1) as nat);
        let r = sqrt_floor((n - 1) as nat);
        if (r + 1) * (r + 1) <= n {
            assert(s * s <= n && n < (s + 1) * (s + 1)) by (nonlinear_arith)
                requires
                    s == r + 1,
                    (r + 1) * (r + 1) <= n,
                    n - 1 < (r + 1) * (r + 1),
            ;
        } else {
            assert(s * s <= n && n < (s + 1) * (s + 1)) by (nonlinear_arith)
                requires
                    s == r,
                    r * r <= n - 1,
                    n < (r + 1) * (r + 1),
            ;
        }
    } else {
        assert(s * s <= n && n < (s + 1) * (s + 1)) by (nonlinear_arith)
            requires
                s == 0,
                n == 0,
        ;
    }
}

/// Only one natural number lies between the bounds of `lemma_sqrt_floor_bounds`.
pub proof fn lemma_sqrt_floor_unique(n: nat, r: nat)
    requires
        r * r <= n,
        n < (r + 1) * (r + 1),
    ensures
        r == sqrt_floor(n),
{
    lemma_sqrt_floor_bounds(n);
    let s = sqrt_floor(n);
    if r < s {
        assert((r + 1) * (r + 1) <= s * s) by (nonlinear_arith)
            requires
                r + 1 <= s,
        ;
    }
    if s < r {
        assert((s + 1) * (s + 1) <= r * r) by (nonlinear_arith)
            requires
                s + 1 <= r,
        ;
    }
}

/// Integer square root, rounded down.
pub fn isqrt(n: u128) -> (r: u128)
    ensures
        r == sqrt_floor(n as nat),
{
    let mut lo: u128 = 0;
    let mut hi: u128 = 0x1_0000_0000_0000_0000;
    assert(0x1_0000_0000_0000_0000int * 0x1_0000_0000_0000_0000int > n) by (nonlinear_arith)
        requires
            n <= u128::MAX,
    ;
    while hi - lo > 1
        invariant
            lo < hi <= 0x1_0000_0000_0000_0000,
            lo * lo <= n,
            n < hi * hi,
        decreases hi - lo,
    {
        let mid: u128 = lo + (hi - lo) / 2;
        assert(mid * mid < 0x1_0000_0000_0000_0000int * 0x1_0000_0000_0000_0000int)
            by (nonlinear_arith)
            requires
                0 <= mid < 0x1_0000_0000_0000_0000int,
        ;
        if mid * mid <= n {
            lo = mid;
        } else {
            hi = mid;
        }
    }
    proof {
        lemma_sqrt_floor_unique(n as nat, lo as nat);
    }
    lo
}

} // verus!

verus! {

/// The sum of `v[from]`, ..., `v[to - 1]`.
pub open spec fn window_sum(v: Seq<int>, from: int, to: int) -> int
    decreases to - from,
{
    if from >= to {
        0
    } else {
        window_sum(v, from, to - 1) + v[to - 1]
    }
}

/// Dropping the first element of a window takes it off the sum.
pub proof fn lemma_window_sum_drop_first(v: Seq<int>, from: int, to: int)
    requires
        from < to,
    ensures
        window_sum(v, from, to) == v[from] + window_sum(v, from + 1, to),
    decreases to - from,
{
    if from + 1 < to {
        lemma_window_sum_drop_first(v, from, to - 1);
    } else {
        assert(window_sum(v, from, to - 1) == 0);
        assert(window_sum(v, from + 1, to) == 0);
    }
}

/// A sum lies between its length times a lower and an upper bound of its terms.
pub proof fn lemma_window_sum_bounds(v: Seq<int>, from: int, to: int, lo: int, hi: int)
    requires
        0 <= from <= to <= v.len(),
        forall|j: int| from <= j < to ==> lo <= #[trigger] v[j] <= hi,
    ensures
        (to - from) * lo <= window_sum(v, from, to) <= (to - from) * hi,
    decreases to - from,
{
    if from < to {
        lemma_window_sum_bounds(v, from, to - 1, lo, hi);
        assert(lo <= v[to - 1] <= hi);
        assert((to - from) * lo == (to - 1 - from) * lo + lo) by (nonlinear_arith);
        assert((to - from) * hi == (to - 1 - from) * hi + hi) by (nonlinear_arith);
    } else {
        assert((to - from) * lo == 0 && (to - from) * hi == 0) by (nonlinear_arith)
            requires
                to - from == 0,
        ;
    }
}

/// A quotient lies between the bounds that its dividend has per unit of the divisor.
pub proof fn lemma_quotient_between(x: int, d: int, lo: int, hi: int)
    requires
        d > 0,
        d * lo <= x <= d * hi,
    ensures
        lo <= x / d <= hi,
{
    lemma_fundamental_div_mod(x, d);
    let q = x / d;
    let r = x % d;
    assert(0 <= r < d) by {
        vstd::arithmetic::div_mod::lemma_mod_bound(x, d);
    }
    if q < lo {
        assert(d * q + r < d * lo) by (nonlinear_arith)
            requires
                q + 1 <= lo,
                0 <= r < d,
        ;
    }
    if q > hi {
        assert(d * q + r > d * hi) by (nonlinear_arith)
            requires
                q >= hi + 1,
                0 <= r < d,
                d > 0,
        ;
    }
}

} // verus!

verus! {

/// The quotient of `x` by a divisor other than zero, rounded towards minus infinity.
pub open spec fn floor_quotient(x: int, d: int) -> int {
    if d > 0 {
        x / d
    } else {
        (-x) / (-d)
    }
}

/// `floor_quotient` for a divisor of either sign.
pub fn div_floor_signed(x: i128, d: i128) -> (q: i128)
    requires
        d != 0,
        x > i128::MIN,
        d > i128::MIN,
    ensures
        q == floor_quotient(x as int, d as int),
{
    if d > 0 {
        div_floor(x, d)
    } else {
        div_floor(-x, -d)
    }
}

/// A quotient is no larger in magnitude than its dividend.
pub proof fn lemma_floor_quotient_magnitude(x: int, d: int, bound: int)
    requires
        d != 0,
        -bound <= x <= bound,
    ensures
        -bound <= floor_quotient(x, d) <= bound,
{
    if d > 0 {
        assert(d * (-bound) <= x <= d * bound) by (nonlinear_arith)
            requires
                d >= 1,
                -bound <= x <= bound,
        ;
        lemma_quotient_between(x, d, -bound, bound);
    } else {
        assert((-d) * (-bound) <= -x <= (-d) * bound) by (nonlinear_arith)
            requires
                -d >= 1,
                -bound <= x <= bound,
        ;
        lemma_quotient_between(-x, -d, -bound, bound);
    }
}

/// The smallest of `v[from]`, ..., `v[to - 1]`.
pub open spec fn window_min(v: Seq<int>, from: int, to: int) -> int
    decreases to - from,
{
    if to - from <= 1 {
        v[from]
    } else {
        let rest = window_min(v, from, to - 1);
        if v[to - 1] < rest {
            v[to - 1]
        } else {
            rest
        }
    }
}

/// The largest of `v[from]`, ..., `v[to - 1]`.
pub open spec fn window_max(v: Seq<int>, from: int, to: int) -> int
    decreases to - from,
{
    if to - from <= 1 {
        v[from]
    } else {
        let rest = window_max(v, from, to - 1);
        if v[to - 1] > rest {
            v[to - 1]
        } else {
            rest
        }
    }
}

/// The smallest value of a window is one of its values and none is below it.
pub proof fn lemma_window_min(v: Seq<int>, from: int, to: int)
    requires
        0 <= from < to <= v.len(),
    ensures
        exists|j: int| from <= j < to && v[j] == window_min(v, from, to),
        forall|j: int| from <= j < to ==> window_min(v, from, to) <= #[trigger] v[j],
    decreases to - from,
{
    if to - from > 1 {
        lemma_window_min(v, from, to - 1);
        let j = choose|j: int| from <= j < to - 1 && v[j] == window_min(v, from, to - 1);
        if v[to - 1] < window_min(v, from, to - 1) {
            assert(v[to - 1] == window_min(v, from, to));
        } else {
            assert(v[j] == window_min(v, from, to));
        }
    } else {
        assert(v[from] == window_min(v, from, to));
    }
}

/// The largest value of a window is one of its values and none is above it.
pub proof fn lemma_window_max(v: Seq<int>, from: int, to: int)
    requires
        0 <= from < to <= v.len(),
    ensures
        exists|j: int| from <= j < to && v[j] == window_max(v, from, to),
        forall|j: int| from <= j < to ==> window_max(v, from, to) >= #[trigger] v[j],
    decreases to - from,
{
    if to - from > 1 {
        lemma_window_max(v, from, to - 1);
        let j = choose|j: int| from <= j < to - 1 && v[j] == window_max(v, from, to - 1);
        if v[to - 1] > window_max(v, from, to - 1) {
            assert(v[to - 1] == window_max(v, from, to));
        } else {
            assert(v[j] == window_max(v, from, to));
        }
    } else {
        assert(v[from] == window_max(v, from, to));
    }
}

} // verus!

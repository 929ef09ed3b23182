//! Moving average convergence/divergence.

use crate::client::{all_in_price_range, close_ticks, closes, ints, Series};
use crate::fixed::{in_price_range, PRICE_LIMIT};
use crate::indicators::ema::{calculate_ema_slice, ema_at, ema_values, lemma_ema_between};
use std::collections::VecDeque;
use vstd::prelude::*;

verus! {

/// Whether a series of `len` bars has a MACD of these periods: the periods
/// are positive and increase from fast over slow to signal, and the signal
/// period is shorter than the series.
pub open spec fn macd_defined(len: nat, fast: nat, slow: nat, signal: nat) -> bool {
    1 <= fast && fast < slow && slow < signal && signal < len
}

/// The MACD line: the fast average less the slow one, position by position.
pub open spec fn macd_line(v: Seq<int>, fast: nat, slow: nat) -> Seq<int> {
    Seq::new(v.len(), |i: int| ema_at(v, fast, i) - ema_at(v, slow, i))
}

/// The signal line: the exponential moving average of the MACD line itself.
pub open spec fn macd_signal(v: Seq<int>, fast: nat, slow: nat, signal: nat) -> Seq<int> {
    ema_values(macd_line(v, fast, slow), signal)
}

/// The histogram: the MACD line less the signal line, position by position.
pub open spec fn macd_histogram(v: Seq<int>, fast: nat, slow: nat, signal: nat) -> Seq<int> {
    Seq::new(
        v.len(),
        |i: int| macd_line(v, fast, slow)[i] - ema_at(macd_line(v, fast, slow), signal, i),
    )
}

/// Moving average convergence/divergence of the closing prices.
///
/// Where `macd_defined` holds, the three outputs are the MACD line, the signal
/// line and the histogram, each as long as the series and none padded.
/// Otherwise all three are empty.
pub fn calculate_macd(series: &[Series], fast: usize, slow: usize, signal: usize) -> (r: (
    VecDeque<i64>,
    VecDeque<i64>,
    VecDeque<i64>,
))
    ensures
        macd_defined(series@.len(), fast as nat, slow as nat, signal as nat) ==> {
            &&& ints(r.0@) == macd_line(closes(series@), fast as nat, slow as nat)
            &&& ints(r.1@) == macd_signal(closes(series@), fast as nat, slow as nat, signal as nat)
            &&& ints(r.2@) == macd_histogram(
                closes(series@),
                fast as nat,
                slow as nat,
                signal as nat,
            )
            &&& r.0@.len() == series@.len()
            &&& r.1@.len() == series@.len()
            &&& r.2@.len() == series@.len()
        },
        !macd_defined(series@.len(), fast as nat, slow as nat, signal as nat) ==> r.0@.len() == 0
            && r.1@.len() == 0 && r.2@.len() == 0,
{
    let n: usize = series.len();
    if fast == 0 || fast >= slow || slow >= signal || signal >= n {
        return (VecDeque::new(), VecDeque::new(), VecDeque::new());
    }
    let values = close_ticks(series);
    let ghost v = closes(series@);
    assert(ints(values@).len() == values@.len());
    let fast_ema = calculate_ema_slice(values.as_slice(), fast);
    let slow_ema = calculate_ema_slice(values.as_slice(), slow);
    assert(ints(fast_ema@).len() == fast_ema@.len());
    assert(ints(slow_ema@).len() == slow_ema@.len());

    let mut line: Vec<i64> = Vec::with_capacity(n);
    let mut macd: VecDeque<i64> = VecDeque::new();
    let mut i: usize = 0;
    while i < n
        invariant
            n == series@.len(),
            v == closes(series@),
            v == ints(values@),
            all_in_price_range(v),
            fast >= 1,
            slow >= 1,
            ints(fast_ema@) == ema_values(v, fast as nat),
            ints(slow_ema@) == ema_values(v, slow as nat),
            fast_ema@.len() == n,
            slow_ema@.len() == n,
            i <= n,
            line@.len() == i,
            macd@ == line@,
            forall|j: int| 0 <= j < i ==> line@[j] as int == macd_line(v, fast as nat, slow as nat)[j],
            forall|j: int| 0 <= j < i ==> -2 * PRICE_LIMIT <= #[trigger] line@[j] <= 2 * PRICE_LIMIT,
        decreases n - i,
    {
        proof {
            assert forall|j: int| 0 <= j <= i implies -PRICE_LIMIT <= #[trigger] v[j]
                <= PRICE_LIMIT by {
                assert(in_price_range(v[j]));
            }
            lemma_ema_between(v, fast as nat, i as int, -PRICE_LIMIT as int, PRICE_LIMIT as int);
            lemma_ema_between(v, slow as nat, i as int, -PRICE_LIMIT as int, PRICE_LIMIT as int);
            assert(ints(fast_ema@)[i as int] == fast_ema@[i as int]);
            assert(ints(slow_ema@)[i as int] == slow_ema@[i as int]);
        }
        let difference: i64 = fast_ema[i] - slow_ema[i];
        line.push(difference);
        macd.push_back(difference);
        i += 1;
    }
    let ghost m = macd_line(v, fast as nat, slow as nat);
    assert(ints(line@) =~= m);

    let signal_line = calculate_ema_slice(line.as_slice(), signal);
    assert(ints(signal_line@).len() == signal_line@.len());

    let mut histogram: VecDeque<i64> = VecDeque::new();
    let mut k: usize = 0;
    while k < n
        invariant
            n == series@.len(),
            v.len() == n,
            m == macd_line(v, fast as nat, slow as nat),
            m == ints(line@),
            line@.len() == n,
            signal >= 1,
            forall|j: int| 0 <= j < n ==> -2 * PRICE_LIMIT <= #[trigger] line@[j] <= 2 * PRICE_LIMIT,
            ints(signal_line@) == ema_values(m, signal as nat),
            signal_line@.len() == n,
            k <= n,
            histogram@.len() == k,
            forall|j: int|
                0 <= j < k ==> histogram@[j] as int == macd_histogram(
                    v,
                    fast as nat,
                    slow as nat,
                    signal as nat,
                )[j],
        decreases n - k,
    {
        proof {
            assert forall|j: int| 0 <= j <= k implies -2 * PRICE_LIMIT <= #[trigger] m[j] <= 2
                * PRICE_LIMIT by {
                assert(m[j] == line@[j]);
            }
            lemma_ema_between(m, signal as nat, k as int, -2 * PRICE_LIMIT, 2 * PRICE_LIMIT);
            assert(ints(signal_line@)[k as int] == signal_line@[k as int]);
            assert(m[k as int] == line@[k as int]);
        }
        let bar: i64 = line[k] - signal_line[k];
        histogram.push_back(bar);
        k += 1;
    }
    assert(ints(macd@) =~= m);
    assert(ints(histogram@) =~= macd_histogram(v, fast as nat, slow as nat, signal as nat));
    (macd, signal_line, histogram)
}

} // verus!

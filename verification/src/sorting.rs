//! Bars in the order of their dates.

use crate::client::{date_before, Date, Series};
use vstd::prelude::*;
use vstd::seq_lib::{to_multiset_build, to_multiset_insert};

verus! {

/// Where a bar of `date` goes into bars that are in order: behind the last
/// bar that is not later than it.
pub open spec fn insertion_point(sorted: Seq<Series>, date: Date) -> int
    decreases sorted.len(),
{
    if sorted.len() == 0 {
        0
    } else if date_before(date, sorted.last().date) {
        insertion_point(sorted.drop_last(), date)
    } else {
        sorted.len() as int
    }
}

/// The bars in ascending order of date; bars of the same date stay in the
/// order in which they came.
pub open spec fn sorted_by_date(bars: Seq<Series>) -> Seq<Series>
    decreases bars.len(),
{
    if bars.len() == 0 {
        bars
    } else {
        let earlier = sorted_by_date(bars.drop_last());
        earlier.insert(insertion_point(earlier, bars.last().date), bars.last())
    }
}

/// Whether no bar is earlier than a bar before it.
pub open spec fn in_date_order(bars: Seq<Series>) -> bool {
    forall|i: int, j: int| 0 <= i < j < bars.len() ==> !date_before(bars[j].date, bars[i].date)
}

/// The insertion point lies within the bars; no bar before it is later than
/// the date, and every bar from it on is.
pub proof fn lemma_insertion_point(sorted: Seq<Series>, date: Date)
    requires
        in_date_order(sorted),
    ensures
        0 <= insertion_point(sorted, date) <= sorted.len(),
        forall|i: int|
            0 <= i < insertion_point(sorted, date) ==> !date_before(date, #[trigger] sorted[i].date),
        forall|i: int|
            insertion_point(sorted, date) <= i < sorted.len() ==> date_before(
                date,
                #[trigger] sorted[i].date,
            ),
    decreases sorted.len(),
{
    if sorted.len() > 0 {
        let front = sorted.drop_last();
        assert forall|i: int, j: int| 0 <= i < j < front.len() implies !date_before(
            front[j].date,
            front[i].date,
        ) by {
            assert(front[i] == sorted[i] && front[j] == sorted[j]);
        }
        lemma_insertion_point(front, date);
        if !date_before(date, sorted.last().date) {
            assert forall|i: int| 0 <= i < sorted.len() implies !date_before(
                date,
                #[trigger] sorted[i].date,
            ) by {
                if i < sorted.len() - 1 {
                    assert(!date_before(sorted.last().date, sorted[i].date));
                }
            }
        } else {
            assert forall|i: int| 0 <= i < insertion_point(sorted, date) implies !date_before(
                date,
                #[trigger] sorted[i].date,
            ) by {
                assert(front[i] == sorted[i]);
            }
            assert forall|i: int|
                insertion_point(sorted, date) <= i < sorted.len() implies date_before(
                date,
                #[trigger] sorted[i].date,
            ) by {
                if i < sorted.len() - 1 {
                    assert(front[i] == sorted[i]);
                }
            }
        }
    }
}

/// Sorting by date keeps every bar, as often as it occurred, and puts the
/// bars in order.
pub proof fn lemma_sorted_by_date(bars: Seq<Series>)
    ensures
        sorted_by_date(bars).len() == bars.len(),
        sorted_by_date(bars).to_multiset() == bars.to_multiset(),
        in_date_order(sorted_by_date(bars)),
    decreases bars.len(),
{
    if bars.len() > 0 {
        let front = bars.drop_last();
        let last = bars.last();
        lemma_sorted_by_date(front);
        let earlier = sorted_by_date(front);
        lemma_insertion_point(earlier, last.date);
        let at = insertion_point(earlier, last.date);
        let result = earlier.insert(at, last);
        to_multiset_insert(earlier, at, last);
        to_multiset_build(front, last);
        assert(front.push(last) =~= bars);
        assert forall|i: int, j: int| 0 <= i < j < result.len() implies !date_before(
            result[j].date,
            result[i].date,
        ) by {
            if j < at {
                assert(result[i] == earlier[i] && result[j] == earlier[j]);
            } else if j == at {
                assert(result[i] == earlier[i]);
            } else if i < at {
                assert(result[i] == earlier[i] && result[j] == earlier[j - 1]);
            } else if i == at {
                assert(result[j] == earlier[j - 1]);
                assert(date_before(last.date, earlier[j - 1].date));
            } else {
                assert(result[i] == earlier[i - 1] && result[j] == earlier[j - 1]);
            }
        }
    } else {
        assert(sorted_by_date(bars) =~= bars);
    }
}

/// The bars in ascending order of date; bars of the same date stay in the
/// order in which they came.
pub fn sort_by_date(bars: Vec<Series>) -> (r: Vec<Series>)
    ensures
        r@ == sorted_by_date(bars@),
        r@.len() == bars@.len(),
        r@.to_multiset() == bars@.to_multiset(),
        in_date_order(r@),
{
    let mut out: Vec<Series> = Vec::with_capacity(bars.len());
    let mut i: usize = 0;
    while i < bars.len()
        invariant
            i <= bars@.len(),
            out@ == sorted_by_date(bars@.take(i as int)),
            out@.len() == i,
        decreases bars@.len() - i,
    {
        let bar = bars[i];
        let mut at: usize = out.len();
        assert(out@.take(at as int) =~= out@);
        while at > 0 && bar.date.is_before(&out[at - 1].date)
            invariant
                at <= out@.len(),
                insertion_point(out@, bar.date) == insertion_point(out@.take(at as int), bar.date),
            decreases at,
        {
            proof {
                assert(out@.take(at as int).drop_last() =~= out@.take(at - 1));
            }
            at -= 1;
        }
        proof {
            assert(out@.take(out@.len() as int) =~= out@);
            assert(bars@.take(i + 1).drop_last() =~= bars@.take(i as int));
            lemma_sorted_by_date(bars@.take(i as int));
            lemma_insertion_point(out@, bar.date);
        }
        out.insert(at, bar);
        i += 1;
    }
    proof {
        assert(bars@.take(i as int) =~= bars@);
        lemma_sorted_by_date(bars@);
    }
    out
}

} // verus!

//! A table of computed values by label, in the order in which the labels came.

use crate::text::same_text;
use vstd::prelude::*;

verus! {

/// Values by label. A label occurs once; storing under a label again
/// replaces its value and leaves its place in the order unchanged.
#[derive(Debug)]
pub struct LabelMap<V> {
    entries: Vec<(String, V)>,
}

impl<V> View for LabelMap<V> {
    type V = Map<Seq<char>, V>;

    closed spec fn view(&self) -> Map<Seq<char>, V> {
        Map::new(
            |label: Seq<char>| self.labels().contains(label),
            |label: Seq<char>| self.entries@[self.labels().index_of(label)].1,
        )
    }
}

impl<V> LabelMap<V> {
    /// The labels in the order in which each was first stored.
    pub closed spec fn labels(&self) -> Seq<Seq<char>> {
        Seq::new(self.entries@.len(), |i: int| self.entries@[i].0@)
    }

    #[verifier::type_invariant]
    spec fn distinct(&self) -> bool {
        self.labels().no_duplicates()
    }

    /// The labels are the keys of the table.
    pub proof fn lemma_keys_are_labels(&self)
        ensures
            forall|label: Seq<char>| self@.contains_key(label) <==> self.labels().contains(label),
    {
    }

    /// An empty table.
    pub fn new() -> (r: Self)
        ensures
            r@ == Map::<Seq<char>, V>::empty(),
            r.labels() == Seq::<Seq<char>>::empty(),
    {
        let r = LabelMap { entries: Vec::new() };
        assert(r.labels() =~= Seq::<Seq<char>>::empty());
        assert(r@ =~= Map::<Seq<char>, V>::empty());
        r
    }

    /// The number of labels.
    pub fn len(&self) -> (r: usize)
        ensures
            r == self.labels().len(),
    {
        self.entries.len()
    }

    /// Whether the table holds nothing.
    pub fn is_empty(&self) -> (r: bool)
        ensures
            r == (self.labels().len() == 0),
    {
        self.entries.len() == 0
    }

    /// The place of `label` among the labels, or their number if it is not there.
    fn find(&self, label: &str) -> (r: usize)
        ensures
            r <= self.labels().len(),
            r < self.labels().len() ==> self.labels()[r as int] == label@,
            r == self.labels().len() ==> !self.labels().contains(label@),
            r < self.labels().len() <==> self@.contains_key(label@),
            r < self.labels().len() ==> self@[label@] == self.entries@[r as int].1,
    {
        proof {
            use_type_invariant(self);
        }
        let mut i: usize = 0;
        while i < self.entries.len()
            invariant
                i <= self.entries@.len(),
                forall|j: int| 0 <= j < i ==> self.labels()[j] != label@,
                self.labels().no_duplicates(),
            decreases self.entries@.len() - i,
        {
            if same_text(self.entries[i].0.as_str(), label) {
                proof {
                    assert(self.labels()[i as int] == label@);
                    assert(self.labels().contains(label@));
                    let k = self.labels().index_of(label@);
                    assert(k == i);
                }
                return i;
            }
            i += 1;
        }
        i
    }

    /// Whether a value is stored under `label`.
    pub fn contains_key(&self, label: &str) -> (r: bool)
        ensures
            r == self@.contains_key(label@),
    {
        self.find(label) < self.entries.len()
    }

    /// The value stored under `label`.
    pub fn get(&self, label: &str) -> (r: Option<&V>)
        ensures
            r is Some <==> self@.contains_key(label@),
            r matches Some(v) ==> *v == self@[label@],
    {
        let at = self.find(label);
        if at < self.entries.len() {
            Some(&self.entries[at].1)
        } else {
            None
        }
    }

    /// The label at place `i` of the order.
    pub fn label_at(&self, i: usize) -> (r: &String)
        requires
            i < self.labels().len(),
        ensures
            r@ == self.labels()[i as int],
    {
        &self.entries[i].0
    }

    /// The value of the label at place `i` of the order.
    pub fn value_at(&self, i: usize) -> (r: &V)
        requires
            i < self.labels().len(),
        ensures
            self@.contains_key(self.labels()[i as int]),
            *r == self@[self.labels()[i as int]],
    {
        proof {
            use_type_invariant(self);
            let label = self.labels()[i as int];
            assert(self.labels().contains(label));
            assert(self.labels().index_of(label) == i);
        }
        &self.entries[i].1
    }

    /// The table with `value` stored under `label`. A value that was there is
    /// replaced, and the label keeps its place; a new label goes to the end.
    pub fn insert(self, label: String, value: V) -> (r: Self)
        ensures
            r@ == self@.insert(label@, value),
            r.labels() == if self@.contains_key(label@) {
                self.labels()
            } else {
                self.labels().push(label@)
            },
    {
        proof {
            use_type_invariant(&self);
        }
        let ghost key = label@;
        let at = self.find(label.as_str());
        let mut entries = self.entries;
        if at < entries.len() {
            entries.set(at, (label, value));
            proof {
                let after = Seq::new(entries@.len(), |i: int| entries@[i].0@);
                assert(after =~= self.labels());
            }
            let r = LabelMap { entries };
            proof {
                assert(r.labels() =~= self.labels());
                assert forall|k: Seq<char>| r@.contains_key(k) implies #[trigger] r@[k]
                    == self@.insert(key, value)[k] by {
                    let p = r.labels().index_of(k);
                    assert(r.labels()[p] == k);
                    if k != key {
                        assert(p != at);
                    } else {
                        assert(p == at);
                    }
                }
                assert(r@ =~= self@.insert(key, value));
            }
            r
        } else {
            entries.push((label, value));
            proof {
                let after = Seq::new(entries@.len(), |i: int| entries@[i].0@);
                assert(after =~= self.labels().push(key));
                assert forall|a: int, b: int|
                    0 <= a < after.len() && 0 <= b < after.len() && a != b implies after[a]
                    != after[b] by {
                    if a < self.labels().len() {
                        assert(self.labels().contains(after[a]));
                    }
                    if b < self.labels().len() {
                        assert(self.labels().contains(after[b]));
                    }
                }
            }
            let r = LabelMap { entries };
            proof {
                assert(r.labels() =~= self.labels().push(key));
                assert forall|k: Seq<char>| r@.contains_key(k) implies #[trigger] r@[k]
                    == self@.insert(key, value)[k] by {
                    let p = r.labels().index_of(k);
                    assert(r.labels()[p] == k);
                    if k != key {
                        assert(p < self.labels().len());
                        assert(self.labels()[p] == k);
                        assert(self.labels().contains(k));
                        assert(self.labels().index_of(k) == p);
                    } else {
                        assert(p == at);
                    }
                }
                assert forall|k: Seq<char>| self@.insert(key, value).contains_key(k)
                    implies r@.contains_key(k) by {
                    if k != key {
                        let p = self.labels().index_of(k);
                        assert(self.labels()[p] == k);
                        assert(r.labels()[p] == k);
                    } else {
                        assert(r.labels()[at as int] == k);
                    }
                }
                assert(r@ =~= self@.insert(key, value));
            }
            r
        }
    }

    /// The labels, in order.
    pub fn keys(&self) -> (r: Vec<String>)
        ensures
            r@.len() == self.labels().len(),
            forall|i: int| 0 <= i < r@.len() ==> r@[i]@ == self.labels()[i],
    {
        let mut out: Vec<String> = Vec::with_capacity(self.entries.len());
        let mut i: usize = 0;
        while i < self.entries.len()
            invariant
                i <= self.entries@.len(),
                out@.len() == i,
                forall|j: int| 0 <= j < i ==> out@[j]@ == self.labels()[j],
            decreases self.entries@.len() - i,
        {
            out.push(self.entries[i].0.clone());
            i += 1;
        }
        out
    }
}

} // verus!

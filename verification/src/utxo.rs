//! The unspent-outputs set: a mapping from output pointers to outputs.
//!
//! Entries are held in insertion order so that the persisted encoding is
//! deterministic; contracts speak of the derived mathematical map.
use vstd::prelude::*;

use crate::chain::{Dup, Output, OutputPointer, OutputPointerV, OutputV};

verus! {

/// No two entries share a key.
pub open spec fn entries_wf(s: Seq<(OutputPointerV, OutputV)>) -> bool {
    forall|i: int, j: int| 0 <= i < j < s.len() ==> s[i].0 != s[j].0
}

/// Some entry carries the key.
pub open spec fn has_key(s: Seq<(OutputPointerV, OutputV)>, k: OutputPointerV) -> bool {
    exists|i: int| 0 <= i < s.len() && s[i].0 == k
}

/// The mapping the entries stand for; a later entry would win, though
/// well-formed pools never hold a key twice.
pub open spec fn map_of(s: Seq<(OutputPointerV, OutputV)>) -> Map<OutputPointerV, OutputV>
    decreases s.len(),
{
    if s.len() == 0 {
        Map::empty()
    } else {
        map_of(s.drop_last()).insert(s.last().0, s.last().1)
    }
}

pub proof fn lemma_map_of_dom(s: Seq<(OutputPointerV, OutputV)>)
    ensures
        forall|k: OutputPointerV| #[trigger] map_of(s).dom().contains(k) <==> has_key(s, k),
    decreases s.len(),
{
    if s.len() == 0 {
    } else {
        let t = s.drop_last();
        lemma_map_of_dom(t);
        assert forall|k: OutputPointerV| #[trigger] map_of(s).dom().contains(k) implies has_key(
            s,
            k,
        ) by {
            if k == s.last().0 {
                assert(s[s.len() - 1].0 == k);
            } else {
                assert(map_of(t).dom().contains(k));
                let i = choose|i: int| 0 <= i < t.len() && t[i].0 == k;
                assert(s[i].0 == k);
            }
        }
        assert forall|k: OutputPointerV| has_key(s, k) implies #[trigger] map_of(
            s,
        ).dom().contains(k) by {
            let i = choose|i: int| 0 <= i < s.len() && s[i].0 == k;
            if i < s.len() - 1 {
                assert(t[i].0 == k);
            }
        }
    }
}

pub proof fn lemma_map_of_get(s: Seq<(OutputPointerV, OutputV)>, i: int)
    requires
        entries_wf(s),
        0 <= i < s.len(),
    ensures
        map_of(s).dom().contains(s[i].0),
        map_of(s)[s[i].0] == s[i].1,
    decreases s.len(),
{
    let t = s.drop_last();
    if i == s.len() - 1 {
    } else {
        lemma_map_of_get(t, i);
        assert(s.last().0 != s[i].0);
    }
}

pub proof fn lemma_map_of_remove(s: Seq<(OutputPointerV, OutputV)>, i: int)
    requires
        entries_wf(s),
        0 <= i < s.len(),
    ensures
        map_of(s.remove(i)) == map_of(s).remove(s[i].0),
    decreases s.len(),
{
    let k = s[i].0;
    let t = s.drop_last();
    if i == s.len() - 1 {
        assert(s.remove(i) =~= t);
        lemma_map_of_dom(t);
        assert(!has_key(t, k));
        assert(map_of(s).remove(k) =~= map_of(t));
    } else {
        lemma_map_of_remove(t, i);
        assert(s.remove(i).drop_last() =~= t.remove(i));
        assert(s.remove(i).last() == s.last());
        assert(map_of(s.remove(i)) == map_of(t.remove(i)).insert(s.last().0, s.last().1));
        assert(s.last().0 != k);
        assert(map_of(t).remove(k).insert(s.last().0, s.last().1) =~= map_of(t).insert(
            s.last().0,
            s.last().1,
        ).remove(k));
    }
}

/// The unspent-outputs pool. Every input of every consolidated transaction
/// must point at an entry present here at the moment of application.
#[derive(Clone, Debug, PartialEq, Eq)]
pub struct UnspentOutputsPool {
    pub entries: Vec<(OutputPointer, Output)>,
}

impl View for UnspentOutputsPool {
    type V = Seq<(OutputPointerV, OutputV)>;

    open spec fn view(&self) -> Seq<(OutputPointerV, OutputV)> {
        self.entries.deep_view()
    }
}

impl DeepView for UnspentOutputsPool {
    type V = Seq<(OutputPointerV, OutputV)>;

    open spec fn deep_view(&self) -> Seq<(OutputPointerV, OutputV)> {
        self@
    }
}

impl UnspentOutputsPool {
    /// The mapping from pointers to unspent outputs.
    pub open spec fn as_map(&self) -> Map<OutputPointerV, OutputV> {
        map_of(self@)
    }

    /// No key twice.
    pub open spec fn wf(&self) -> bool {
        entries_wf(self@)
    }

    /// The empty pool.
    pub fn new() -> (r: UnspentOutputsPool)
        ensures
            r.wf(),
            r.as_map() == Map::<OutputPointerV, OutputV>::empty(),
            r@.len() == 0,
    {
        UnspentOutputsPool { entries: Vec::new() }
    }

    /// The position of the entry with the given key, if any.
    fn find(&self, k: &OutputPointer) -> (r: Option<usize>)
        ensures
            r matches Some(i) ==> i < self@.len() && self@[i as int].0 == k@,
            r is None ==> !has_key(self@, k@),
    {
        let n = self.entries.len();
        let mut i: usize = 0;
        while i < n
            invariant
                n == self.entries.len(),
                i <= n,
                forall|j: int| 0 <= j < i ==> self@[j].0 != k@,
            decreases n - i,
        {
            if self.entries[i].0.eq_pointer(k) {
                return Some(i);
            }
            i += 1;
        }
        None
    }

    /// Whether the pointer is an unspent output.
    pub fn contains_key(&self, k: &OutputPointer) -> (r: bool)
        ensures
            r == self.as_map().dom().contains(k@),
    {
        proof {
            lemma_map_of_dom(self@);
        }
        self.find(k).is_some()
    }

    /// The output at the pointer, if unspent.
    pub fn get(&self, k: &OutputPointer) -> (r: Option<&Output>)
        requires
            self.wf(),
        ensures
            r matches Some(o) ==> self.as_map().dom().contains(k@) && self.as_map()[k@] == o@,
            r is None ==> !self.as_map().dom().contains(k@),
    {
        proof {
            lemma_map_of_dom(self@);
        }
        match self.find(k) {
            Some(i) => {
                proof {
                    lemma_map_of_get(self@, i as int);
                }
                Some(&self.entries[i].1)
            },
            None => None,
        }
    }

    /// Removes the entry at the pointer, if present.
    pub fn remove(&mut self, k: &OutputPointer)
        requires
            old(self).wf(),
        ensures
            final(self).wf(),
            final(self).as_map() == old(self).as_map().remove(k@),
            !has_key(final(self)@, k@),
    {
        proof {
            lemma_map_of_dom(self@);
        }
        match self.find(k) {
            Some(i) => {
                proof {
                    lemma_map_of_remove(self@, i as int);
                }
                let ghost pre = self@;
                self.entries.remove(i);
                proof {
                    assert(self@ =~= pre.remove(i as int));
                    assert forall|j: int| 0 <= j < self@.len() implies self@[j].0 != k@ by {
                        if j < i as int {
                            assert(pre[j].0 != pre[i as int].0);
                        } else {
                            assert(self@[j] == pre[j + 1]);
                            assert(pre[i as int].0 != pre[j + 1].0);
                        }
                    }
                }
            },
            None => {
                proof {
                    assert(self.as_map().remove(k@) =~= self.as_map());
                }
            },
        }
    }

    /// Inserts (or replaces) the output at the pointer.
    pub fn insert(&mut self, k: OutputPointer, v: Output)
        requires
            old(self).wf(),
        ensures
            final(self).wf(),
            final(self).as_map() == old(self).as_map().insert(k@, v@),
    {
        self.remove(&k);
        let ghost mid = self@;
        self.entries.push((k, v));
        proof {
            assert(self@ =~= mid.push((k@, v@)));
            assert(self@.drop_last() =~= mid);
            assert(map_of(self@) == map_of(mid).insert(k@, v@));
            assert(map_of(mid).insert(k@, v@) =~= old(self).as_map().insert(k@, v@));
            assert forall|i: int, j: int| 0 <= i < j < self@.len() implies self@[i].0
                != self@[j].0 by {
                if j == self@.len() - 1 {
                    assert(!has_key(mid, k@));
                }
            }
        }
    }

    /// How many outputs are unspent.
    pub fn len(&self) -> (r: usize)
        ensures
            r == self@.len(),
    {
        self.entries.len()
    }
}

impl Dup for UnspentOutputsPool {
    fn dup(&self) -> (r: UnspentOutputsPool)
        ensures
            r@ == self@,
    {
        let entries = crate::chain::dup_vec(&self.entries);
        proof {
            assert forall|i: int| 0 <= i < entries@.len() implies entries.deep_view()[i]
                == self.entries.deep_view()[i] by {
                assert(entries@[i]@ == self.entries@[i]@);
                assert(entries@[i].deep_view() == entries@[i]@);
                assert(self.entries@[i].deep_view() == self.entries@[i]@);
            }
            assert(entries.deep_view() =~= self.entries.deep_view());
        }
        UnspentOutputsPool { entries }
    }
}

} // verus!

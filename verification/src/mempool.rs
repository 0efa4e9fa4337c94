//! The mempool: validated transactions waiting to be consolidated, keyed by
//! their identity hash.
use vstd::prelude::*;

use crate::chain::{Dup, Transaction, TransactionV};

verus! {

/// No two entries share a key.
pub open spec fn tx_entries_wf(s: Seq<(Seq<u8>, TransactionV)>) -> bool {
    forall|i: int, j: int| 0 <= i < j < s.len() ==> s[i].0 != s[j].0
}

/// Some entry carries the key.
pub open spec fn tx_has_key(s: Seq<(Seq<u8>, TransactionV)>, k: Seq<u8>) -> bool {
    exists|i: int| 0 <= i < s.len() && s[i].0 == k
}

/// The mapping from transaction hashes to transactions.
pub open spec fn tx_map_of(s: Seq<(Seq<u8>, TransactionV)>) -> Map<Seq<u8>, TransactionV>
    decreases s.len(),
{
    if s.len() == 0 {
        Map::empty()
    } else {
        tx_map_of(s.drop_last()).insert(s.last().0, s.last().1)
    }
}

pub proof fn lemma_tx_map_of_dom(s: Seq<(Seq<u8>, TransactionV)>)
    ensures
        forall|k: Seq<u8>| #[trigger] tx_map_of(s).dom().contains(k) <==> tx_has_key(s, k),
    decreases s.len(),
{
    if s.len() == 0 {
    } else {
        let t = s.drop_last();
        lemma_tx_map_of_dom(t);
        assert forall|k: Seq<u8>| #[trigger] tx_map_of(s).dom().contains(k) implies tx_has_key(
            s,
            k,
        ) by {
            if k == s.last().0 {
                assert(s[s.len() - 1].0 == k);
            } else {
                assert(tx_map_of(t).dom().contains(k));
                let i = choose|i: int| 0 <= i < t.len() && t[i].0 == k;
                assert(s[i].0 == k);
            }
        }
        assert forall|k: Seq<u8>| tx_has_key(s, k) implies #[trigger] tx_map_of(
            s,
        ).dom().contains(k) by {
            let i = choose|i: int| 0 <= i < s.len() && s[i].0 == k;
            if i < s.len() - 1 {
                assert(t[i].0 == k);
            }
        }
    }
}

pub proof fn lemma_tx_map_of_get(s: Seq<(Seq<u8>, TransactionV)>, i: int)
    requires
        tx_entries_wf(s),
        0 <= i < s.len(),
    ensures
        tx_map_of(s).dom().contains(s[i].0),
        tx_map_of(s)[s[i].0] == s[i].1,
    decreases s.len(),
{
    let t = s.drop_last();
    if i == s.len() - 1 {
    } else {
        lemma_tx_map_of_get(t, i);
        assert(s.last().0 != s[i].0);
    }
}

pub proof fn lemma_tx_map_of_remove(s: Seq<(Seq<u8>, TransactionV)>, i: int)
    requires
        tx_entries_wf(s),
        0 <= i < s.len(),
    ensures
        tx_map_of(s.remove(i)) == tx_map_of(s).remove(s[i].0),
    decreases s.len(),
{
    let k = s[i].0;
    let t = s.drop_last();
    if i == s.len() - 1 {
        assert(s.remove(i) =~= t);
        lemma_tx_map_of_dom(t);
        assert(!tx_has_key(t, k));
        assert(tx_map_of(s).remove(k) =~= tx_map_of(t));
    } else {
        lemma_tx_map_of_remove(t, i);
        assert(s.remove(i).drop_last() =~= t.remove(i));
        assert(s.remove(i).last() == s.last());
        assert(tx_map_of(s.remove(i)) == tx_map_of(t.remove(i)).insert(s.last().0, s.last().1));
        assert(s.last().0 != k);
        assert(tx_map_of(t).remove(k).insert(s.last().0, s.last().1) =~= tx_map_of(t).insert(
            s.last().0,
            s.last().1,
        ).remove(k));
    }
}

/// The in-memory pool of validated, not yet consolidated transactions.
#[derive(Clone, Debug, PartialEq, Eq)]
pub struct TransactionsPool {
    pub entries: Vec<(crate::chain::Hash, Transaction)>,
}

impl View for TransactionsPool {
    type V = Seq<(Seq<u8>, TransactionV)>;

    open spec fn view(&self) -> Seq<(Seq<u8>, TransactionV)> {
        self.entries.deep_view()
    }
}

impl TransactionsPool {
    /// The mapping from transaction hashes to pooled transactions.
    pub open spec fn as_map(&self) -> Map<Seq<u8>, TransactionV> {
        tx_map_of(self@)
    }

    /// No key twice.
    pub open spec fn wf(&self) -> bool {
        tx_entries_wf(self@)
    }

    /// The empty pool.
    pub fn new() -> (r: TransactionsPool)
        ensures
            r.wf(),
            r.as_map() == Map::<Seq<u8>, TransactionV>::empty(),
            r@.len() == 0,
    {
        TransactionsPool { entries: Vec::new() }
    }

    /// The position of the entry with the given key, if any.
    fn find(&self, k: &crate::chain::Hash) -> (r: Option<usize>)
        ensures
            r matches Some(i) ==> i < self@.len() && self@[i as int].0 == k@,
            r is None ==> !tx_has_key(self@, k@),
    {
        let n = self.entries.len();
        let mut i: usize = 0;
        while i < n
            invariant
                n == self.entries.len(),
                i <= n,
                forall|j: int| 0 <= j < i ==> self@[j].0 != k@,
            decreases n - i,
        {
            if self.entries[i].0.eq_hash(k) {
                return Some(i);
            }
            i += 1;
        }
        None
    }

    /// Whether a transaction with this hash is pooled.
    pub fn contains(&self, k: &crate::chain::Hash) -> (r: bool)
        ensures
            r == self.as_map().dom().contains(k@),
    {
        proof {
            lemma_tx_map_of_dom(self@);
        }
        self.find(k).is_some()
    }

    /// Inserts (or replaces) the transaction under its hash.
    pub fn insert(&mut self, k: crate::chain::Hash, tx: Transaction)
        requires
            old(self).wf(),
        ensures
            final(self).wf(),
            final(self).as_map() == old(self).as_map().insert(k@, tx@),
    {
        self.remove(&k);
        let ghost mid = self@;
        self.entries.push((k, tx));
        proof {
            assert(self@ =~= mid.push((k@, tx@)));
            assert(self@.drop_last() =~= mid);
            assert(tx_map_of(self@) == tx_map_of(mid).insert(k@, tx@));
            assert(tx_map_of(mid).insert(k@, tx@) =~= old(self).as_map().insert(k@, tx@));
            assert forall|i: int, j: int| 0 <= i < j < self@.len() implies self@[i].0
                != self@[j].0 by {
                if j == self@.len() - 1 {
                    assert(!tx_has_key(mid, k@));
                }
            }
        }
    }

    /// Removes the transaction with this hash, if pooled.
    pub fn remove(&mut self, k: &crate::chain::Hash)
        requires
            old(self).wf(),
        ensures
            final(self).wf(),
            final(self).as_map() == old(self).as_map().remove(k@),
            !tx_has_key(final(self)@, k@),
    {
        proof {
            lemma_tx_map_of_dom(self@);
        }
        match self.find(k) {
            Some(i) => {
                proof {
                    lemma_tx_map_of_remove(self@, i as int);
                }
                let ghost pre = self@;
                self.entries.remove(i);
                proof {
                    assert(self@ =~= pre.remove(i as int));
                    assert forall|j: int| 0 <= j < self@.len() implies self@[j].0 != k@ by {
                        if j < i as int {
                            assert(pre[j].0 != pre[i as int].0);
                        } else {
                            assert(self@[j] == pre[j + 1]);
                            assert(pre[i as int].0 != pre[j + 1].0);
                        }
                    }
                }
            },
            None => {
                proof {
                    assert(self.as_map().remove(k@) =~= self.as_map());
                }
            },
        }
    }

    /// How many transactions are pooled.
    pub fn len(&self) -> (r: usize)
        ensures
            r == self@.len(),
    {
        self.entries.len()
    }
}

impl Dup for TransactionsPool {
    fn dup(&self) -> (r: TransactionsPool)
        ensures
            r@ == self@,
    {
        let entries = crate::chain::dup_vec(&self.entries);
        proof {
            assert forall|i: int| 0 <= i < entries@.len() implies entries.deep_view()[i]
                == self.entries.deep_view()[i] by {
                assert(entries@[i]@ == self.entries@[i]@);
                assert(entries@[i].deep_view() == entries@[i]@);
                assert(self.entries@[i].deep_view() == self.entries@[i]@);
            }
            assert(entries.deep_view() =~= self.entries.deep_view());
        }
        TransactionsPool { entries }
    }
}

} // verus!

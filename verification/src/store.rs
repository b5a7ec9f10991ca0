//! The persistent key-value store, modelled in memory.
//!
//! The ledger persists two kinds of slots: a single counter slot and one slot
//! per payment record, addressed by a tagged key. The store is an association
//! list with unique keys whose abstract view is a `Map` from keys to values;
//! the ledger's logic is verified against that view alone, so it is decoupled
//! from any particular storage engine.

use crate::payment::Payment;
use vstd::prelude::*;

verus! {

/// A key of the persisted state: either the slot of one payment record or
/// the single counter slot.
#[derive(Clone, Copy, Debug, PartialEq, Eq, Structural)]
pub enum DataKey {
    Payment(u64),
    PaymentCounter,
}

/// A value of the persisted state: the counter, or one payment record.
#[derive(Clone, Copy, Debug, PartialEq, Eq, Structural)]
pub enum StoreValue {
    Counter(u64),
    Record(Payment),
}

/// The keyed store: an association list with pairwise distinct keys.
pub struct Store {
    entries: Vec<(DataKey, StoreValue)>,
}

/// The map that a sequence of key-value entries denotes: later entries win,
/// though under the store's invariant keys never repeat.
pub open spec fn entries_to_map(s: Seq<(DataKey, StoreValue)>) -> Map<DataKey, StoreValue>
    decreases s.len(),
{
    if s.len() == 0 {
        Map::empty()
    } else {
        entries_to_map(s.drop_last()).insert(s.last().0, s.last().1)
    }
}

/// A key is in the denoted map exactly when some entry carries it.
proof fn lemma_entries_to_map_contains(s: Seq<(DataKey, StoreValue)>, k: DataKey)
    ensures
        entries_to_map(s).dom().contains(k) <==> exists|i: int|
            0 <= i < s.len() && (#[trigger] s[i]).0 == k,
    decreases s.len(),
{
    if s.len() > 0 {
        lemma_entries_to_map_contains(s.drop_last(), k);
        if s.last().0 == k {
            assert(s[s.len() - 1].0 == k);
        } else {
            if exists|i: int| 0 <= i < s.len() && (#[trigger] s[i]).0 == k {
                let i = choose|i: int| 0 <= i < s.len() && (#[trigger] s[i]).0 == k;
                assert(s.drop_last()[i].0 == k);
            }
        }
    }
}

/// The entry that carries a key gives the key's value in the denoted map,
/// provided no later entry carries the same key.
proof fn lemma_entries_to_map_value(s: Seq<(DataKey, StoreValue)>, i: int)
    requires
        0 <= i < s.len(),
        forall|j: int| i < j < s.len() ==> (#[trigger] s[j]).0 != s[i].0,
    ensures
        entries_to_map(s).dom().contains(s[i].0),
        entries_to_map(s)[s[i].0] == s[i].1,
    decreases s.len(),
{
    if i == s.len() - 1 {
        assert(s.last() == s[i]);
    } else {
        lemma_entries_to_map_value(s.drop_last(), i);
        assert(s.drop_last()[i] == s[i]);
    }
}

/// Appending an entry whose key is fresh inserts it into the denoted map.
proof fn lemma_entries_to_map_push(s: Seq<(DataKey, StoreValue)>, e: (DataKey, StoreValue))
    ensures
        entries_to_map(s.push(e)) == entries_to_map(s).insert(e.0, e.1),
{
    assert(s.push(e).drop_last() =~= s);
    assert(s.push(e).last() == e);
}

/// Overwriting the entry at `i` with the same key updates the denoted map at
/// that key, provided the keys of the sequence are pairwise distinct.
proof fn lemma_entries_to_map_update(s: Seq<(DataKey, StoreValue)>, i: int, v: StoreValue)
    requires
        0 <= i < s.len(),
        forall|p: int, q: int| 0 <= p < q < s.len() ==> (#[trigger] s[p]).0 != (#[trigger] s[q]).0,
    ensures
        entries_to_map(s.update(i, (s[i].0, v))) =~= entries_to_map(s).insert(s[i].0, v),
    decreases s.len(),
{
    let t = s.update(i, (s[i].0, v));
    if i == s.len() - 1 {
        assert(t.drop_last() =~= s.drop_last());
        assert(t.last() == (s[i].0, v));
    } else {
        lemma_entries_to_map_update(s.drop_last(), i, v);
        assert(t.drop_last() =~= s.drop_last().update(i, (s[i].0, v)));
        assert(t.last() == s.last());
        assert(s.last().0 != s[i].0);
        assert(entries_to_map(t) =~= entries_to_map(s).insert(s[i].0, v));
    }
}

impl View for Store {
    type V = Map<DataKey, StoreValue>;

    closed spec fn view(&self) -> Map<DataKey, StoreValue> {
        entries_to_map(self.entries@)
    }
}

impl Store {
    /// The store's invariant: no key occurs in two entries.
    pub closed spec fn wf(&self) -> bool {
        forall|i: int, j: int|
            0 <= i < j < self.entries@.len() ==> (#[trigger] self.entries@[i]).0 != (
            #[trigger] self.entries@[j]).0
    }

    /// An empty store: no slot holds a value.
    pub fn new() -> (store: Self)
        ensures
            store.wf(),
            store@ == Map::<DataKey, StoreValue>::empty(),
    {
        Store { entries: Vec::new() }
    }

    /// Whether the slot under `key` holds a value.
    pub fn has(&self, key: DataKey) -> (present: bool)
        requires
            self.wf(),
        ensures
            present == self@.dom().contains(key),
    {
        proof {
            lemma_entries_to_map_contains(self.entries@, key);
        }
        let n = self.entries.len();
        let mut i: usize = 0;
        while i < n
            invariant
                n == self.entries@.len(),
                0 <= i <= n,
                forall|j: int| 0 <= j < i ==> (#[trigger] self.entries@[j]).0 != key,
            decreases n - i,
        {
            if self.entries[i].0 == key {
                proof {
                    assert(self.entries@[i as int].0 == key);
                    assert(exists|j: int|
                        0 <= j < self.entries@.len() && (#[trigger] self.entries@[j]).0 == key);
                    lemma_entries_to_map_contains(self.entries@, key);
                    assert(self@.dom().contains(key));
                }
                return true;
            }
            i = i + 1;
        }
        false
    }

    /// The value under `key`, or `None` if the slot is empty.
    pub fn get(&self, key: DataKey) -> (value: Option<StoreValue>)
        requires
            self.wf(),
        ensures
            match value {
                Some(v) => self@.dom().contains(key) && self@[key] == v,
                None => !self@.dom().contains(key),
            },
    {
        proof {
            lemma_entries_to_map_contains(self.entries@, key);
        }
        let n = self.entries.len();
        let mut i: usize = 0;
        while i < n
            invariant
                self.wf(),
                n == self.entries@.len(),
                0 <= i <= n,
                forall|j: int| 0 <= j < i ==> (#[trigger] self.entries@[j]).0 != key,
            decreases n - i,
        {
            if self.entries[i].0 == key {
                proof {
                    lemma_entries_to_map_value(self.entries@, i as int);
                }
                return Some(self.entries[i].1);
            }
            i = i + 1;
        }
        None
    }

    /// Writes `value` under `key`, overwriting any value the slot held.
    pub fn set(&mut self, key: DataKey, value: StoreValue)
        requires
            old(self).wf(),
        ensures
            final(self).wf(),
            final(self)@ == old(self)@.insert(key, value),
    {
        let n = self.entries.len();
        let mut i: usize = 0;
        while i < n
            invariant
                self.wf(),
                self.entries@ == old(self).entries@,
                n == self.entries@.len(),
                0 <= i <= n,
                forall|j: int| 0 <= j < i ==> (#[trigger] self.entries@[j]).0 != key,
            decreases n - i,
        {
            if self.entries[i].0 == key {
                proof {
                    lemma_entries_to_map_update(self.entries@, i as int, value);
                }
                self.entries[i] = (key, value);
                assert(self.entries@ =~= old(self).entries@.update(i as int, (key, value)));
                return;
            }
            i = i + 1;
        }
        proof {
            lemma_entries_to_map_push(self.entries@, (key, value));
            lemma_entries_to_map_contains(self.entries@, key);
        }
        self.entries.push((key, value));
        assert(self.entries@ =~= old(self).entries@.push((key, value)));
    }
}

} // verus!

//! An identifier-keyed map of action items, kept as an association vector
//! with unique keys, so that lookup, insertion and removal carry exact
//! contracts.

use vstd::prelude::*;
use crate::action_item::ActionItem;

verus! {

/// A map from item identifiers to action items.
pub struct ItemMap {
    entries: Vec<(u128, ActionItem)>,
}

impl ItemMap {
    /// The keys, in insertion order.
    pub closed spec fn key_seq(self) -> Seq<u128> {
        self.entries@.map_values(|e: (u128, ActionItem)| e.0)
    }

    /// Keys are pairwise distinct.
    pub closed spec fn wf(self) -> bool {
        forall|i: int, j: int|
            0 <= i < j < self.entries@.len() ==> #[trigger] self.entries@[i].0
                != #[trigger] self.entries@[j].0
    }

    pub closed spec fn contains_id(self, id: u128) -> bool {
        exists|i: int| 0 <= i < self.entries@.len() && #[trigger] self.entries@[i].0 == id
    }

    /// The position of `id` among the entries.
    pub closed spec fn index_of(self, id: u128) -> int {
        choose|i: int| 0 <= i < self.entries@.len() && #[trigger] self.entries@[i].0 == id
    }

    /// The item stored under `id`.
    pub closed spec fn at(self, id: u128) -> ActionItem {
        self.entries@[self.index_of(id)].1
    }

    pub closed spec fn len_spec(self) -> nat {
        self.entries@.len()
    }

    /// In a well-formed map an entry holding `id` is the entry of `id`.
    pub proof fn lemma_entry_at(self, i: int)
        requires
            self.wf(),
            0 <= i < self.len_spec(),
        ensures
            self.contains_id(self.entry_key(i)),
            self.at(self.entry_key(i)) == self.entry_item(i),
            self.index_of(self.entry_key(i)) == i,
    {
        let id = self.entries@[i].0;
        assert(self.contains_id(id));
        let j = self.index_of(id);
        assert(0 <= j < self.entries@.len() && self.entries@[j].0 == id);
    }

    pub closed spec fn entry_key(self, i: int) -> u128 {
        self.entries@[i].0
    }

    pub closed spec fn entry_item(self, i: int) -> ActionItem {
        self.entries@[i].1
    }

    /// A contained identifier has a well-formed entry position.
    pub proof fn lemma_contains_index(self, k: u128)
        requires
            self.contains_id(k),
        ensures
            0 <= self.index_of(k) < self.len_spec(),
            self.entry_key(self.index_of(k)) == k,
            self.entry_item(self.index_of(k)) == self.at(k),
    {
        let j = self.index_of(k);
        assert(0 <= j < self.entries@.len() && self.entries@[j].0 == k);
    }

    /// Creates an empty map.
    pub fn new() -> (r: ItemMap)
        ensures
            r.wf(),
            r.len_spec() == 0,
            forall|k: u128| !r.contains_id(k),
    {
        ItemMap { entries: Vec::new() }
    }

    pub fn len(&self) -> (r: usize)
        ensures
            r == self.len_spec(),
    {
        self.entries.len()
    }

    /// Looks up the item with the given identifier.
    pub fn get(&self, id: u128) -> (r: Option<&ActionItem>)
        requires
            self.wf(),
        ensures
            match r {
                Some(item) => self.contains_id(id) && *item == self.at(id),
                None => !self.contains_id(id),
            },
    {
        let mut i: usize = 0;
        while i < self.entries.len()
            invariant
                i <= self.entries@.len(),
                self.wf(),
                forall|j: int| 0 <= j < i ==> #[trigger] self.entries@[j].0 != id,
        decreases self.entries@.len() - i,
        {
            if self.entries[i].0 == id {
                proof {
                    self.lemma_entry_at(i as int);
                }
                return Some(&self.entries[i].1);
            }
            i = i + 1;
        }
        return None;
    }

    /// Inserts the item under `id`, replacing any item already there.
    pub fn insert(&mut self, id: u128, item: ActionItem)
        requires
            old(self).wf(),
        ensures
            final(self).wf(),
            final(self).contains_id(id),
            final(self).at(id) == item,
            forall|k: u128|
                k != id ==> #[trigger] final(self).contains_id(k) == old(self).contains_id(k),
            forall|k: u128|
                k != id && old(self).contains_id(k) ==> #[trigger] final(self).at(k) == old(
                    self,
                ).at(k),
            final(self).len_spec() == old(self).len_spec() + (if old(self).contains_id(id) {
                0int
            } else {
                1int
            }),
    {
        let ghost old_map = *self;
        let mut i: usize = 0;
        while i < self.entries.len()
            invariant
                *self == old_map,
                old_map == *old(self),
                i <= self.entries@.len(),
                old_map.wf(),
                forall|j: int| 0 <= j < i ==> #[trigger] self.entries@[j].0 != id,
            decreases self.entries@.len() - i,
        {
            if self.entries[i].0 == id {
                proof {
                    old_map.lemma_entry_at(i as int);
                }
                self.entries[i] = (id, item);
                proof {
                    assert forall|k: u128| k != id && old_map.contains_id(k) implies self
                        .contains_id(k) && self.at(k) == old_map.at(k) by {
                        let j = old_map.index_of(k);
                        assert(old_map.entries@[j].0 == k);
                        assert(self.entries@[j].0 == k);
                        assert(self.contains_id(k));
                        self.lemma_entry_at(j);
                    };
                    assert forall|k: u128| k != id && self.contains_id(k) implies old_map
                        .contains_id(k) by {
                        let j = self.index_of(k);
                        assert(self.entries@[j].0 == k);
                        assert(old_map.entries@[j].0 == k);
                    };
                    self.lemma_entry_at(i as int);
                }
                return ;
            }
            i = i + 1;
        }
        self.entries.push((id, item));
        proof {
            assert(!old_map.contains_id(id));
            assert(self.entries@.len() == old_map.entries@.len() + 1);
            assert(forall|j: int|
                0 <= j < old_map.entries@.len() ==> self.entries@[j] == old_map.entries@[j]);
            assert(self.wf());
            self.lemma_entry_at(old_map.entries@.len() as int);
            assert forall|k: u128| k != id && old_map.contains_id(k) implies self.contains_id(k)
                && self.at(k) == old_map.at(k) by {
                let j = old_map.index_of(k);
                assert(self.entries@[j].0 == k);
                self.lemma_entry_at(j);
            };
            assert forall|k: u128| k != id && self.contains_id(k) implies old_map.contains_id(
                k,
            ) by {
                let j = self.index_of(k);
                assert(self.entries@[j].0 == k);
                assert(j < old_map.entries@.len());
                assert(old_map.entries@[j].0 == k);
            };
        }
    }

    /// Removes and returns the item under `id`, if present.
    #[verifier::rlimit(60)]
    pub fn remove(&mut self, id: u128) -> (r: Option<ActionItem>)
        requires
            old(self).wf(),
        ensures
            final(self).wf(),
            match r {
                Some(item) => {
                    &&& old(self).contains_id(id)
                    &&& item == old(self).at(id)
                    &&& !final(self).contains_id(id)
                    &&& final(self).len_spec() == old(self).len_spec() - 1
                },
                None => !old(self).contains_id(id) && *final(self) == *old(self),
            },
            forall|k: u128|
                k != id ==> #[trigger] final(self).contains_id(k) == old(self).contains_id(k),
            forall|k: u128|
                k != id && old(self).contains_id(k) ==> #[trigger] final(self).at(k) == old(
                    self,
                ).at(k),
    {
        let ghost old_map = *self;
        let mut i: usize = 0;
        while i < self.entries.len()
            invariant
                *self == old_map,
                old_map == *old(self),
                i <= self.entries@.len(),
                old_map.wf(),
                forall|j: int| 0 <= j < i ==> #[trigger] self.entries@[j].0 != id,
            decreases self.entries@.len() - i,
        {
            if self.entries[i].0 == id {
                proof {
                    old_map.lemma_entry_at(i as int);
                }
                let (_, item) = self.entries.remove(i);
                proof {
                    assert(self.entries@ =~= old_map.entries@.remove(i as int));
                    assert(forall|j: int|
                        0 <= j < i ==> self.entries@[j] == old_map.entries@[j]);
                    assert(forall|j: int|
                        i <= j < self.entries@.len() ==> self.entries@[j] == old_map.entries@[j
                            + 1]);
                    assert(self.wf());
                    assert forall|k: u128| k != id && old_map.contains_id(k) implies self
                        .contains_id(k) && self.at(k) == old_map.at(k) by {
                        let j = old_map.index_of(k);
                        if j < i {
                            assert(self.entries@[j].0 == k);
                            self.lemma_entry_at(j);
                        } else {
                            assert(old_map.entries@[j].0 == k);
                            assert(j != i);
                            assert(self.entries@[j - 1].0 == k);
                            self.lemma_entry_at(j - 1);
                        }
                    };
                    assert forall|k: u128| self.contains_id(k) implies k != id && old_map
                        .contains_id(k) by {
                        let j = self.index_of(k);
                        assert(self.entries@[j].0 == k);
                        if j < i {
                            assert(old_map.entries@[j].0 == k);
                        } else {
                            assert(old_map.entries@[j + 1].0 == k);
                        }
                    };
                }
                return Some(item);
            }
            i = i + 1;
        }
        return None;
    }

    /// The identifiers of all items, in insertion order.
    pub fn ids(&self) -> (r: Vec<u128>)
        ensures
            r@ == self.key_seq(),
            forall|j: int| 0 <= j < r@.len() ==> r@[j] == self.entry_key(j),
            r@.len() == self.len_spec(),
    {
        let mut out: Vec<u128> = Vec::new();
        let mut i: usize = 0;
        while i < self.entries.len()
            invariant
                i <= self.entries@.len(),
                out@ == self.entries@.take(i as int).map_values(|e: (u128, ActionItem)| e.0),
            decreases self.entries@.len() - i,
        {
            out.push(self.entries[i].0);
            proof {
                assert(self.entries@.take(i + 1).map_values(|e: (u128, ActionItem)| e.0)
                    =~= self.entries@.take(i as int).map_values(
                    |e: (u128, ActionItem)| e.0,
                ).push(self.entries@[i as int].0));
            }
            i = i + 1;
        }
        proof {
            assert(self.entries@.take(self.entries@.len() as int) =~= self.entries@);
        }
        out
    }

    /// Every key of the map is a key of the other and conversely.
    pub open spec fn same_keys(self, other: ItemMap) -> bool {
        forall|k: u128| #[trigger] self.contains_id(k) == other.contains_id(k)
    }
}

} // verus!

//! A map with two-part keys: a prefix that names a group, and a key within the
//! group. Each group is listed in ascending order of its keys, apart from the
//! other groups.

use crate::bytes::ascending;
use crate::ordered_map::{keys_of, map_of, OrderedMap, StorageKey};
use vstd::prelude::*;

verus! {

/// A map from a prefix and a key to a value, listed group by group.
pub struct PrefixedMap<K, T> {
    groups: OrderedMap<Vec<u8>, OrderedMap<K, T>>,
}

impl<K: StorageKey, T> PrefixedMap<K, T> {
    /// The entries stored under `prefix`, in the order in which they are listed.
    pub closed spec fn row(&self, prefix: Seq<u8>) -> Seq<(Seq<u8>, T)> {
        if self.groups@.contains_key(prefix) {
            self.groups@[prefix].entries()
        } else {
            Seq::empty()
        }
    }

    /// What is stored under `prefix`, as a map from key to value.
    pub open spec fn group(&self, prefix: Seq<u8>) -> Map<Seq<u8>, T> {
        map_of(self.row(prefix))
    }

    /// Whether something is stored under `prefix` and `key`.
    pub open spec fn has(&self, prefix: Seq<u8>, key: Seq<u8>) -> bool {
        self.group(prefix).contains_key(key)
    }

    /// The prefixes under which something is stored, in ascending order.
    pub closed spec fn prefixes(&self) -> Seq<Seq<u8>> {
        self.groups.keys()
    }

    /// Every group is listed in strictly ascending key order, and no group is
    /// kept that holds nothing.
    pub closed spec fn wf(&self) -> bool {
        &&& self.groups.wf()
        &&& forall|p: Seq<u8>| #[trigger]
            self.groups@.contains_key(p) ==> self.groups@[p].wf() && self.groups@[p].entries().len()
                > 0
    }

    /// The listing of prefixes is ascending and holds exactly the prefixes
    /// under which something is stored.
    pub proof fn lemma_prefixes(&self)
        requires
            self.wf(),
        ensures
            ascending(self.prefixes()),
            forall|p: Seq<u8>| self.prefixes().contains(p) <==> self.row(p).len() > 0,
    {
        assert forall|p: Seq<u8>| self.prefixes().contains(p) <==> self.row(p).len() > 0 by {
            if self.groups@.contains_key(p) {
                assert(self.groups@[p].entries().len() > 0);
            }
        }
    }

    /// The number of prefixes under which something is stored.
    pub fn prefix_count(&self) -> (n: usize)
        ensures
            n == self.prefixes().len(),
    {
        self.groups.len()
    }

    /// The prefix at place `i` of the listing of prefixes.
    pub fn prefix_at(&self, i: usize) -> (p: &Vec<u8>)
        requires
            i < self.prefixes().len(),
        ensures
            p@ == self.prefixes()[i as int],
    {
        self.groups.key_at(i)
    }

    /// In a well-formed map each group is listed in ascending key order.
    pub proof fn lemma_row_ascending(&self, prefix: Seq<u8>)
        requires
            self.wf(),
        ensures
            ascending(keys_of(self.row(prefix))),
    {
        if self.groups@.contains_key(prefix) {
            assert(self.groups@[prefix].wf());
        }
    }

    /// A map that holds nothing.
    pub fn new() -> (m: Self)
        ensures
            m.wf(),
            forall|p: Seq<u8>| #[trigger] m.row(p) == Seq::<(Seq<u8>, T)>::empty(),
    {
        PrefixedMap { groups: OrderedMap::new() }
    }

    /// The group stored under `prefix`, if it holds anything.
    pub fn under(&self, prefix: &[u8]) -> (r: Option<&OrderedMap<K, T>>)
        requires
            self.wf(),
        ensures
            match r {
                Some(g) => g.wf() && g.entries() == self.row(prefix@) && g.entries().len() > 0,
                None => self.row(prefix@) == Seq::<(Seq<u8>, T)>::empty(),
            },
    {
        self.groups.get(prefix)
    }

    /// The value stored under `prefix` and `key`, if there is one.
    pub fn get(&self, prefix: &[u8], key: &[u8]) -> (r: Option<&T>)
        requires
            self.wf(),
        ensures
            match r {
                Some(v) => self.has(prefix@, key@) && self.group(prefix@)[key@] == *v,
                None => !self.has(prefix@, key@),
            },
    {
        match self.groups.get(prefix) {
            Some(g) => g.get(key),
            None => {
                assert(!keys_of(self.row(prefix@)).contains(key@));
                None
            },
        }
    }

    /// Stores `value` under `prefix` and `key`; the other groups stay as they are.
    pub fn insert(&mut self, prefix: Vec<u8>, key: K, value: T)
        requires
            old(self).wf(),
        ensures
            final(self).wf(),
            final(self).group(prefix@) == old(self).group(prefix@).insert(key.key_bytes(), value),
            forall|p: Seq<u8>| p != prefix@ ==> #[trigger] final(self).row(p) == old(self).row(p),
    {
        let ghost before = self.groups@;
        let mut g = match self.groups.remove(prefix.as_slice()) {
            Some(g) => g,
            None => OrderedMap::new(),
        };
        let ghost k = key.key_bytes();
        g.insert(key, value);
        assert(g.entries().len() > 0) by {
            assert(g@.contains_key(k));
            assert(keys_of(g.entries()).contains(k));
        }
        self.groups.insert(prefix, g);
        proof {
            assert forall|p: Seq<u8>| #[trigger]
                self.groups@.contains_key(p) implies self.groups@[p].wf() by {
                if p != prefix@ {
                    assert(before.contains_key(p));
                }
            }
            assert forall|p: Seq<u8>| p != prefix@ implies #[trigger] self.row(p) == old(self).row(
                p,
            ) by {}
        }
    }

    /// Takes out what is stored under `prefix` and `key`; the other groups stay
    /// as they are.
    pub fn remove(&mut self, prefix: &[u8], key: &[u8])
        requires
            old(self).wf(),
        ensures
            final(self).wf(),
            final(self).group(prefix@) == old(self).group(prefix@).remove(key@),
            forall|p: Seq<u8>| p != prefix@ ==> #[trigger] final(self).row(p) == old(self).row(p),
    {
        let ghost before = self.groups@;
        match self.groups.remove(prefix) {
            Some(g) => {
                let mut g = g;
                g.remove(key);
                if g.len() > 0 {
                    self.groups.insert(crate::bytes::copy_bytes(prefix), g);
                } else {
                    assert(g@ =~= Map::<Seq<u8>, T>::empty()) by {
                        assert(keys_of(g.entries()) =~= Seq::<Seq<u8>>::empty());
                    }
                    assert(map_of(Seq::<(Seq<u8>, T)>::empty()) =~= Map::<Seq<u8>, T>::empty());
                }
                proof {
                    assert forall|p: Seq<u8>| #[trigger]
                        self.groups@.contains_key(p) implies self.groups@[p].wf() by {
                        if p != prefix@ {
                            assert(before.contains_key(p));
                        }
                    }
                    assert forall|p: Seq<u8>| p != prefix@ implies #[trigger] self.row(p) == old(
                        self,
                    ).row(p) by {}
                }
            },
            None => {
                assert(map_of(Seq::<(Seq<u8>, T)>::empty()) =~= map_of(
                    Seq::<(Seq<u8>, T)>::empty(),
                ).remove(key@));
                assert(self.groups@ =~= before);
            },
        }
    }
}

} // verus!

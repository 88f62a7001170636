//! A map from byte-string keys to values that keeps its entries in ascending
//! key order, so that it can be listed and paged through in a stable order.

use crate::bytes::{
    ascending, bytes_lt, compare_bytes, copy_bytes, lemma_bytes_lt_total, lemma_bytes_lt_transitive,
    ByteOrder,
};
use crate::paging::{keys_after, lemma_keys_after_is_skip, page};
use vstd::prelude::*;

verus! {

/// A key that is stored, found and ordered by a byte string.
pub trait StorageKey: Sized {
    /// The bytes that stand for the key, as a plain value.
    spec fn key_bytes(&self) -> Seq<u8>;

    /// The bytes that stand for the key.
    fn as_key(&self) -> (b: &[u8])
        ensures
            b@ == self.key_bytes(),
    ;

    /// A copy of the key.
    fn duplicate(&self) -> (k: Self)
        ensures
            k.key_bytes() == self.key_bytes(),
    ;
}

impl StorageKey for Vec<u8> {
    open spec fn key_bytes(&self) -> Seq<u8> {
        self@
    }

    fn as_key(&self) -> (b: &[u8]) {
        self.as_slice()
    }

    fn duplicate(&self) -> (k: Self) {
        copy_bytes(self.as_slice())
    }
}

impl StorageKey for String {
    open spec fn key_bytes(&self) -> Seq<u8> {
        vstd::utf8::encode_utf8(self@)
    }

    fn as_key(&self) -> (b: &[u8]) {
        self.as_str().as_bytes()
    }

    fn duplicate(&self) -> (k: Self) {
        self.clone()
    }
}

/// The keys of a sequence of entries, in the same order.
pub open spec fn keys_of<T>(entries: Seq<(Seq<u8>, T)>) -> Seq<Seq<u8>> {
    entries.map_values(|e: (Seq<u8>, T)| e.0)
}

/// The map that a sequence of entries stands for.
pub open spec fn map_of<T>(entries: Seq<(Seq<u8>, T)>) -> Map<Seq<u8>, T> {
    Map::new(
        |k: Seq<u8>| keys_of(entries).contains(k),
        |k: Seq<u8>| entries[keys_of(entries).index_of(k)].1,
    )
}

/// The cursor of a request as a plain value.
pub open spec fn cursor(start_after: Option<&[u8]>) -> Option<Seq<u8>> {
    match start_after {
        Some(s) => Some(s@),
        None => None,
    }
}

/// The entries whose key comes strictly after `start_after`; all of them where
/// no bound is given.
pub open spec fn entries_after<T>(entries: Seq<(Seq<u8>, T)>, start_after: Option<Seq<u8>>) -> Seq<
    (Seq<u8>, T),
> {
    match start_after {
        None => entries,
        Some(s) => entries.filter(|e: (Seq<u8>, T)| bytes_lt(s, e.0)),
    }
}

/// In an ascending sequence each key stands at one place only, and the map
/// holds at that key the value that stands beside it.
pub proof fn lemma_map_of_entry<T>(entries: Seq<(Seq<u8>, T)>, i: int)
    requires
        ascending(keys_of(entries)),
        0 <= i < entries.len(),
    ensures
        map_of(entries).contains_key(entries[i].0),
        map_of(entries)[entries[i].0] == entries[i].1,
        keys_of(entries).index_of(entries[i].0) == i,
{
    let keys = keys_of(entries);
    assert(keys[i] == entries[i].0);
    let j = keys.index_of(entries[i].0);
    assert(0 <= j < keys.len() && keys[j] == keys[i]);
    if j != i {
        lemma_bytes_lt_total(keys[i], keys[j]);
        if j < i {
            assert(bytes_lt(keys[j], keys[i]));
        } else {
            assert(bytes_lt(keys[i], keys[j]));
        }
    }
}

/// A key of the map stands somewhere among the entries.
pub proof fn lemma_map_of_key<T>(entries: Seq<(Seq<u8>, T)>, k: Seq<u8>) -> (i: int)
    requires
        ascending(keys_of(entries)),
        map_of(entries).contains_key(k),
    ensures
        0 <= i < entries.len(),
        entries[i].0 == k,
        map_of(entries)[k] == entries[i].1,
{
    let keys = keys_of(entries);
    let i = keys.index_of(k);
    assert(keys[i] == entries[i].0);
    lemma_map_of_entry(entries, i);
    i
}

/// Putting a new key at the place where the order wants it keeps the order and
/// adds that key to the map.
proof fn lemma_insert_at<T>(entries: Seq<(Seq<u8>, T)>, p: int, k: Seq<u8>, v: T)
    requires
        ascending(keys_of(entries)),
        0 <= p <= entries.len(),
        forall|i: int| 0 <= i < p ==> bytes_lt(#[trigger] keys_of(entries)[i], k),
        forall|i: int| p <= i < entries.len() ==> bytes_lt(k, #[trigger] keys_of(entries)[i]),
    ensures
        ascending(keys_of(entries.insert(p, (k, v)))),
        map_of(entries.insert(p, (k, v))) == map_of(entries).insert(k, v),
{
    let after = entries.insert(p, (k, v));
    let keys = keys_of(entries);
    let keys2 = keys_of(after);
    assert forall|i: int, j: int| 0 <= i < j < keys2.len() implies bytes_lt(
        #[trigger] keys2[i],
        #[trigger] keys2[j],
    ) by {
        let oi = if i < p { i } else { i - 1 };
        let oj = if j < p { j } else { j - 1 };
        if i != p {
            assert(keys2[i] == keys[oi]);
        }
        if j != p {
            assert(keys2[j] == keys[oj]);
        }
    }
    assert forall|x: Seq<u8>| map_of(after).contains_key(x) <==> map_of(entries).insert(
        k,
        v,
    ).contains_key(x) by {
        if map_of(after).contains_key(x) {
            let i = lemma_map_of_key(after, x);
            if i != p {
                let oi = if i < p { i } else { i - 1 };
                assert(keys[oi] == x);
            }
        }
        if map_of(entries).insert(k, v).contains_key(x) {
            if x == k {
                assert(keys2[p] == x);
            } else {
                let oi = lemma_map_of_key(entries, x);
                let i = if oi < p { oi } else { oi + 1 };
                assert(keys2[i] == x);
            }
        }
    }
    assert forall|x: Seq<u8>| #[trigger] map_of(after).contains_key(x) implies map_of(after)[x]
        == map_of(entries).insert(k, v)[x] by {
        let i = lemma_map_of_key(after, x);
        if i != p {
            let oi = if i < p { i } else { i - 1 };
            assert(keys[oi] == x);
            lemma_map_of_entry(entries, oi);
            lemma_bytes_lt_total(x, k);
        }
    }
    assert(map_of(after) =~= map_of(entries).insert(k, v));
}

/// Changing the value that stands beside a key changes the map at that key only.
proof fn lemma_replace_at<T>(entries: Seq<(Seq<u8>, T)>, p: int, v: T)
    requires
        ascending(keys_of(entries)),
        0 <= p < entries.len(),
    ensures
        ascending(keys_of(entries.update(p, (entries[p].0, v)))),
        map_of(entries.update(p, (entries[p].0, v))) == map_of(entries).insert(entries[p].0, v),
{
    let k = entries[p].0;
    let after = entries.update(p, (k, v));
    let keys = keys_of(entries);
    let keys2 = keys_of(after);
    assert(keys2 =~= keys);
    assert forall|x: Seq<u8>| #[trigger] map_of(after).contains_key(x) implies map_of(after)[x]
        == map_of(entries).insert(k, v)[x] by {
        let i = lemma_map_of_key(after, x);
        if i != p {
            assert(keys[i] == x);
            lemma_map_of_entry(entries, i);
            lemma_map_of_entry(entries, p);
        }
    }
    assert(keys[p] == k);
    assert(map_of(after) =~= map_of(entries).insert(k, v));
}

/// Taking an entry out keeps the order and removes its key from the map.
proof fn lemma_remove_at<T>(entries: Seq<(Seq<u8>, T)>, p: int)
    requires
        ascending(keys_of(entries)),
        0 <= p < entries.len(),
    ensures
        ascending(keys_of(entries.remove(p))),
        map_of(entries.remove(p)) == map_of(entries).remove(entries[p].0),
{
    let k = entries[p].0;
    let after = entries.remove(p);
    let keys = keys_of(entries);
    let keys2 = keys_of(after);
    assert forall|i: int, j: int| 0 <= i < j < keys2.len() implies bytes_lt(
        #[trigger] keys2[i],
        #[trigger] keys2[j],
    ) by {
        let oi = if i < p { i } else { i + 1 };
        let oj = if j < p { j } else { j + 1 };
        assert(keys2[i] == keys[oi]);
        assert(keys2[j] == keys[oj]);
    }
    assert forall|x: Seq<u8>| map_of(after).contains_key(x) <==> map_of(entries).remove(
        k,
    ).contains_key(x) by {
        if map_of(after).contains_key(x) {
            let i = lemma_map_of_key(after, x);
            let oi = if i < p { i } else { i + 1 };
            assert(keys[oi] == x);
            lemma_map_of_entry(entries, oi);
            lemma_map_of_entry(entries, p);
        }
        if map_of(entries).remove(k).contains_key(x) {
            let oi = lemma_map_of_key(entries, x);
            let i = if oi < p { oi } else { oi - 1 };
            assert(keys2[i] == x);
        }
    }
    assert forall|x: Seq<u8>| #[trigger] map_of(after).contains_key(x) implies map_of(after)[x]
        == map_of(entries).remove(k)[x] by {
        let i = lemma_map_of_key(after, x);
        let oi = if i < p { i } else { i + 1 };
        assert(keys[oi] == x);
        lemma_map_of_entry(entries, oi);
    }
    assert(map_of(after) =~= map_of(entries).remove(k));
}

/// In an ascending sequence the entries after a bound are those from the first
/// place whose key comes after it.
pub proof fn lemma_entries_after_is_skip<T>(entries: Seq<(Seq<u8>, T)>, s: Seq<u8>, p: int)
    requires
        ascending(keys_of(entries)),
        0 <= p <= entries.len(),
        forall|i: int| 0 <= i < p ==> !bytes_lt(s, #[trigger] entries[i].0),
        forall|i: int| p <= i < entries.len() ==> bytes_lt(s, #[trigger] entries[i].0),
    ensures
        entries_after(entries, Some(s)) == entries.skip(p),
    decreases entries.len(),
{
    let pred = |e: (Seq<u8>, T)| bytes_lt(s, e.0);
    reveal(Seq::filter);
    if entries.len() > 0 {
        let front = entries.drop_last();
        assert(keys_of(front) =~= keys_of(entries).drop_last());
        if p == entries.len() {
            lemma_entries_after_is_skip(front, s, p - 1);
            assert(front.skip(p - 1) =~= Seq::<(Seq<u8>, T)>::empty());
            assert(entries.skip(p) =~= Seq::<(Seq<u8>, T)>::empty());
        } else {
            lemma_entries_after_is_skip(front, s, p);
            assert(front.skip(p).push(entries.last()) =~= entries.skip(p));
        }
    } else {
        assert(entries.skip(p) =~= entries);
    }
}

struct Slot<K, T> {
    key: K,
    value: T,
}

/// A map whose entries are kept in ascending order of their key bytes.
pub struct OrderedMap<K, T> {
    slots: Vec<Slot<K, T>>,
}

impl<K: StorageKey, T> View for OrderedMap<K, T> {
    type V = Map<Seq<u8>, T>;

    open spec fn view(&self) -> Map<Seq<u8>, T> {
        map_of(self.entries())
    }
}

impl<K: StorageKey, T> OrderedMap<K, T> {
    /// The entries as pairs of key bytes and value, in the order in which they
    /// are listed.
    pub closed spec fn entries(&self) -> Seq<(Seq<u8>, T)> {
        self.slots@.map_values(|s: Slot<K, T>| (s.key.key_bytes(), s.value))
    }

    /// The keys in the order in which they are listed.
    pub open spec fn keys(&self) -> Seq<Seq<u8>> {
        keys_of(self.entries())
    }

    /// The entries are listed in strictly ascending key order.
    pub open spec fn wf(&self) -> bool {
        ascending(self.keys())
    }

    /// A map that holds nothing.
    pub fn new() -> (m: Self)
        ensures
            m.wf(),
            m.entries() == Seq::<(Seq<u8>, T)>::empty(),
            m@ == Map::<Seq<u8>, T>::empty(),
    {
        let m = OrderedMap { slots: Vec::new() };
        assert(m.entries() =~= Seq::<(Seq<u8>, T)>::empty());
        assert(m@ =~= Map::<Seq<u8>, T>::empty());
        m
    }

    /// The number of entries.
    pub fn len(&self) -> (n: usize)
        ensures
            n == self.entries().len(),
    {
        self.slots.len()
    }

    /// The key of the entry at place `i` of the listing.
    pub fn key_at(&self, i: usize) -> (k: &K)
        requires
            i < self.entries().len(),
        ensures
            k.key_bytes() == self.entries()[i as int].0,
    {
        &self.slots[i].key
    }

    /// The value of the entry at place `i` of the listing.
    pub fn value_at(&self, i: usize) -> (v: &T)
        requires
            i < self.entries().len(),
        ensures
            *v == self.entries()[i as int].1,
    {
        &self.slots[i].value
    }

    /// The number of entries whose key comes before `key`, which is the place
    /// where `key` stands or would stand.
    pub fn lower_bound(&self, key: &[u8]) -> (p: usize)
        requires
            self.wf(),
        ensures
            p <= self.entries().len(),
            forall|i: int| 0 <= i < p ==> bytes_lt(#[trigger] self.keys()[i], key@),
            forall|i: int|
                p <= i < self.entries().len() ==> !bytes_lt(#[trigger] self.keys()[i], key@),
    {
        let mut p: usize = 0;
        while p < self.slots.len()
            invariant
                self.wf(),
                p <= self.entries().len(),
                self.entries().len() == self.slots@.len(),
                forall|i: int| 0 <= i < p ==> bytes_lt(#[trigger] self.keys()[i], key@),
            decreases self.slots@.len() - p,
        {
            let order = compare_bytes(self.slots[p].key.as_key(), key);
            assert(self.keys()[p as int] == self.slots@[p as int].key.key_bytes());
            match order {
                ByteOrder::Before => {},
                _ => {
                    proof {
                        assert forall|i: int| p <= i < self.entries().len() implies !bytes_lt(
                            #[trigger] self.keys()[i],
                            key@,
                        ) by {
                            lemma_bytes_lt_total(self.keys()[p as int], key@);
                            if i > p && bytes_lt(self.keys()[i], key@) {
                                assert(bytes_lt(self.keys()[p as int], self.keys()[i]));
                                lemma_bytes_lt_transitive(
                                    self.keys()[p as int],
                                    self.keys()[i],
                                    key@,
                                );
                            }
                        }
                    }
                    return p;
                },
            }
            p += 1;
        }
        p
    }

    /// The place of the first entry whose key comes after `start_after`; 0 where
    /// no bound is given.
    pub fn first_after(&self, start_after: Option<&[u8]>) -> (p: usize)
        requires
            self.wf(),
        ensures
            p <= self.entries().len(),
            self.entries().skip(p as int) == entries_after(self.entries(), cursor(start_after)),
            self.keys().skip(p as int) == keys_after(self.keys(), cursor(start_after)),
    {
        match start_after {
            None => {
                assert(self.entries().skip(0) =~= self.entries());
                assert(self.keys().skip(0) =~= self.keys());
                0
            },
            Some(s) => {
                let mut p = self.lower_bound(s);
                if p < self.slots.len() {
                    let order = compare_bytes(self.slots[p].key.as_key(), s);
                    assert(self.keys()[p as int] == self.slots@[p as int].key.key_bytes());
                    if order == ByteOrder::Same {
                        p += 1;
                    }
                }
                proof {
                    let entries = self.entries();
                    assert forall|i: int| 0 <= i < p implies !bytes_lt(
                        s@,
                        #[trigger] entries[i].0,
                    ) by {
                        assert(self.keys()[i] == entries[i].0);
                        lemma_bytes_lt_total(s@, entries[i].0);
                    }
                    assert forall|i: int| p <= i < entries.len() implies bytes_lt(
                        s@,
                        #[trigger] entries[i].0,
                    ) by {
                        assert(self.keys()[i] == entries[i].0);
                        lemma_bytes_lt_total(s@, entries[i].0);
                        if entries[i].0 == s@ {
                            let q = (p - 1) as int;
                            assert(self.keys()[q] == s@);
                            lemma_bytes_lt_total(self.keys()[q], self.keys()[i]);
                        }
                    }
                    lemma_entries_after_is_skip(entries, s@, p as int);
                    assert forall|i: int| 0 <= i < p implies !bytes_lt(
                        s@,
                        #[trigger] self.keys()[i],
                    ) by {
                        assert(self.keys()[i] == entries[i].0);
                    }
                    assert forall|i: int| p <= i < entries.len() implies bytes_lt(
                        s@,
                        #[trigger] self.keys()[i],
                    ) by {
                        assert(self.keys()[i] == entries[i].0);
                    }
                    lemma_keys_after_is_skip(self.keys(), s@, p as int);
                }
                p
            },
        }
    }

    /// One page of the listing of keys: the first `size` keys after the cursor.
    pub fn keys_page(&self, start_after: Option<&[u8]>, size: usize) -> (r: Vec<K>)
        requires
            self.wf(),
        ensures
            r@.map_values(|k: K| k.key_bytes()) == page(
                self.keys(),
                cursor(start_after),
                size as nat,
            ),
    {
        let p = self.first_after(start_after);
        let ghost rest = self.keys().skip(p as int);
        let mut r: Vec<K> = Vec::new();
        let mut i: usize = p;
        while i < self.slots.len() && r.len() < size
            invariant
                p <= i <= self.slots@.len(),
                self.slots@.len() == self.entries().len(),
                r@.len() == i - p,
                r@.len() <= size,
                rest == self.keys().skip(p as int),
                r@.map_values(|k: K| k.key_bytes()) == rest.take(i - p),
            decreases self.slots@.len() - i,
        {
            let k = self.slots[i].key.duplicate();
            assert(self.keys()[i as int] == self.slots@[i as int].key.key_bytes());
            r.push(k);
            i += 1;
            assert(r@.map_values(|k: K| k.key_bytes()) =~= rest.take(i - p));
        }
        assert(rest.take(rest.len() as int) =~= rest);
        r
    }

    /// The place at which `key` stands, if the map holds it.
    pub fn find(&self, key: &[u8]) -> (r: Option<usize>)
        requires
            self.wf(),
        ensures
            match r {
                Some(i) => i < self.entries().len() && self.entries()[i as int].0 == key@
                    && self@.contains_key(key@) && self@[key@] == self.entries()[i as int].1,
                None => !self@.contains_key(key@),
            },
    {
        let p = self.lower_bound(key);
        if p < self.slots.len() {
            let order = compare_bytes(self.slots[p].key.as_key(), key);
            assert(self.keys()[p as int] == self.slots@[p as int].key.key_bytes());
            if order == ByteOrder::Same {
                proof {
                    lemma_map_of_entry(self.entries(), p as int);
                }
                return Some(p);
            }
        }
        proof {
            if self@.contains_key(key@) {
                let i = lemma_map_of_key(self.entries(), key@);
                assert(self.keys()[i] == key@);
                lemma_bytes_lt_total(key@, key@);
                if i > p {
                    assert(bytes_lt(self.keys()[p as int], self.keys()[i]));
                    lemma_bytes_lt_total(self.keys()[p as int], key@);
                }
            }
        }
        None
    }

    /// The value stored under `key`, if there is one.
    pub fn get(&self, key: &[u8]) -> (r: Option<&T>)
        requires
            self.wf(),
        ensures
            match r {
                Some(v) => self@.contains_key(key@) && self@[key@] == *v,
                None => !self@.contains_key(key@),
            },
    {
        match self.find(key) {
            Some(i) => Some(&self.slots[i].value),
            None => None,
        }
    }

    /// Whether something is stored under `key`.
    pub fn contains_key(&self, key: &[u8]) -> (r: bool)
        requires
            self.wf(),
        ensures
            r == self@.contains_key(key@),
    {
        self.find(key).is_some()
    }

    /// Stores `value` under `key` and hands back what was stored there before.
    pub fn insert(&mut self, key: K, value: T) -> (previous: Option<T>)
        requires
            old(self).wf(),
        ensures
            final(self).wf(),
            final(self)@ == old(self)@.insert(key.key_bytes(), value),
            previous == (if old(self)@.contains_key(key.key_bytes()) {
                Some(old(self)@[key.key_bytes()])
            } else {
                None
            }),
    {
        let ghost before = self.entries();
        let ghost kb = key.key_bytes();
        let p = self.lower_bound(key.as_key());
        let mut found = false;
        if p < self.slots.len() {
            let order = compare_bytes(self.slots[p].key.as_key(), key.as_key());
            assert(self.keys()[p as int] == self.slots@[p as int].key.key_bytes());
            found = order == ByteOrder::Same;
        }
        if found {
            let slot = self.slots.remove(p);
            self.slots.insert(p, Slot { key: slot.key, value });
            proof {
                lemma_map_of_entry(before, p as int);
                lemma_replace_at(before, p as int, value);
                assert(self.entries() =~= before.update(p as int, (kb, value)));
            }
            Some(slot.value)
        } else {
            proof {
                assert forall|i: int| p <= i < before.len() implies bytes_lt(
                    kb,
                    #[trigger] keys_of(before)[i],
                ) by {
                    lemma_bytes_lt_total(kb, keys_of(before)[i]);
                    if i > p && keys_of(before)[i] == kb {
                        assert(bytes_lt(keys_of(before)[p as int], keys_of(before)[i]));
                    }
                }
                if map_of(before).contains_key(kb) {
                    let i = lemma_map_of_key(before, kb);
                    assert(keys_of(before)[i] == kb);
                    lemma_bytes_lt_total(kb, kb);
                }
                lemma_insert_at(before, p as int, kb, value);
            }
            self.slots.insert(p, Slot { key, value });
            assert(self.entries() =~= before.insert(p as int, (kb, value)));
            None
        }
    }

    /// Takes out what is stored under `key` and hands it back.
    pub fn remove(&mut self, key: &[u8]) -> (removed: Option<T>)
        requires
            old(self).wf(),
        ensures
            final(self).wf(),
            final(self)@ == old(self)@.remove(key@),
            removed == (if old(self)@.contains_key(key@) {
                Some(old(self)@[key@])
            } else {
                None
            }),
    {
        let ghost before = self.entries();
        match self.find(key) {
            Some(p) => {
                let slot = self.slots.remove(p);
                proof {
                    lemma_remove_at(before, p as int);
                    assert(self.entries() =~= before.remove(p as int));
                }
                Some(slot.value)
            },
            None => {
                assert(self@ =~= self@.remove(key@));
                None
            },
        }
    }
}

} // verus!

//! Paging through an ascending listing of keys: a page starts strictly after a
//! cursor and holds at most a given number of keys.

use crate::bytes::{ascending, bytes_lt, lemma_bytes_lt_total, lemma_bytes_lt_transitive};
use vstd::prelude::*;

verus! {

/// The size of a page for which no limit is given.
pub const DEFAULT_LIMIT: u32 = 10;

/// The largest size of a page.
pub const MAX_LIMIT: u32 = 30;

/// The size of the page that a request gets: the limit asked for, 10 where none
/// is given, and never more than 30.
pub open spec fn page_size(limit: Option<u32>) -> nat {
    match limit {
        None => 10,
        Some(n) => if n <= 30 {
            n as nat
        } else {
            30
        },
    }
}

/// The size of the page that a request with this limit gets.
pub fn effective_limit(limit: Option<u32>) -> (n: usize)
    ensures
        n == page_size(limit),
        n <= 30,
{
    let asked: u32 = match limit {
        Some(n) => n,
        None => DEFAULT_LIMIT,
    };
    if asked <= MAX_LIMIT {
        asked as usize
    } else {
        MAX_LIMIT as usize
    }
}

/// The keys that come strictly after the cursor, in order; all of them where
/// there is no cursor.
pub open spec fn keys_after(keys: Seq<Seq<u8>>, start_after: Option<Seq<u8>>) -> Seq<Seq<u8>> {
    match start_after {
        None => keys,
        Some(s) => keys.filter(|k: Seq<u8>| bytes_lt(s, k)),
    }
}

/// The first `size` items of a listing, or all of it where it is shorter.
pub open spec fn first_n<A>(items: Seq<A>, size: nat) -> Seq<A> {
    if size <= items.len() {
        items.take(size as int)
    } else {
        items
    }
}

/// One page: the first `size` keys after the cursor.
pub open spec fn page(keys: Seq<Seq<u8>>, start_after: Option<Seq<u8>>, size: nat) -> Seq<Seq<u8>> {
    first_n(keys_after(keys, start_after), size)
}

/// The keys that a run of page requests returns, one after the other: each
/// request continues after the last key of the page before it, and the run ends
/// with the first page that comes back empty.
pub open spec fn pages(keys: Seq<Seq<u8>>, start_after: Option<Seq<u8>>, sizes: Seq<nat>) -> Seq<
    Seq<u8>,
>
    decreases sizes.len(),
{
    if sizes.len() == 0 {
        Seq::empty()
    } else {
        let first = page(keys, start_after, sizes[0]);
        if first.len() == 0 {
            first
        } else {
            first + pages(keys, Some(first.last()), sizes.drop_first())
        }
    }
}

/// The sum of the page sizes of a run of requests.
pub open spec fn total(sizes: Seq<nat>) -> nat
    decreases sizes.len(),
{
    if sizes.len() == 0 {
        0
    } else {
        sizes[0] + total(sizes.drop_first())
    }
}

/// In an ascending listing the keys after a cursor are those from the first
/// place whose key comes after it.
pub proof fn lemma_keys_after_is_skip(keys: Seq<Seq<u8>>, s: Seq<u8>, p: int)
    requires
        0 <= p <= keys.len(),
        forall|i: int| 0 <= i < p ==> !bytes_lt(s, #[trigger] keys[i]),
        forall|i: int| p <= i < keys.len() ==> bytes_lt(s, #[trigger] keys[i]),
    ensures
        keys_after(keys, Some(s)) == keys.skip(p),
    decreases keys.len(),
{
    reveal(Seq::filter);
    if keys.len() > 0 {
        let front = keys.drop_last();
        if p == keys.len() {
            lemma_keys_after_is_skip(front, s, p - 1);
            assert(front.skip(p - 1) =~= Seq::<Seq<u8>>::empty());
            assert(keys.skip(p) =~= Seq::<Seq<u8>>::empty());
        } else {
            lemma_keys_after_is_skip(front, s, p);
            assert(front.skip(p).push(keys.last()) =~= keys.skip(p));
        }
    } else {
        assert(keys.skip(p) =~= keys);
    }
}

/// The place in an ascending listing from which the keys come after `s`.
pub proof fn lemma_resume_point(keys: Seq<Seq<u8>>, s: Seq<u8>) -> (p: int)
    requires
        ascending(keys),
    ensures
        0 <= p <= keys.len(),
        forall|i: int| 0 <= i < p ==> !bytes_lt(s, #[trigger] keys[i]),
        forall|i: int| p <= i < keys.len() ==> bytes_lt(s, #[trigger] keys[i]),
        keys_after(keys, Some(s)) == keys.skip(p),
    decreases keys.len(),
{
    let p = if keys.len() == 0 {
        0
    } else if bytes_lt(s, keys.last()) {
        let front = keys.drop_last();
        let q = lemma_resume_point(front, s);
        assert forall|i: int| 0 <= i < q implies !bytes_lt(s, #[trigger] keys[i]) by {
            assert(keys[i] == front[i]);
        }
        assert forall|i: int| q <= i < keys.len() implies bytes_lt(s, #[trigger] keys[i]) by {
            if i < front.len() {
                assert(keys[i] == front[i]);
            }
        }
        q
    } else {
        assert forall|i: int| 0 <= i < keys.len() implies !bytes_lt(s, #[trigger] keys[i]) by {
            if i < keys.len() - 1 && bytes_lt(s, keys[i]) {
                assert(bytes_lt(keys[i], keys[keys.len() - 1]));
                lemma_bytes_lt_transitive(s, keys[i], keys.last());
            }
        }
        keys.len() as int
    };
    lemma_keys_after_is_skip(keys, s, p);
    p
}

/// What is left of an ascending listing after a cursor is the listing from some
/// place on.
pub proof fn lemma_keys_after_is_suffix(keys: Seq<Seq<u8>>, start_after: Option<Seq<u8>>) -> (p:
    int)
    requires
        ascending(keys),
    ensures
        0 <= p <= keys.len(),
        keys_after(keys, start_after) == keys.skip(p),
{
    match start_after {
        None => {
            assert(keys.skip(0) =~= keys);
            0
        },
        Some(s) => lemma_resume_point(keys, s),
    }
}

/// A page and what follows its last key make up what followed the cursor: the
/// next request, made with the last key returned, neither repeats a key nor
/// leaves one out.
pub proof fn lemma_page_then_rest(keys: Seq<Seq<u8>>, start_after: Option<Seq<u8>>, size: nat)
    requires
        ascending(keys),
        page(keys, start_after, size).len() > 0,
    ensures
        page(keys, start_after, size) + keys_after(
            keys,
            Some(page(keys, start_after, size).last()),
        ) == keys_after(keys, start_after),
{
    let p = lemma_keys_after_is_suffix(keys, start_after);
    let rest = keys.skip(p);
    let first = page(keys, start_after, size);
    let n = first.len() as int;
    let last = first.last();
    assert(last == keys[p + n - 1]);
    assert forall|i: int| 0 <= i < p + n implies !bytes_lt(last, #[trigger] keys[i]) by {
        lemma_bytes_lt_total(last, keys[i]);
        if i < p + n - 1 {
            assert(bytes_lt(keys[i], keys[p + n - 1]));
        }
    }
    assert forall|i: int| p + n <= i < keys.len() implies bytes_lt(last, #[trigger] keys[i]) by {
        assert(bytes_lt(keys[p + n - 1], keys[i]));
    }
    lemma_keys_after_is_skip(keys, last, p + n);
    assert(first + keys.skip(p + n) =~= rest);
}

/// Paging reproduces the listing: a run of requests, each for at least one key
/// and each continuing after the last key of the page before it, returns the
/// keys after the first cursor in order, without repeating or leaving out any,
/// up to the number of keys asked for in all.
pub proof fn lemma_pages_reproduce_listing(
    keys: Seq<Seq<u8>>,
    start_after: Option<Seq<u8>>,
    sizes: Seq<nat>,
)
    requires
        ascending(keys),
        forall|i: int| 0 <= i < sizes.len() ==> sizes[i] >= 1,
    ensures
        pages(keys, start_after, sizes) == first_n(keys_after(keys, start_after), total(sizes)),
    decreases sizes.len(),
{
    let rest = keys_after(keys, start_after);
    if sizes.len() == 0 {
        assert(rest.take(0) =~= Seq::<Seq<u8>>::empty());
    } else {
        let first = page(keys, start_after, sizes[0]);
        let later = sizes.drop_first();
        assert forall|i: int| 0 <= i < later.len() implies later[i] >= 1 by {
            assert(later[i] == sizes[i + 1]);
        }
        if first.len() == 0 {
            assert(rest.len() == 0);
            assert(first =~= first_n(rest, total(sizes)));
        } else {
            lemma_page_then_rest(keys, start_after, sizes[0]);
            let next = keys_after(keys, Some(first.last()));
            lemma_pages_reproduce_listing(keys, Some(first.last()), later);
            assert(first + next == rest);
            assert(first + first_n(next, total(later)) =~= first_n(rest, total(sizes)));
        }
    }
}

/// A run of requests that asks for at least as many keys as the listing holds
/// returns all of it.
pub proof fn lemma_pages_cover_listing(keys: Seq<Seq<u8>>, sizes: Seq<nat>)
    requires
        ascending(keys),
        forall|i: int| 0 <= i < sizes.len() ==> sizes[i] >= 1,
        total(sizes) >= keys.len(),
    ensures
        pages(keys, None, sizes) == keys,
{
    lemma_pages_reproduce_listing(keys, None, sizes);
    assert(keys.take(keys.len() as int) =~= keys);
}

} // verus!

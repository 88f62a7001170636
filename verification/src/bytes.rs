//! Byte strings and their lexicographic order, by which every keyed region of
//! the state is listed.

use vstd::prelude::*;

verus! {

/// `a` comes strictly before `b` in lexicographic order: at the first place
/// where they differ `a` holds the smaller byte, or `a` is a proper prefix of `b`.
pub open spec fn bytes_lt(a: Seq<u8>, b: Seq<u8>) -> bool
    decreases a.len(),
{
    if b.len() == 0 {
        false
    } else if a.len() == 0 {
        true
    } else if a[0] != b[0] {
        a[0] < b[0]
    } else {
        bytes_lt(a.drop_first(), b.drop_first())
    }
}

/// In the sequence every byte string comes strictly before all that follow it.
pub open spec fn ascending(keys: Seq<Seq<u8>>) -> bool {
    forall|i: int, j: int|
        0 <= i < j < keys.len() ==> bytes_lt(#[trigger] keys[i], #[trigger] keys[j])
}

/// How one byte string stands to another.
#[derive(Clone, Copy, Debug, PartialEq, Eq, Structural)]
pub enum ByteOrder {
    Before,
    Same,
    After,
}

/// No byte string comes before itself.
pub proof fn lemma_bytes_lt_irreflexive(a: Seq<u8>)
    ensures
        !bytes_lt(a, a),
    decreases a.len(),
{
    if a.len() > 0 {
        lemma_bytes_lt_irreflexive(a.drop_first());
    }
}

/// Two byte strings with the same first byte and the same rest are the same.
proof fn lemma_same_first_and_rest(a: Seq<u8>, b: Seq<u8>)
    requires
        a.len() > 0,
        b.len() > 0,
        a[0] == b[0],
        a.drop_first() == b.drop_first(),
    ensures
        a == b,
{
    assert(a.len() == b.len()) by {
        assert(a.drop_first().len() == a.len() - 1);
        assert(b.drop_first().len() == b.len() - 1);
    }
    assert forall|i: int| 0 <= i < a.len() implies a[i] == b[i] by {
        if i > 0 {
            assert(a[i] == a.drop_first()[i - 1]);
            assert(b[i] == b.drop_first()[i - 1]);
        }
    }
    assert(a =~= b);
}

/// Of two byte strings that differ, exactly one comes before the other.
pub proof fn lemma_bytes_lt_total(a: Seq<u8>, b: Seq<u8>)
    ensures
        a == b || bytes_lt(a, b) || bytes_lt(b, a),
        !(bytes_lt(a, b) && bytes_lt(b, a)),
        a == b ==> !bytes_lt(a, b),
    decreases a.len(),
{
    lemma_bytes_lt_irreflexive(a);
    if a.len() == 0 || b.len() == 0 {
        if a.len() == 0 && b.len() == 0 {
            assert(a =~= b);
        }
    } else if a[0] == b[0] {
        lemma_bytes_lt_total(a.drop_first(), b.drop_first());
        if a.drop_first() == b.drop_first() {
            lemma_same_first_and_rest(a, b);
        }
    }
}

/// The order is transitive.
pub proof fn lemma_bytes_lt_transitive(a: Seq<u8>, b: Seq<u8>, c: Seq<u8>)
    requires
        bytes_lt(a, b),
        bytes_lt(b, c),
    ensures
        bytes_lt(a, c),
    decreases a.len(),
{
    if a.len() > 0 && a[0] == b[0] && b[0] == c[0] {
        lemma_bytes_lt_transitive(a.drop_first(), b.drop_first(), c.drop_first());
    }
}

/// An ascending sequence is determined by what it holds: two ascending
/// sequences that hold the same byte strings are the same sequence.
pub proof fn lemma_ascending_determined(a: Seq<Seq<u8>>, b: Seq<Seq<u8>>)
    requires
        ascending(a),
        ascending(b),
        forall|k: Seq<u8>| a.contains(k) <==> b.contains(k),
    ensures
        a == b,
    decreases a.len(),
{
    if a.len() == 0 {
        if b.len() > 0 {
            assert(b.contains(b[0]));
        }
        assert(a =~= b);
    } else if b.len() == 0 {
        assert(a.contains(a[0]));
    } else {
        // the last of each is the greatest of both
        let la = a.last();
        let lb = b.last();
        assert(a.contains(la) && b.contains(lb));
        let i = choose|i: int| 0 <= i < b.len() && b[i] == la;
        let j = choose|j: int| 0 <= j < a.len() && a[j] == lb;
        lemma_bytes_lt_total(la, lb);
        if i < b.len() - 1 {
            assert(bytes_lt(b[i], b[b.len() - 1]));
        }
        if j < a.len() - 1 {
            assert(bytes_lt(a[j], a[a.len() - 1]));
        }
        assert(la == lb);
        let fa = a.drop_last();
        let fb = b.drop_last();
        assert forall|k: Seq<u8>| fa.contains(k) <==> fb.contains(k) by {
            lemma_bytes_lt_irreflexive(la);
            if fa.contains(k) {
                let m = choose|m: int| 0 <= m < fa.len() && fa[m] == k;
                assert(a[m] == k && bytes_lt(a[m], a[a.len() - 1]));
                assert(a.contains(k));
                let n = choose|n: int| 0 <= n < b.len() && b[n] == k;
                assert(n < b.len() - 1);
                assert(fb[n] == k);
            }
            if fb.contains(k) {
                let m = choose|m: int| 0 <= m < fb.len() && fb[m] == k;
                assert(b[m] == k && bytes_lt(b[m], b[b.len() - 1]));
                assert(b.contains(k));
                let n = choose|n: int| 0 <= n < a.len() && a[n] == k;
                assert(n < a.len() - 1);
                assert(fa[n] == k);
            }
        }
        lemma_ascending_determined(fa, fb);
        assert(a =~= fa.push(la));
        assert(b =~= fb.push(lb));
    }
}

/// Skipping a common prefix does not change how two byte strings compare.
proof fn lemma_skip_common_prefix(a: Seq<u8>, b: Seq<u8>, n: int)
    requires
        0 <= n <= a.len(),
        n <= b.len(),
        forall|j: int| 0 <= j < n ==> a[j] == b[j],
    ensures
        bytes_lt(a, b) == bytes_lt(a.skip(n), b.skip(n)),
        (a == b) == (a.skip(n) == b.skip(n)),
    decreases n,
{
    if n == 0 {
        assert(a.skip(0) =~= a);
        assert(b.skip(0) =~= b);
    } else {
        lemma_skip_common_prefix(a.drop_first(), b.drop_first(), n - 1);
        assert(a.drop_first().skip(n - 1) =~= a.skip(n));
        assert(b.drop_first().skip(n - 1) =~= b.skip(n));
        if a.drop_first() == b.drop_first() {
            lemma_same_first_and_rest(a, b);
        }
    }
}

/// Compares two byte strings lexicographically.
pub fn compare_bytes(a: &[u8], b: &[u8]) -> (r: ByteOrder)
    ensures
        (r is Before) == bytes_lt(a@, b@),
        (r is Same) == (a@ == b@),
        (r is After) == bytes_lt(b@, a@),
{
    let mut i: usize = 0;
    while i < a.len() && i < b.len()
        invariant
            i <= a@.len(),
            i <= b@.len(),
            forall|j: int| 0 <= j < i ==> a@[j] == b@[j],
        decreases a@.len() - i,
    {
        if a[i] != b[i] {
            proof {
                lemma_skip_common_prefix(a@, b@, i as int);
                lemma_skip_common_prefix(b@, a@, i as int);
                lemma_bytes_lt_total(a@, b@);
            }
            if a[i] < b[i] {
                return ByteOrder::Before;
            } else {
                return ByteOrder::After;
            }
        }
        i += 1;
    }
    proof {
        lemma_skip_common_prefix(a@, b@, i as int);
        lemma_skip_common_prefix(b@, a@, i as int);
        lemma_bytes_lt_total(a@, b@);
        if i == a@.len() && i == b@.len() {
            assert(a@.skip(i as int) =~= b@.skip(i as int));
        }
    }
    if i < b.len() {
        ByteOrder::Before
    } else if i < a.len() {
        ByteOrder::After
    } else {
        ByteOrder::Same
    }
}

/// A fresh copy of a byte string.
pub fn copy_bytes(a: &[u8]) -> (r: Vec<u8>)
    ensures
        r@ == a@,
{
    let mut r: Vec<u8> = Vec::new();
    let mut i: usize = 0;
    while i < a.len()
        invariant
            i <= a@.len(),
            r@ == a@.subrange(0, i as int),
        decreases a@.len() - i,
    {
        r.push(a[i]);
        i += 1;
        assert(r@ =~= a@.subrange(0, i as int));
    }
    assert(a@.subrange(0, i as int) =~= a@);
    r
}

} // verus!

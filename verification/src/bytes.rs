//! Byte-string comparison: the lexicographic order that keeps the in-memory
//! store's entries in key order, and plain equality of byte strings.

use vstd::prelude::*;

verus! {

/// Lexicographic order on byte strings: `a` comes strictly before `b`.
pub open spec fn lex_lt(a: Seq<u8>, b: Seq<u8>) -> bool
    decreases a.len(),
{
    if b.len() == 0 {
        false
    } else if a.len() == 0 {
        true
    } else if a[0] < b[0] {
        true
    } else if a[0] == b[0] {
        lex_lt(a.skip(1), b.skip(1))
    } else {
        false
    }
}

/// Exactly one of `lex_lt(a, b)`, `a == b`, `lex_lt(b, a)` holds.
pub proof fn lemma_lex_trichotomy(a: Seq<u8>, b: Seq<u8>)
    ensures
        lex_lt(a, b) || lex_lt(b, a) || a == b,
        lex_lt(a, b) ==> !lex_lt(b, a) && a != b,
        lex_lt(b, a) ==> !lex_lt(a, b) && a != b,
    decreases a.len(),
{
    if a.len() == 0 && b.len() == 0 {
        assert(a =~= b);
    } else if a.len() > 0 && b.len() > 0 && a[0] == b[0] {
        lemma_lex_trichotomy(a.skip(1), b.skip(1));
        if a.skip(1) == b.skip(1) {
            assert forall|i: int| 0 <= i < a.len() implies a[i] == b[i] by {
                if i > 0 {
                    assert(a.skip(1)[i - 1] == a[i]);
                    assert(b.skip(1)[i - 1] == b[i]);
                }
            }
            assert(a =~= b);
        }
        if a == b {
            assert(a.skip(1) =~= b.skip(1));
        }
    }
}

/// The lexicographic order is transitive.
pub proof fn lemma_lex_transitive(a: Seq<u8>, b: Seq<u8>, c: Seq<u8>)
    requires
        lex_lt(a, b),
        lex_lt(b, c),
    ensures
        lex_lt(a, c),
    decreases a.len(),
{
    if a.len() > 0 && b.len() > 0 && c.len() > 0 && a[0] == b[0] && b[0] == c[0] {
        lemma_lex_transitive(a.skip(1), b.skip(1), c.skip(1));
    }
}

/// The three outcomes of a byte-string comparison.
#[derive(Clone, Copy, PartialEq, Eq, Structural, Debug)]
pub enum ByteOrder {
    Lt,
    Eq,
    Gt,
}

/// Three-way comparison of `a` and `b` from position `i` on, against the
/// lexicographic order of the remaining suffixes.
fn byte_cmp_from(a: &[u8], b: &[u8], i: usize) -> (r: ByteOrder)
    requires
        i <= a@.len(),
        i <= b@.len(),
    ensures
        r is Lt <==> lex_lt(a@.skip(i as int), b@.skip(i as int)),
        r is Eq <==> a@.skip(i as int) == b@.skip(i as int),
        r is Gt <==> lex_lt(b@.skip(i as int), a@.skip(i as int)),
    decreases a@.len() - i,
{
    proof {
        lemma_lex_trichotomy(a@.skip(i as int), b@.skip(i as int));
    }
    if i == b.len() {
        if i == a.len() {
            proof {
                assert(a@.skip(i as int) =~= b@.skip(i as int));
            }
            ByteOrder::Eq
        } else {
            ByteOrder::Gt
        }
    } else if i == a.len() {
        ByteOrder::Lt
    } else if a[i] < b[i] {
        ByteOrder::Lt
    } else if a[i] > b[i] {
        ByteOrder::Gt
    } else {
        let r = byte_cmp_from(a, b, i + 1);
        proof {
            assert(a@.skip(i as int)[0] == a@[i as int]);
            assert(b@.skip(i as int)[0] == b@[i as int]);
            assert(a@.skip(i as int).skip(1) =~= a@.skip(i + 1));
            assert(b@.skip(i as int).skip(1) =~= b@.skip(i + 1));
            if r is Eq {
                assert(a@.skip(i as int) =~= b@.skip(i as int));
            }
            if a@.skip(i as int) == b@.skip(i as int) {
                assert(a@.skip(i + 1) =~= a@.skip(i as int).skip(1));
            }
        }
        r
    }
}

/// Three-way comparison of two byte strings in the lexicographic order.
pub fn byte_cmp(a: &[u8], b: &[u8]) -> (r: ByteOrder)
    ensures
        r is Lt <==> lex_lt(a@, b@),
        r is Eq <==> a@ == b@,
        r is Gt <==> lex_lt(b@, a@),
{
    let r = byte_cmp_from(a, b, 0);
    proof {
        assert(a@.skip(0) =~= a@);
        assert(b@.skip(0) =~= b@);
    }
    r
}

} // verus!

//! Lexicographic (unsigned, shorter-is-less) order on byte sequences.
//!
//! Keys produced by this crate are compared by raw bytes; the spec functions
//! here define that order, and the lemmas relate it to concatenation, which
//! is how the composite-key results are stated and proved.
use vstd::prelude::*;

verus! {

/// Strict lexicographic order on byte sequences: compare element by element;
/// on a common-prefix tie the shorter sequence comes first.
pub open spec fn lex_lt(a: Seq<u8>, b: Seq<u8>) -> bool
    decreases a.len(),
{
    if b.len() == 0 {
        false
    } else if a.len() == 0 {
        true
    } else if a[0] < b[0] {
        true
    } else if a[0] > b[0] {
        false
    } else {
        lex_lt(a.drop_first(), b.drop_first())
    }
}

/// Reflexive closure of [`lex_lt`].
pub open spec fn lex_le(a: Seq<u8>, b: Seq<u8>) -> bool {
    a == b || lex_lt(a, b)
}

/// A sequence precedes (or equals) anything it is a prefix of.
pub proof fn lemma_lex_le_prefix(a: Seq<u8>, tail: Seq<u8>)
    ensures
        lex_le(a, a + tail),
    decreases a.len(),
{
    if a.len() == 0 {
        if tail.len() == 0 {
            assert(a =~= a + tail);
        } else {
            assert((a + tail).len() > 0);
        }
    } else {
        lemma_lex_le_prefix(a.drop_first(), tail);
        assert((a + tail).drop_first() =~= a.drop_first() + tail);
        assert(a[0] == (a + tail)[0]);
    }
}

/// Prepending a common prefix to both sides does not change the order.
pub proof fn lemma_lex_lt_common_prefix(p: Seq<u8>, x: Seq<u8>, y: Seq<u8>)
    ensures
        lex_lt(p + x, p + y) <==> lex_lt(x, y),
    decreases p.len(),
{
    if p.len() == 0 {
        assert(p + x =~= x);
        assert(p + y =~= y);
    } else {
        lemma_lex_lt_common_prefix(p.drop_first(), x, y);
        assert((p + x).drop_first() =~= p.drop_first() + x);
        assert((p + y).drop_first() =~= p.drop_first() + y);
        assert((p + x)[0] == p[0]);
        assert((p + y)[0] == p[0]);
    }
}

/// If the two sequences agree strictly below position `i` and differ in the
/// smaller direction at `i`, the first sorts before the second.
pub proof fn lemma_lex_lt_from_first_diff(a: Seq<u8>, b: Seq<u8>, i: int)
    requires
        0 <= i < a.len(),
        i < b.len(),
        forall|j: int| 0 <= j < i ==> a[j] == b[j],
        a[i] < b[i],
    ensures
        lex_lt(a, b),
    decreases i,
{
    if i > 0 {
        lemma_lex_lt_from_first_diff(a.drop_first(), b.drop_first(), i - 1);
    }
}

} // verus!

//! Composite keys: joining byte parts with the reserved separator and
//! deriving range-boundary keys for prefix scans.
use vstd::prelude::*;

use crate::codes::push_bytes;
use crate::order::lemma_lex_le_prefix;
use crate::order::lemma_lex_lt_common_prefix;
use crate::order::lex_le;
use crate::order::lex_lt;
use crate::END_MARKER;
use crate::SEPARATOR;

verus! {

/// The byte sequences behind a list of byte-slice parts.
pub open spec fn views_of(parts: Seq<&[u8]>) -> Seq<Seq<u8>> {
    Seq::new(parts.len(), |i: int| parts[i]@)
}

/// The joined bytes of composite parts: the parts in order, with exactly one
/// separator between each adjacent pair, none leading or trailing.
pub open spec fn composite_bytes(parts: Seq<Seq<u8>>) -> Seq<u8>
    decreases parts.len(),
{
    if parts.len() == 0 {
        Seq::empty()
    } else if parts.len() == 1 {
        parts[0]
    } else {
        parts[0] + seq![SEPARATOR] + composite_bytes(parts.drop_first())
    }
}

/// The length of the joined bytes: the part lengths plus one separator
/// between each adjacent pair.
pub open spec fn composite_len(parts: Seq<Seq<u8>>) -> int
    decreases parts.len(),
{
    if parts.len() == 0 {
        0
    } else if parts.len() == 1 {
        parts[0].len() as int
    } else {
        parts[0].len() + 1 + composite_len(parts.drop_first())
    }
}

pub proof fn lemma_composite_bytes_len(parts: Seq<Seq<u8>>)
    ensures
        composite_bytes(parts).len() == composite_len(parts),
    decreases parts.len(),
{
    if parts.len() > 1 {
        lemma_composite_bytes_len(parts.drop_first());
    }
}

/// Joining a split list: for non-empty `p` and `q`, the join of `p + q` is
/// the join of `p`, one separator, and the join of `q`.
pub proof fn lemma_composite_split(p: Seq<Seq<u8>>, q: Seq<Seq<u8>>)
    requires
        p.len() > 0,
        q.len() > 0,
    ensures
        composite_bytes(p + q) == composite_bytes(p) + seq![SEPARATOR] + composite_bytes(q),
    decreases p.len(),
{
    if p.len() == 1 {
        assert((p + q).drop_first() =~= q);
        assert((p + q)[0] == p[0]);
        assert(composite_bytes(p + q) =~= composite_bytes(p) + seq![SEPARATOR]
            + composite_bytes(q));
    } else {
        lemma_composite_split(p.drop_first(), q);
        assert((p + q).drop_first() =~= p.drop_first() + q);
        assert((p + q)[0] == p[0]);
        assert(composite_bytes(p + q) =~= composite_bytes(p) + seq![SEPARATOR]
            + composite_bytes(q));
    }
}

/// One step of the joined length: taking one more part adds that part's
/// length, plus a separator unless it is the first part.
pub proof fn lemma_composite_len_take_step(parts: Seq<Seq<u8>>, i: int)
    requires
        0 <= i < parts.len(),
    ensures
        composite_len(parts.take(i + 1)) == composite_len(parts.take(i)) + (if i == 0 {
            0int
        } else {
            1int
        }) + parts[i].len(),
{
    let head = parts.take(i);
    let single = seq![parts[i]];
    assert(parts.take(i + 1) =~= head + single);
    if i == 0 {
        assert(head + single =~= single);
        assert(composite_len(single) == parts[i].len());
    } else {
        lemma_composite_split(head, single);
        lemma_composite_bytes_len(parts.take(i + 1));
        lemma_composite_bytes_len(head);
        lemma_composite_bytes_len(single);
        assert(composite_bytes(single) == parts[i]);
    }
}

/// Taking a prefix of the parts never increases the joined length.
pub proof fn lemma_composite_len_take_monotone(parts: Seq<Seq<u8>>, j: int)
    requires
        0 <= j <= parts.len(),
    ensures
        composite_len(parts.take(j)) <= composite_len(parts),
    decreases parts.len() - j,
{
    if j == parts.len() {
        assert(parts.take(j) =~= parts);
    } else {
        lemma_composite_len_take_monotone(parts, j + 1);
        lemma_composite_len_take_step(parts, j);
    }
}

/// Range-boundary law: for a non-empty prefix of parts and any non-empty
/// extension, the lower boundary key (the joined prefix followed by one
/// separator) sorts no later than the joined extended key, and the joined
/// extended key sorts strictly before the upper boundary key (the joined
/// prefix followed by one end marker).
pub proof fn lemma_prefix_range_bounds(prefix: Seq<Seq<u8>>, ext: Seq<Seq<u8>>)
    requires
        prefix.len() > 0,
        ext.len() > 0,
    ensures
        lex_le(composite_bytes(prefix) + seq![SEPARATOR], composite_bytes(prefix + ext)),
        lex_lt(composite_bytes(prefix + ext), composite_bytes(prefix) + seq![END_MARKER]),
{
    let base = composite_bytes(prefix);
    let rest = composite_bytes(ext);
    lemma_composite_split(prefix, ext);
    lemma_lex_le_prefix(base + seq![SEPARATOR], rest);
    assert(base + seq![SEPARATOR] + rest =~= (base + seq![SEPARATOR]) + rest);
    assert(lex_le(composite_bytes(prefix) + seq![SEPARATOR], composite_bytes(prefix + ext)));
    let low = seq![SEPARATOR] + rest;
    assert(composite_bytes(prefix + ext) =~= base + low);
    assert(low[0] == SEPARATOR);
    assert(lex_lt(low, seq![END_MARKER]));
    lemma_lex_lt_common_prefix(base, low, seq![END_MARKER]);
}

/// Append the joined composite parts to `dst`.
pub(crate) fn append_composite(dst: &mut Vec<u8>, parts: &[&[u8]])
    ensures
        final(dst)@ == old(dst)@ + composite_bytes(views_of(parts@)),
{
    let n = parts.len();
    let mut i: usize = 0;
    while i < n
        invariant
            n == parts@.len(),
            i <= n,
            i == 0 ==> dst@ == old(dst)@,
            1 <= i < n ==> dst@ == old(dst)@ + composite_bytes(views_of(parts@).take(i as int))
                + seq![SEPARATOR],
            i == n && n >= 1 ==> dst@ == old(dst)@ + composite_bytes(
                views_of(parts@).take(i as int),
            ),
        decreases n - i,
    {
        let ghost pre = dst@;
        let part: &[u8] = parts[i];
        push_bytes(dst, part);
        if i + 1 < n {
            dst.push(SEPARATOR);
        }
        proof {
            let vs = views_of(parts@);
            assert(vs.take(i + 1) =~= vs.take(i as int) + seq![vs[i as int]]);
            if i == 0 {
                assert(vs.take(1) =~= seq![vs[0]]);
                assert(composite_bytes(vs.take(1)) == vs[0]);
                if i + 1 < n {
                    assert(dst@ =~= old(dst)@ + composite_bytes(vs.take(1)) + seq![SEPARATOR]);
                } else {
                    assert(dst@ =~= old(dst)@ + composite_bytes(vs.take(1)));
                }
            } else {
                lemma_composite_split(vs.take(i as int), seq![vs[i as int]]);
                assert(composite_bytes(seq![vs[i as int]]) == vs[i as int]);
                if i + 1 < n {
                    assert(dst@ =~= old(dst)@ + composite_bytes(vs.take(i + 1)) + seq![SEPARATOR]);
                } else {
                    assert(dst@ =~= old(dst)@ + composite_bytes(vs.take(i + 1)));
                }
            }
        }
        i = i + 1;
    }
    proof {
        if n == 0 {
            assert(dst@ =~= old(dst)@ + composite_bytes(views_of(parts@)));
        } else {
            assert(views_of(parts@).take(n as int) =~= views_of(parts@));
        }
    }
}

/// The number of bytes that joining `parts` produces: the sum of the part
/// lengths plus one separator between each adjacent pair.
pub fn encode_len(parts: &[&[u8]]) -> (r: usize)
    requires
        composite_len(views_of(parts@)) <= usize::MAX,
    ensures
        r == composite_len(views_of(parts@)),
{
    let ghost vs = views_of(parts@);
    let n = parts.len();
    let mut acc: usize = 0;
    let mut i: usize = 0;
    while i < n
        invariant
            n == parts@.len(),
            vs == views_of(parts@),
            i <= n,
            acc == composite_len(vs.take(i as int)),
            composite_len(vs) <= usize::MAX,
        decreases n - i,
    {
        proof {
            lemma_composite_len_take_step(vs, i as int);
            lemma_composite_len_take_monotone(vs, i + 1);
        }
        let part: &[u8] = parts[i];
        if i > 0 {
            acc = acc + 1;
        }
        acc = acc + part.len();
        i = i + 1;
    }
    proof {
        assert(vs.take(n as int) =~= vs);
    }
    acc
}

} // verus!

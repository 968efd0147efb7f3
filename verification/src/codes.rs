//! Bit-level scalar transforms.
//!
//! Each supported scalar type is mapped to a fixed-width byte sequence whose
//! raw byte order reproduces the value's natural order. The spec functions
//! here are the reference meaning of those transforms; the lemmas prove the
//! order-preservation claims, and the executable builders append the bytes.
use vstd::prelude::*;

use crate::order::lemma_lex_lt_from_first_diff;
use crate::order::lex_lt;

verus! {

/// The most significant bit of a 64-bit word.
pub const SIGN_BIT: u64 = 0x8000_0000_0000_0000;

/// The eight bytes of `n`, most significant first.
pub open spec fn be8_bytes(n: u64) -> Seq<u8> {
    seq![
        ((n >> 56) & 0xff) as u8,
        ((n >> 48) & 0xff) as u8,
        ((n >> 40) & 0xff) as u8,
        ((n >> 32) & 0xff) as u8,
        ((n >> 24) & 0xff) as u8,
        ((n >> 16) & 0xff) as u8,
        ((n >> 8) & 0xff) as u8,
        (n & 0xff) as u8,
    ]
}

/// The unsigned word whose big-endian bytes sort like the signed value:
/// reinterpret the two's-complement pattern and flip the sign bit.
pub open spec fn i64_order_word(n: i64) -> u64 {
    (n as u64) ^ SIGN_BIT
}

/// The encoding of a signed 64-bit integer.
pub open spec fn i64_key_bytes(n: i64) -> Seq<u8> {
    be8_bytes(i64_order_word(n))
}

/// The one-byte encoding of a boolean: `false` before `true`.
pub open spec fn bool_key_bytes(b: bool) -> Seq<u8> {
    if b {
        seq![0x01u8]
    } else {
        seq![0x00u8]
    }
}

/// Whether an IEEE-754 double bit pattern is a NaN: exponent all ones and a
/// non-zero mantissa.
pub open spec fn f64_bits_is_nan(bits: u64) -> bool {
    (bits >> 52) & 0x7ff == 0x7ff && bits & 0x000f_ffff_ffff_ffff != 0
}

/// The unsigned word whose big-endian bytes sort like the double with bit
/// pattern `bits`: complement a negative pattern entirely, flip only the
/// sign bit of a non-negative one.
pub open spec fn f64_order_word(bits: u64) -> u64 {
    if bits >> 63 == 1 {
        !bits
    } else {
        bits ^ SIGN_BIT
    }
}

/// The encoding of a double given by its IEEE-754 bit pattern.
pub open spec fn f64_key_bytes(bits: u64) -> Seq<u8> {
    be8_bytes(f64_order_word(bits))
}

/// The order that `<` on doubles induces on their bit patterns, refined so
/// that negative zero comes before positive zero: among two negative
/// patterns the larger pattern is the smaller number; a negative pattern
/// comes before a non-negative one; among two non-negative patterns the
/// order is the pattern order. For non-NaN patterns `a`, `b` with values
/// `x < y` this relation holds of `a`, `b`.
pub open spec fn f64_bits_before(a: u64, b: u64) -> bool {
    if a >> 63 == 1 && b >> 63 == 1 {
        a > b
    } else if a >> 63 == 1 && b >> 63 == 0 {
        true
    } else if a >> 63 == 0 && b >> 63 == 0 {
        a < b
    } else {
        false
    }
}

/// The lowercase hexadecimal digit for a value below sixteen.
pub open spec fn hex_digit(n: u8) -> char
    recommends
        n < 16,
{
    if n < 10 {
        (n + 0x30) as u8 as char
    } else {
        (n + 0x57) as u8 as char
    }
}

/// The lowercase hexadecimal rendering of a byte sequence: two digits per
/// byte, high nibble first.
pub open spec fn hex_chars_of(s: Seq<u8>) -> Seq<char>
    decreases s.len(),
{
    if s.len() == 0 {
        Seq::empty()
    } else {
        seq![hex_digit(s[0] >> 4), hex_digit(s[0] & 0x0f)] + hex_chars_of(s.drop_first())
    }
}

/// Order preservation for unsigned integers: the big-endian bytes of a
/// smaller word sort strictly before those of a larger word.
pub proof fn lemma_encode_u64_preserves_order(a: u64, b: u64)
    requires
        a < b,
    ensures
        lex_lt(be8_bytes(a), be8_bytes(b)),
{
    let x = be8_bytes(a);
    let y = be8_bytes(b);
    if (a >> 56) & 0xff != (b >> 56) & 0xff {
        assert((((a >> 56) & 0xff) as u8) < (((b >> 56) & 0xff) as u8)) by (bit_vector)
            requires
                a < b,
                (a >> 56) & 0xff != (b >> 56) & 0xff,
        ;
        lemma_lex_lt_from_first_diff(x, y, 0);
    } else if (a >> 48) & 0xff != (b >> 48) & 0xff {
        assert((((a >> 48) & 0xff) as u8) < (((b >> 48) & 0xff) as u8)) by (bit_vector)
            requires
                a < b,
                (a >> 56) & 0xff == (b >> 56) & 0xff,
                (a >> 48) & 0xff != (b >> 48) & 0xff,
        ;
        lemma_lex_lt_from_first_diff(x, y, 1);
    } else if (a >> 40) & 0xff != (b >> 40) & 0xff {
        assert((((a >> 40) & 0xff) as u8) < (((b >> 40) & 0xff) as u8)) by (bit_vector)
            requires
                a < b,
                (a >> 56) & 0xff == (b >> 56) & 0xff,
                (a >> 48) & 0xff == (b >> 48) & 0xff,
                (a >> 40) & 0xff != (b >> 40) & 0xff,
        ;
        lemma_lex_lt_from_first_diff(x, y, 2);
    } else if (a >> 32) & 0xff != (b >> 32) & 0xff {
        assert((((a >> 32) & 0xff) as u8) < (((b >> 32) & 0xff) as u8)) by (bit_vector)
            requires
                a < b,
                (a >> 56) & 0xff == (b >> 56) & 0xff,
                (a >> 48) & 0xff == (b >> 48) & 0xff,
                (a >> 40) & 0xff == (b >> 40) & 0xff,
                (a >> 32) & 0xff != (b >> 32) & 0xff,
        ;
        lemma_lex_lt_from_first_diff(x, y, 3);
    } else if (a >> 24) & 0xff != (b >> 24) & 0xff {
        assert((((a >> 24) & 0xff) as u8) < (((b >> 24) & 0xff) as u8)) by (bit_vector)
            requires
                a < b,
                (a >> 56) & 0xff == (b >> 56) & 0xff,
                (a >> 48) & 0xff == (b >> 48) & 0xff,
                (a >> 40) & 0xff == (b >> 40) & 0xff,
                (a >> 32) & 0xff == (b >> 32) & 0xff,
                (a >> 24) & 0xff != (b >> 24) & 0xff,
        ;
        lemma_lex_lt_from_first_diff(x, y, 4);
    } else if (a >> 16) & 0xff != (b >> 16) & 0xff {
        assert((((a >> 16) & 0xff) as u8) < (((b >> 16) & 0xff) as u8)) by (bit_vector)
            requires
                a < b,
                (a >> 56) & 0xff == (b >> 56) & 0xff,
                (a >> 48) & 0xff == (b >> 48) & 0xff,
                (a >> 40) & 0xff == (b >> 40) & 0xff,
                (a >> 32) & 0xff == (b >> 32) & 0xff,
                (a >> 24) & 0xff == (b >> 24) & 0xff,
                (a >> 16) & 0xff != (b >> 16) & 0xff,
        ;
        lemma_lex_lt_from_first_diff(x, y, 5);
    } else if (a >> 8) & 0xff != (b >> 8) & 0xff {
        assert((((a >> 8) & 0xff) as u8) < (((b >> 8) & 0xff) as u8)) by (bit_vector)
            requires
                a < b,
                (a >> 56) & 0xff == (b >> 56) & 0xff,
                (a >> 48) & 0xff == (b >> 48) & 0xff,
                (a >> 40) & 0xff == (b >> 40) & 0xff,
                (a >> 32) & 0xff == (b >> 32) & 0xff,
                (a >> 24) & 0xff == (b >> 24) & 0xff,
                (a >> 16) & 0xff == (b >> 16) & 0xff,
                (a >> 8) & 0xff != (b >> 8) & 0xff,
        ;
        lemma_lex_lt_from_first_diff(x, y, 6);
    } else if a & 0xff != b & 0xff {
        assert(((a & 0xff) as u8) < ((b & 0xff) as u8)) by (bit_vector)
            requires
                a < b,
                (a >> 56) & 0xff == (b >> 56) & 0xff,
                (a >> 48) & 0xff == (b >> 48) & 0xff,
                (a >> 40) & 0xff == (b >> 40) & 0xff,
                (a >> 32) & 0xff == (b >> 32) & 0xff,
                (a >> 24) & 0xff == (b >> 24) & 0xff,
                (a >> 16) & 0xff == (b >> 16) & 0xff,
                (a >> 8) & 0xff == (b >> 8) & 0xff,
                a & 0xff != b & 0xff,
        ;
        lemma_lex_lt_from_first_diff(x, y, 7);
    } else {
        assert(false) by (bit_vector)
            requires
                a < b,
                (a >> 56) & 0xff == (b >> 56) & 0xff,
                (a >> 48) & 0xff == (b >> 48) & 0xff,
                (a >> 40) & 0xff == (b >> 40) & 0xff,
                (a >> 32) & 0xff == (b >> 32) & 0xff,
                (a >> 24) & 0xff == (b >> 24) & 0xff,
                (a >> 16) & 0xff == (b >> 16) & 0xff,
                (a >> 8) & 0xff == (b >> 8) & 0xff,
                a & 0xff == b & 0xff,
        ;
    }
}

/// Flipping the sign bit turns signed order into unsigned order.
proof fn lemma_i64_order_word_monotone(a: i64, b: i64)
    requires
        a < b,
    ensures
        i64_order_word(a) < i64_order_word(b),
{
    assert(((a as u64) ^ 0x8000_0000_0000_0000u64) < ((b as u64) ^ 0x8000_0000_0000_0000u64))
        by (bit_vector)
        requires
            a < b,
    ;
}

/// Order preservation for signed integers: the encoded bytes of a smaller
/// signed value sort strictly before those of a larger one.
pub proof fn lemma_encode_i64_preserves_order(a: i64, b: i64)
    requires
        a < b,
    ensures
        lex_lt(i64_key_bytes(a), i64_key_bytes(b)),
{
    lemma_i64_order_word_monotone(a, b);
    lemma_encode_u64_preserves_order(i64_order_word(a), i64_order_word(b));
}

/// The float transform is monotone with respect to the pattern order.
proof fn lemma_f64_order_word_monotone(a: u64, b: u64)
    requires
        f64_bits_before(a, b),
    ensures
        f64_order_word(a) < f64_order_word(b),
{
    if a >> 63 == 1 && b >> 63 == 1 {
        assert(!a < !b) by (bit_vector)
            requires
                a > b,
        ;
    } else if a >> 63 == 1 && b >> 63 == 0 {
        assert(!a < (b ^ 0x8000_0000_0000_0000u64)) by (bit_vector)
            requires
                a >> 63 == 1,
                b >> 63 == 0,
        ;
    } else {
        assert((a ^ 0x8000_0000_0000_0000u64) < (b ^ 0x8000_0000_0000_0000u64)) by (bit_vector)
            requires
                a < b,
                a >> 63 == 0,
                b >> 63 == 0,
        ;
    }
}

/// Order preservation for doubles, NaN excluded: whenever the value with
/// pattern `a` is below the value with pattern `b` (and so
/// [`f64_bits_before`] holds of the patterns), the encoded bytes of `a`
/// sort strictly before those of `b`.
pub proof fn lemma_encode_f64_preserves_order(a: u64, b: u64)
    requires
        !f64_bits_is_nan(a),
        !f64_bits_is_nan(b),
        f64_bits_before(a, b),
    ensures
        lex_lt(f64_key_bytes(a), f64_key_bytes(b)),
{
    lemma_f64_order_word_monotone(a, b);
    lemma_encode_u64_preserves_order(f64_order_word(a), f64_order_word(b));
}

/// Append the big-endian bytes of `n` to `dst`.
pub(crate) fn push_be8(dst: &mut Vec<u8>, n: u64)
    ensures
        final(dst)@ == old(dst)@ + be8_bytes(n),
{
    dst.push(((n >> 56) & 0xff) as u8);
    dst.push(((n >> 48) & 0xff) as u8);
    dst.push(((n >> 40) & 0xff) as u8);
    dst.push(((n >> 32) & 0xff) as u8);
    dst.push(((n >> 24) & 0xff) as u8);
    dst.push(((n >> 16) & 0xff) as u8);
    dst.push(((n >> 8) & 0xff) as u8);
    dst.push((n & 0xff) as u8);
    proof {
        assert(dst@ =~= old(dst)@ + be8_bytes(n));
    }
}

/// Append a copy of `src` to `dst`.
pub(crate) fn push_bytes(dst: &mut Vec<u8>, src: &[u8])
    ensures
        final(dst)@ == old(dst)@ + src@,
{
    let mut i: usize = 0;
    while i < src.len()
        invariant
            i <= src@.len(),
            dst@ == old(dst)@ + src@.subrange(0, i as int),
        decreases src@.len() - i,
    {
        let b = src[i];
        dst.push(b);
        i = i + 1;
        proof {
            assert(dst@ =~= old(dst)@ + src@.subrange(0, i as int));
        }
    }
    proof {
        assert(src@.subrange(0, src@.len() as int) =~= src@);
    }
}

} // verus!

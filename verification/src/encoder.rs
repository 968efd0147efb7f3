//! A reusable buffer that accumulates encoded values without a fresh
//! allocation per call.
use vstd::prelude::*;
use vstd::string::StringSliceAdditionalSpecFns;

use crate::codes::be8_bytes;
use crate::codes::f64_bits_is_nan;
use crate::codes::f64_key_bytes;
use crate::codes::i64_key_bytes;
use crate::codes::push_be8;
use crate::codes::SIGN_BIT;
use crate::composite::append_composite;
use crate::composite::composite_bytes;
use crate::composite::composite_len;
use crate::composite::lemma_composite_bytes_len;
use crate::composite::views_of;
use crate::raw::bytes_mut_as_slice;
use crate::raw::bytes_mut_clear;
use crate::raw::bytes_mut_extend;
use crate::raw::bytes_mut_freeze;
use crate::raw::bytes_mut_put_u8;
use crate::raw::bytes_mut_view;
use crate::raw::bytes_view;
use crate::raw::uuid_as_bytes;
use crate::raw::uuid_view;

verus! {

/// A reusable, lexicographically sortable key encoder.
///
/// Writers append the same byte transforms that the allocating
/// constructors produce, into one growable buffer. Clearing the buffer
/// restores the empty state that a fresh encoder starts in, and every
/// writer appends bytes that depend on the written value alone, so a
/// cleared encoder and a fresh one produce identical bytes for the same
/// sequence of writes.
pub struct Encoder {
    buf: bytes::BytesMut,
}

impl View for Encoder {
    type V = Seq<u8>;

    closed spec fn view(&self) -> Seq<u8> {
        bytes_mut_view(self.buf)
    }
}

impl Encoder {
    /// Create a new encoder with a capacity hint; it holds no bytes yet.
    pub fn with_capacity(cap: usize) -> (r: Self)
        ensures
            r@ == Seq::<u8>::empty(),
    {
        Self { buf: crate::raw::bytes_mut_with_capacity(cap) }
    }

    /// Reset the buffer to empty so the encoder can be reused; capacity is
    /// retained.
    pub fn clear(&mut self)
        ensures
            final(self)@ == Seq::<u8>::empty(),
    {
        bytes_mut_clear(&mut self.buf);
    }

    /// Convert the accumulated buffer into an immutable byte sequence
    /// holding the same bytes; the encoder is consumed.
    pub fn freeze(self) -> (r: bytes::Bytes)
        ensures
            bytes_view(r) == self@,
    {
        let Encoder { buf } = self;
        bytes_mut_freeze(buf)
    }

    /// Borrow the current buffer contents.
    pub fn as_slice(&self) -> (r: &[u8])
        ensures
            r@ == self@,
    {
        bytes_mut_as_slice(&self.buf)
    }

    /// Return the current buffer length.
    pub fn len(&self) -> (r: usize)
        ensures
            r == self@.len(),
    {
        bytes_mut_as_slice(&self.buf).len()
    }

    /// Append a single byte.
    pub fn push_byte(&mut self, b: u8)
        requires
            old(self)@.len() < isize::MAX as usize,
        ensures
            final(self)@ == old(self)@ + seq![b],
    {
        bytes_mut_put_u8(&mut self.buf, b);
    }

    /// Append a UTF-8 string's raw bytes; the result is the number of
    /// bytes written.
    pub fn encode_string_into(&mut self, s: &str) -> (r: usize)
        requires
            old(self)@.len() + s.spec_bytes().len() <= usize::MAX,
        ensures
            final(self)@ == old(self)@ + s.spec_bytes(),
            r == s.spec_bytes().len(),
    {
        let b = s.as_bytes();
        bytes_mut_extend(&mut self.buf, b);
        b.len()
    }

    /// Append the eight big-endian bytes of `n`; the result is the number
    /// of bytes written, always eight.
    pub fn encode_u64_into(&mut self, n: u64) -> (r: usize)
        requires
            old(self)@.len() + 8 <= usize::MAX,
        ensures
            final(self)@ == old(self)@ + be8_bytes(n),
            r == 8,
    {
        let mut v: Vec<u8> = Vec::new();
        push_be8(&mut v, n);
        proof {
            assert(Seq::<u8>::empty() + be8_bytes(n) =~= be8_bytes(n));
        }
        bytes_mut_extend(&mut self.buf, v.as_slice());
        8
    }

    /// Append the sign-bit-flipped eight-byte encoding of `n`; the result
    /// is the number of bytes written, always eight.
    pub fn encode_i64_into(&mut self, n: i64) -> (r: usize)
        requires
            old(self)@.len() + 8 <= usize::MAX,
        ensures
            final(self)@ == old(self)@ + i64_key_bytes(n),
            r == 8,
    {
        let w = (n as u64) ^ SIGN_BIT;
        let mut v: Vec<u8> = Vec::new();
        push_be8(&mut v, w);
        proof {
            assert(Seq::<u8>::empty() + i64_key_bytes(n) =~= i64_key_bytes(n));
        }
        bytes_mut_extend(&mut self.buf, v.as_slice());
        8
    }

    /// Append the order-preserving eight-byte encoding of a double given
    /// by its bit pattern (`f64::to_bits`). For a NaN pattern nothing is
    /// appended and no count is returned; otherwise the result is the
    /// number of bytes written, always eight.
    pub fn encode_f64_into(&mut self, bits: u64) -> (r: Option<usize>)
        requires
            old(self)@.len() + 8 <= usize::MAX,
        ensures
            r is Some <==> !f64_bits_is_nan(bits),
            !f64_bits_is_nan(bits) ==> final(self)@ == old(self)@ + f64_key_bytes(bits) && r
                == Some(8usize),
            f64_bits_is_nan(bits) ==> final(self)@ == old(self)@,
    {
        if (bits >> 52) & 0x7ff == 0x7ff && bits & 0x000f_ffff_ffff_ffff != 0 {
            None
        } else {
            let w = if bits >> 63 == 1 {
                !bits
            } else {
                bits ^ SIGN_BIT
            };
            let mut v: Vec<u8> = Vec::new();
            push_be8(&mut v, w);
            proof {
                assert(Seq::<u8>::empty() + f64_key_bytes(bits) =~= f64_key_bytes(bits));
            }
            bytes_mut_extend(&mut self.buf, v.as_slice());
            Some(8)
        }
    }

    /// Append an identifier's sixteen canonical bytes; the result is the
    /// number of bytes written, always sixteen.
    pub fn encode_uuid_into_buf(&mut self, u: &uuid::Uuid) -> (r: usize)
        requires
            old(self)@.len() + 16 <= usize::MAX,
        ensures
            final(self)@ == old(self)@ + uuid_view(*u),
            r == 16,
    {
        let s = uuid_as_bytes(u);
        bytes_mut_extend(&mut self.buf, s);
        s.len()
    }

    /// Append the joined composite parts: the parts in order, exactly one
    /// separator between each adjacent pair, none leading or trailing.
    /// The result is the number of bytes written.
    pub fn encode_composite_into_buf(&mut self, parts: &[&[u8]]) -> (r: usize)
        requires
            old(self)@.len() + composite_len(views_of(parts@)) <= usize::MAX,
        ensures
            final(self)@ == old(self)@ + composite_bytes(views_of(parts@)),
            r == composite_bytes(views_of(parts@)).len(),
    {
        let mut v: Vec<u8> = Vec::new();
        append_composite(&mut v, parts);
        proof {
            lemma_composite_bytes_len(views_of(parts@));
            assert(Seq::<u8>::empty() + composite_bytes(views_of(parts@)) =~= composite_bytes(
                views_of(parts@),
            ));
        }
        bytes_mut_extend(&mut self.buf, v.as_slice());
        v.len()
    }
}

} // verus!

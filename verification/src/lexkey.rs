//! The immutable key type and its allocating encoders.
use vstd::prelude::*;
use vstd::string::StringSliceAdditionalSpecFns;

use crate::codes::be8_bytes;
use crate::codes::bool_key_bytes;
use crate::codes::f64_bits_is_nan;
use crate::codes::f64_key_bytes;
use crate::codes::hex_chars_of;
use crate::codes::i64_key_bytes;
use crate::codes::push_be8;
use crate::codes::push_bytes;
use crate::codes::SIGN_BIT;
use crate::composite::append_composite;
use crate::composite::composite_bytes;
use crate::composite::views_of;
use crate::raw::bytes_as_slice;
use crate::raw::bytes_from_vec;
use crate::raw::bytes_view;
use crate::raw::hex_encode;
use crate::raw::uuid_as_bytes;
use crate::raw::uuid_view;
use crate::END_MARKER;
use crate::SEPARATOR;

verus! {

/// A lexicographically sortable key.
///
/// Keys are compared by their raw bytes. The encoders transform numeric and
/// floating-point values so that raw byte comparison of the outputs matches
/// the numeric order of the inputs.
#[derive(Debug, Clone, PartialEq, Eq, Hash, PartialOrd, Ord)]
pub struct LexKey {
    bytes: bytes::Bytes,
}

impl View for LexKey {
    type V = Seq<u8>;

    closed spec fn view(&self) -> Seq<u8> {
        bytes_view(self.bytes)
    }
}

impl LexKey {
    /// The 0x00 separator placed between composite parts.
    pub const SEPARATOR: u8 = 0x00;

    /// The 0xFF end marker used by `encode_last`.
    pub const END_MARKER: u8 = 0xFF;

    /// Create an empty key.
    pub fn empty() -> (r: Self)
        ensures
            r@ == Seq::<u8>::empty(),
    {
        Self { bytes: bytes_from_vec(Vec::new()) }
    }

    /// Create a key holding exactly the given bytes.
    pub fn from_bytes(bytes: Vec<u8>) -> (r: Self)
        ensures
            r@ == bytes@,
    {
        Self { bytes: bytes_from_vec(bytes) }
    }

    /// Get the raw bytes backing this key.
    pub fn as_bytes(&self) -> (r: &[u8])
        ensures
            r@ == self@,
    {
        bytes_as_slice(&self.bytes)
    }

    /// Check if the key is empty.
    pub fn is_empty(&self) -> (r: bool)
        ensures
            r <==> self@.len() == 0,
    {
        bytes_as_slice(&self.bytes).len() == 0
    }

    /// Encode a UTF-8 string as its raw bytes, with no terminator.
    pub fn encode_string(s: &str) -> (r: Self)
        ensures
            r@ == s.spec_bytes(),
    {
        let b = s.as_bytes();
        let mut v: Vec<u8> = Vec::new();
        push_bytes(&mut v, b);
        proof {
            assert(Seq::<u8>::empty() + s.spec_bytes() =~= s.spec_bytes());
        }
        Self { bytes: bytes_from_vec(v) }
    }

    /// Encode an unsigned integer as its eight big-endian bytes.
    pub fn encode_u64(n: u64) -> (r: Self)
        ensures
            r@ == be8_bytes(n),
    {
        let mut v: Vec<u8> = Vec::new();
        push_be8(&mut v, n);
        proof {
            assert(Seq::<u8>::empty() + be8_bytes(n) =~= be8_bytes(n));
        }
        Self { bytes: bytes_from_vec(v) }
    }

    /// Append the eight big-endian bytes of `n` to `dst`; the result is the
    /// number of bytes written, always eight.
    pub fn encode_u64_into(dst: &mut Vec<u8>, n: u64) -> (r: usize)
        ensures
            final(dst)@ == old(dst)@ + be8_bytes(n),
            r == 8,
    {
        push_be8(dst, n);
        8
    }

    /// Encode a signed integer so that raw byte order matches numeric
    /// order: flip the sign bit, then lay the word out big-endian.
    pub fn encode_i64(n: i64) -> (r: Self)
        ensures
            r@ == i64_key_bytes(n),
    {
        let w = (n as u64) ^ SIGN_BIT;
        let mut v: Vec<u8> = Vec::new();
        push_be8(&mut v, w);
        proof {
            assert(Seq::<u8>::empty() + i64_key_bytes(n) =~= i64_key_bytes(n));
        }
        Self { bytes: bytes_from_vec(v) }
    }

    /// Append the transformed eight-byte encoding of `n` to `dst`; the
    /// result is the number of bytes written, always eight.
    pub fn encode_i64_into(dst: &mut Vec<u8>, n: i64) -> (r: usize)
        ensures
            final(dst)@ == old(dst)@ + i64_key_bytes(n),
            r == 8,
    {
        let w = (n as u64) ^ SIGN_BIT;
        push_be8(dst, w);
        8
    }

    /// Encode a boolean: `false` to 0x00, `true` to 0x01.
    pub fn encode_bool(b: bool) -> (r: Self)
        ensures
            r@ == bool_key_bytes(b),
    {
        let mut v: Vec<u8> = Vec::new();
        v.push(if b {
            0x01
        } else {
            0x00
        });
        proof {
            assert(v@ =~= bool_key_bytes(b));
        }
        Self { bytes: bytes_from_vec(v) }
    }

    /// Append the one-byte boolean encoding to `dst`; the result is the
    /// number of bytes written, always one.
    pub fn encode_bool_into(dst: &mut Vec<u8>, b: bool) -> (r: usize)
        ensures
            final(dst)@ == old(dst)@ + bool_key_bytes(b),
            r == 1,
    {
        dst.push(if b {
            0x01
        } else {
            0x00
        });
        proof {
            assert(dst@ =~= old(dst)@ + bool_key_bytes(b));
        }
        1
    }

    /// Encode an IEEE-754 double given by its bit pattern (`f64::to_bits`)
    /// so that raw byte order matches numeric order: complement a negative
    /// pattern, flip only the sign bit of a non-negative one. A NaN pattern
    /// has no place in that order and yields no key.
    pub fn encode_f64(bits: u64) -> (r: Option<Self>)
        ensures
            r is Some <==> !f64_bits_is_nan(bits),
            r matches Some(k) ==> k@ == f64_key_bytes(bits),
    {
        if (bits >> 52) & 0x7ff == 0x7ff && bits & 0x000f_ffff_ffff_ffff != 0 {
            None
        } else {
            let w = if bits >> 63 == 1 {
                !bits
            } else {
                bits ^ SIGN_BIT
            };
            let mut v: Vec<u8> = Vec::new();
            push_be8(&mut v, w);
            proof {
                assert(Seq::<u8>::empty() + f64_key_bytes(bits) =~= f64_key_bytes(bits));
            }
            Some(Self { bytes: bytes_from_vec(v) })
        }
    }

    /// Append the transformed eight-byte double encoding to `dst`. For a
    /// NaN pattern nothing is appended and no count is returned; otherwise
    /// the result is the number of bytes written, always eight.
    pub fn encode_f64_into(dst: &mut Vec<u8>, bits: u64) -> (r: Option<usize>)
        ensures
            r is Some <==> !f64_bits_is_nan(bits),
            !f64_bits_is_nan(bits) ==> final(dst)@ == old(dst)@ + f64_key_bytes(bits) && r
                == Some(8usize),
            f64_bits_is_nan(bits) ==> final(dst)@ == old(dst)@,
    {
        if (bits >> 52) & 0x7ff == 0x7ff && bits & 0x000f_ffff_ffff_ffff != 0 {
            None
        } else {
            let w = if bits >> 63 == 1 {
                !bits
            } else {
                bits ^ SIGN_BIT
            };
            push_be8(dst, w);
            Some(8)
        }
    }

    /// Encode a unique identifier as its sixteen canonical bytes.
    pub fn encode_uuid(u: &uuid::Uuid) -> (r: Self)
        ensures
            r@ == uuid_view(*u),
    {
        let s = uuid_as_bytes(u);
        let mut v: Vec<u8> = Vec::new();
        push_bytes(&mut v, s);
        proof {
            assert(Seq::<u8>::empty() + uuid_view(*u) =~= uuid_view(*u));
        }
        Self { bytes: bytes_from_vec(v) }
    }

    /// Append an identifier's sixteen canonical bytes to `dst`; the result
    /// is the number of bytes written, always sixteen.
    pub fn encode_uuid_into(dst: &mut Vec<u8>, u: &uuid::Uuid) -> (r: usize)
        ensures
            final(dst)@ == old(dst)@ + uuid_view(*u),
            r == 16,
    {
        let s = uuid_as_bytes(u);
        push_bytes(dst, s);
        s.len()
    }

    /// Encode a UTC timestamp given as UNIX nanoseconds, exactly like the
    /// signed integer it is.
    pub fn encode_time_unix_nanos(nanos: i64) -> (r: Self)
        ensures
            r@ == i64_key_bytes(nanos),
    {
        Self::encode_i64(nanos)
    }

    /// Encode the end sentinel as a single 0xFF byte.
    pub fn encode_end_marker() -> (r: Self)
        ensures
            r@ == seq![END_MARKER],
    {
        let mut v: Vec<u8> = Vec::new();
        v.push(END_MARKER);
        proof {
            assert(v@ =~= seq![END_MARKER]);
        }
        Self { bytes: bytes_from_vec(v) }
    }

    /// Create a composite key: the parts in order, with exactly one
    /// separator between each adjacent pair, none leading or trailing.
    /// Parts are taken as given; a part holding an interior separator byte
    /// breaks the range guarantees of `encode_first` and `encode_last`.
    pub fn encode_composite(parts: &[&[u8]]) -> (r: Self)
        ensures
            r@ == composite_bytes(views_of(parts@)),
    {
        let mut v: Vec<u8> = Vec::new();
        append_composite(&mut v, parts);
        proof {
            assert(Seq::<u8>::empty() + composite_bytes(views_of(parts@)) =~= composite_bytes(
                views_of(parts@),
            ));
        }
        Self { bytes: bytes_from_vec(v) }
    }

    /// Append the joined composite parts to `dst`; the result is the
    /// number of bytes written.
    pub fn encode_composite_into(dst: &mut Vec<u8>, parts: &[&[u8]]) -> (r: usize)
        ensures
            final(dst)@ == old(dst)@ + composite_bytes(views_of(parts@)),
            r == composite_bytes(views_of(parts@)).len(),
    {
        let start = dst.len();
        append_composite(dst, parts);
        let end = dst.len();
        end - start
    }

    /// Build the inclusive lower range bound for the given prefix: the
    /// joined prefix followed by one separator. It sorts no later than any
    /// composite key extending a non-empty prefix.
    pub fn encode_first(parts: &[&[u8]]) -> (r: Self)
        ensures
            r@ == composite_bytes(views_of(parts@)) + seq![SEPARATOR],
    {
        let mut v: Vec<u8> = Vec::new();
        append_composite(&mut v, parts);
        v.push(SEPARATOR);
        proof {
            assert(v@ =~= composite_bytes(views_of(parts@)) + seq![SEPARATOR]);
        }
        Self { bytes: bytes_from_vec(v) }
    }

    /// Build the exclusive upper range bound for the given prefix: the
    /// joined prefix followed by one end marker. Every composite key
    /// extending a non-empty prefix sorts strictly before it.
    pub fn encode_last(parts: &[&[u8]]) -> (r: Self)
        ensures
            r@ == composite_bytes(views_of(parts@)) + seq![END_MARKER],
    {
        let mut v: Vec<u8> = Vec::new();
        append_composite(&mut v, parts);
        v.push(END_MARKER);
        proof {
            assert(v@ =~= composite_bytes(views_of(parts@)) + seq![END_MARKER]);
        }
        Self { bytes: bytes_from_vec(v) }
    }

    /// Render the key's bytes as a lowercase hexadecimal string, for
    /// inspection and logging.
    pub fn to_hex_string(&self) -> (r: String)
        ensures
            r@ == hex_chars_of(self@),
    {
        hex_encode(bytes_as_slice(&self.bytes))
    }
}

impl From<Vec<u8>> for LexKey {
    /// A key holding exactly the vector's bytes.
    fn from(bytes: Vec<u8>) -> (r: LexKey)
        ensures
            r@ == bytes@,
    {
        LexKey::from_bytes(bytes)
    }
}

impl vstd::std_specs::convert::FromSpecImpl<Vec<u8>> for LexKey {
    open spec fn obeys_from_spec() -> bool {
        false
    }

    open spec fn from_spec(bytes: Vec<u8>) -> LexKey {
        arbitrary()
    }
}

impl<'a> From<&'a [u8]> for LexKey {
    /// A key holding a copy of the slice's bytes.
    fn from(bytes: &'a [u8]) -> (r: LexKey)
        ensures
            r@ == bytes@,
    {
        let mut v: Vec<u8> = Vec::new();
        push_bytes(&mut v, bytes);
        proof {
            assert(Seq::<u8>::empty() + bytes@ =~= bytes@);
        }
        LexKey::from_bytes(v)
    }
}

impl<'a> vstd::std_specs::convert::FromSpecImpl<&'a [u8]> for LexKey {
    open spec fn obeys_from_spec() -> bool {
        false
    }

    open spec fn from_spec(bytes: &'a [u8]) -> LexKey {
        arbitrary()
    }
}

impl<'a> From<&'a str> for LexKey {
    /// The same key as `encode_string`.
    fn from(s: &'a str) -> (r: LexKey)
        ensures
            r@ == s.spec_bytes(),
    {
        LexKey::encode_string(s)
    }
}

impl<'a> vstd::std_specs::convert::FromSpecImpl<&'a str> for LexKey {
    open spec fn obeys_from_spec() -> bool {
        false
    }

    open spec fn from_spec(s: &'a str) -> LexKey {
        arbitrary()
    }
}

} // verus!

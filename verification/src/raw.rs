//! Declarations and thin wrappers for the outside crates this library leans
//! on. Every contract in this module is taken on trust; each states only
//! what the named function's source or documentation shows.
use vstd::prelude::*;

verus! {

#[verifier::external_type_specification]
#[verifier::external_body]
pub struct ExBytes(bytes::Bytes);

#[verifier::external_type_specification]
#[verifier::external_body]
pub struct ExBytesMut(bytes::BytesMut);

#[verifier::external_type_specification]
#[verifier::external_body]
pub struct ExUuid(uuid::Uuid);

/// The bytes an immutable `Bytes` buffer holds.
pub uninterp spec fn bytes_view(b: bytes::Bytes) -> Seq<u8>;

/// The bytes a mutable `BytesMut` buffer holds.
pub uninterp spec fn bytes_mut_view(b: bytes::BytesMut) -> Seq<u8>;

/// The sixteen canonical (big-endian, RFC 4122) bytes of an identifier.
pub uninterp spec fn uuid_view(u: uuid::Uuid) -> Seq<u8>;

/// Relies on `Bytes::clone`: a shallow copy holding the same bytes.
pub assume_specification[ <bytes::Bytes as core::clone::Clone>::clone ](b: &bytes::Bytes) -> (r:
    bytes::Bytes)
    ensures
        bytes_view(r) == bytes_view(*b),
;

/// Relies on `Bytes::from(Vec<u8>)`: the buffer holds exactly the vector's
/// bytes.
#[verifier::external_body]
pub(crate) fn bytes_from_vec(v: Vec<u8>) -> (r: bytes::Bytes)
    ensures
        bytes_view(r) == v@,
{
    bytes::Bytes::from(v)
}

/// Relies on `Bytes`'s deref to `[u8]`: a borrow of the held bytes.
#[verifier::external_body]
pub(crate) fn bytes_as_slice(b: &bytes::Bytes) -> (r: &[u8])
    ensures
        r@ == bytes_view(*b),
{
    b
}

/// Relies on `BytesMut::with_capacity`: the new buffer holds no bytes.
#[verifier::external_body]
pub(crate) fn bytes_mut_with_capacity(cap: usize) -> (r: bytes::BytesMut)
    ensures
        bytes_mut_view(r) == Seq::<u8>::empty(),
{
    bytes::BytesMut::with_capacity(cap)
}

/// Relies on `BytesMut::clear`: all bytes are removed, capacity kept.
#[verifier::external_body]
pub(crate) fn bytes_mut_clear(b: &mut bytes::BytesMut)
    ensures
        bytes_mut_view(*final(b)) == Seq::<u8>::empty(),
{
    b.clear()
}

/// Relies on `BytesMut::extend_from_slice`: the slice's bytes are appended
/// after the held ones. The call reserves room first and reserving panics
/// when the needed capacity overflows `usize`, so that case is excluded.
#[verifier::external_body]
pub(crate) fn bytes_mut_extend(b: &mut bytes::BytesMut, src: &[u8])
    requires
        bytes_mut_view(*old(b)).len() + src@.len() <= usize::MAX,
    ensures
        bytes_mut_view(*final(b)) == bytes_mut_view(*old(b)) + src@,
{
    b.extend_from_slice(src)
}

/// Relies on `BufMut::put_u8` on `BytesMut`: the byte is appended after the
/// held ones. The call fails only when fewer than one of the
/// `isize::MAX - len` writable bytes remain, so that case is excluded.
#[verifier::external_body]
pub(crate) fn bytes_mut_put_u8(b: &mut bytes::BytesMut, v: u8)
    requires
        bytes_mut_view(*old(b)).len() < isize::MAX as usize,
    ensures
        bytes_mut_view(*final(b)) == bytes_mut_view(*old(b)) + seq![v],
{
    bytes::BufMut::put_u8(b, v)
}

/// Relies on `BytesMut`'s deref to `[u8]`: a borrow of the held bytes.
#[verifier::external_body]
pub(crate) fn bytes_mut_as_slice(b: &bytes::BytesMut) -> (r: &[u8])
    ensures
        r@ == bytes_mut_view(*b),
{
    b
}

/// Relies on `BytesMut::freeze`: the immutable buffer holds the same bytes.
#[verifier::external_body]
pub(crate) fn bytes_mut_freeze(b: bytes::BytesMut) -> (r: bytes::Bytes)
    ensures
        bytes_view(r) == bytes_mut_view(b),
{
    b.freeze()
}

/// Relies on `Uuid::as_bytes`: a borrow of the identifier's sixteen
/// canonical bytes.
#[verifier::external_body]
pub(crate) fn uuid_as_bytes(u: &uuid::Uuid) -> (r: &[u8])
    ensures
        r@ == uuid_view(*u),
        r@.len() == 16,
{
    u.as_bytes()
}

/// Relies on `hex::encode`: two lowercase hexadecimal digits per byte, high
/// nibble first, from the digit table `0123456789abcdef`.
#[verifier::external_body]
pub(crate) fn hex_encode(b: &[u8]) -> (r: String)
    ensures
        r@ == crate::codes::hex_chars_of(b@),
{
    hex::encode(b)
}

} // verus!

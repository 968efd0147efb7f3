//! Lexicographically sortable byte keys for integers, floats (by bit
//! pattern), booleans, strings, unique identifiers and composites.
//!
//! Every encoder transforms its value so that raw unsigned byte comparison of
//! the outputs reproduces the natural ordering of the inputs. Keys are
//! immutable once built; a reusable [`Encoder`] buffer supports writing many
//! values without a fresh allocation per call.
use vstd::prelude::*;

pub mod codes;
pub mod composite;
pub mod encoder;
pub mod lexkey;
pub mod order;
pub mod raw;

pub use composite::encode_len;
pub use encoder::Encoder;
pub use lexkey::LexKey;
pub use order::lex_le;
pub use order::lex_lt;

verus! {

/// The byte placed between adjacent composite parts.
pub const SEPARATOR: u8 = 0x00;

/// The byte appended by `encode_last` to form an upper range bound.
pub const END_MARKER: u8 = 0xFF;

/// Types that can be encoded into a lexicographically sortable key.
///
/// The trait is offered for callers' own types; nothing in this crate
/// implements it. An implementation must append exactly the bytes its
/// [`Encodable::encoded_view`] names, so that composites built from such
/// values stay unambiguous.
pub trait Encodable {
    /// The byte sequence this value encodes to.
    spec fn encoded_view(&self) -> Seq<u8>;

    /// Returns the number of bytes this value will encode to.
    fn encoded_len(&self) -> (n: usize)
        ensures
            n == self.encoded_view().len(),
    ;

    /// Encodes this value into the given buffer, returning the number of
    /// bytes written.
    fn encode_into(&self, dst: &mut Vec<u8>) -> (n: usize)
        ensures
            final(dst)@ == old(dst)@ + self.encoded_view(),
            n == self.encoded_view().len(),
    ;
}

} // verus!

//! See [`Transmutable`]: types read from a fixed number of raw bytes.
use vstd::prelude::*;

use crate::error::DropsetError;

verus! {

/// A type whose values are represented by exactly `len()` bytes, every pattern of which is a valid
/// value, so that a value can be read from raw account or instruction data.
pub trait Transmutable: Sized {
    /// The number of bytes that represent a value.
    spec fn byte_len() -> nat;

    /// The number of bytes that represent a value.
    fn len() -> (r: usize)
        ensures
            r == Self::byte_len(),
    ;

    /// The bytes that represent `self`.
    spec fn byte_repr(&self) -> Seq<u8>;

    /// The value that `bytes` represent; the caller knows that there are exactly `len()` of them.
    fn load_unchecked(bytes: &[u8]) -> (r: Self)
        requires
            bytes@.len() == Self::byte_len(),
        ensures
            r.byte_repr() == bytes@,
    ;

    /// The value that `bytes` represent, or `InsufficientByteLength` unless there are exactly
    /// `len()` of them.
    #[inline(always)]
    fn load(bytes: &[u8]) -> (r: Result<Self, DropsetError>)
        ensures
            bytes@.len() == Self::byte_len() ==> (r matches Ok(v) && v.byte_repr() == bytes@),
            bytes@.len() != Self::byte_len() ==> (r matches Err(e) && e
                == DropsetError::InsufficientByteLength),
    {
        if bytes.len() != Self::len() {
            return Err(DropsetError::InsufficientByteLength);
        }
        Ok(Self::load_unchecked(bytes))
    }
}

} // verus!

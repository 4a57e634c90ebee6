//! Errors of price encoding and order info computation.
use vstd::prelude::*;

verus! {

/// Errors from validating price mantissas, scaling by biased exponents and decoding prices.
#[derive(Clone, Copy, Debug, PartialEq, Eq, Structural)]
pub enum OrderInfoError {
    ExponentUnderflow,
    ArithmeticOverflow,
    InvalidPriceMantissa,
    InvalidBiasedExponent,
    InfinityIsNotAFloat,
}

} // verus!

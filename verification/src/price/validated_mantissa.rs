//! See [`ValidatedPriceMantissa`].
use vstd::prelude::*;

use crate::price::error::OrderInfoError;
use crate::price::{MANTISSA_DIGITS_LOWER_BOUND, MANTISSA_DIGITS_UPPER_BOUND, PRICE_MANTISSA_MASK};

verus! {

/// A price mantissa. Built with [`ValidatedPriceMantissa::try_from`] it has exactly eight
/// decimal digits; decoded from an encoded price it is whatever the low mantissa bits hold.
#[derive(Clone, Copy, Debug, PartialEq, Eq, Structural)]
pub struct ValidatedPriceMantissa(u32);

/// Whether `m` has exactly eight decimal digits.
pub open spec fn is_valid_mantissa(m: u32) -> bool {
    MANTISSA_DIGITS_LOWER_BOUND <= m <= MANTISSA_DIGITS_UPPER_BOUND
}

impl View for ValidatedPriceMantissa {
    type V = u32;

    closed spec fn view(&self) -> u32 {
        self.0
    }
}

impl ValidatedPriceMantissa {
    /// The mantissa holding `m`, checked or not.
    pub closed spec fn spec_new(m: u32) -> ValidatedPriceMantissa {
        ValidatedPriceMantissa(m)
    }

    /// The mantissa built from `m` holds `m`, and mantissas are equal when they hold the same value.
    pub proof fn lemma_spec_new(m: u32, other: ValidatedPriceMantissa)
        ensures
            Self::spec_new(m)@ == m,
            other@ == m ==> other == Self::spec_new(m),
    {
    }

    /// Validates that `price_mantissa` has exactly eight decimal digits.
    #[inline(always)]
    pub fn try_from(price_mantissa: u32) -> (r: Result<Self, OrderInfoError>)
        ensures
            r is Ok <==> is_valid_mantissa(price_mantissa),
            r matches Ok(m) ==> m == Self::spec_new(price_mantissa),
            r matches Err(e) ==> e == OrderInfoError::InvalidPriceMantissa,
    {
        if MANTISSA_DIGITS_LOWER_BOUND <= price_mantissa && price_mantissa
            <= MANTISSA_DIGITS_UPPER_BOUND {
            Ok(Self(price_mantissa))
        } else {
            Err(OrderInfoError::InvalidPriceMantissa)
        }
    }

    /// Wraps a mantissa that fits in the mantissa bits without checking its digit count.
    #[inline(always)]
    pub fn new_unchecked(price_mantissa: u32) -> (r: Self)
        requires
            price_mantissa <= PRICE_MANTISSA_MASK,
        ensures
            r == Self::spec_new(price_mantissa),
    {
        Self(price_mantissa)
    }

    /// Returns the validated price mantissa as a u32.
    #[inline(always)]
    pub fn as_u32(&self) -> (r: u32)
        ensures
            r == self@,
    {
        self.0
    }

    /// Returns the validated price mantissa as a u32.
    #[inline(always)]
    pub fn get(&self) -> (r: u32)
        ensures
            r == self@,
    {
        self.0
    }
}

} // verus!

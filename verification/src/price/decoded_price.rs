//! See [`DecodedPrice`].
use vstd::prelude::*;

use crate::price::encoded_price::{EncodedPrice, ENCODED_PRICE_INFINITY, ENCODED_PRICE_ZERO};
use crate::price::validated_mantissa::ValidatedPriceMantissa;
use crate::price::{PRICE_MANTISSA_BITS, PRICE_MANTISSA_MASK};

verus! {

/// An encoded price taken apart: zero, infinity, or a biased exponent and a mantissa.
#[derive(Clone, Copy, Debug, PartialEq, Eq, Structural)]
pub enum DecodedPrice {
    Zero,
    Infinity,
    ExponentAndMantissa { price_exponent_biased: u8, price_mantissa: ValidatedPriceMantissa },
}

/// The exponent and mantissa bits of an encoded price are its quotient and remainder by 2^27.
pub proof fn lemma_split_bits(v: u32)
    ensures
        (v >> 27u32) == v / 0x0800_0000,
        (v & 0x07FF_FFFFu32) == v % 0x0800_0000,
        (v >> 27u32) < 32,
{
    assert((v >> 27u32) == v / 0x0800_0000) by (bit_vector);
    assert((v & 0x07FF_FFFFu32) == v % 0x0800_0000) by (bit_vector);
    assert((v >> 27u32) < 32) by (bit_vector);
}

/// The decoding of the encoded price bits `v`.
pub open spec fn decode_price(v: u32) -> DecodedPrice {
    if v == ENCODED_PRICE_ZERO {
        DecodedPrice::Zero
    } else if v == ENCODED_PRICE_INFINITY {
        DecodedPrice::Infinity
    } else {
        DecodedPrice::ExponentAndMantissa {
            price_exponent_biased: (v / 0x0800_0000) as u8,
            price_mantissa: ValidatedPriceMantissa::spec_new(v % 0x0800_0000),
        }
    }
}

impl DecodedPrice {
    /// Returns the exponent and mantissa of a decoded price, or `None` if it is zero or infinity.
    pub fn as_exponent_and_mantissa(&self) -> (r: Option<(&u8, &ValidatedPriceMantissa)>)
        ensures
            r is Some <==> *self is ExponentAndMantissa,
            r matches Some((e, m)) ==> *self == (DecodedPrice::ExponentAndMantissa {
                price_exponent_biased: *e,
                price_mantissa: *m,
            }),
    {
        if let DecodedPrice::ExponentAndMantissa { price_exponent_biased, price_mantissa } = self {
            Some((price_exponent_biased, price_mantissa))
        } else {
            None
        }
    }

    /// Decodes an encoded price: `0` is zero, `u32::MAX` is infinity, and any other value is its
    /// high 5 bits as the biased exponent and its low 27 bits as the mantissa.
    pub fn from_encoded(encoded: EncodedPrice) -> (r: Self)
        ensures
            r == decode_price(encoded@),
    {
        let value = encoded.get();
        if value == ENCODED_PRICE_ZERO {
            DecodedPrice::Zero
        } else if value == ENCODED_PRICE_INFINITY {
            DecodedPrice::Infinity
        } else {
            proof {
                lemma_split_bits(value);
            }
            let price_exponent_biased = (value >> (PRICE_MANTISSA_BITS as u32)) as u8;
            let validated_mantissa = value & PRICE_MANTISSA_MASK;
            DecodedPrice::ExponentAndMantissa {
                price_exponent_biased,
                price_mantissa: ValidatedPriceMantissa::new_unchecked(validated_mantissa),
            }
        }
    }
}

impl From<EncodedPrice> for DecodedPrice {
    fn from(encoded: EncodedPrice) -> (r: Self) {
        DecodedPrice::from_encoded(encoded)
    }
}

impl vstd::std_specs::convert::FromSpecImpl<EncodedPrice> for DecodedPrice {
    open spec fn obeys_from_spec() -> bool {
        true
    }

    open spec fn from_spec(v: EncodedPrice) -> DecodedPrice {
        decode_price(v@)
    }
}

} // verus!

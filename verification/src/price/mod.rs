//! Price encoding: eight-digit mantissas with biased base-10 exponents packed in a `u32`, and the
//! conversion of order parameters into atom amounts and an encoded price.

pub mod decoded_price;
pub mod encoded_price;
pub mod error;
pub mod order_info_args;
pub mod validated_mantissa;

use vstd::prelude::*;

use crate::price::decoded_price::{decode_price, DecodedPrice};
use crate::price::encoded_price::{encode_price, lemma_encode_price_arith, EncodedPrice};
use crate::price::error::OrderInfoError;
use crate::price::validated_mantissa::{is_valid_mantissa, ValidatedPriceMantissa};

verus! {

/// The smallest valid price mantissa: the smallest eight-digit number.
pub const MANTISSA_DIGITS_LOWER_BOUND: u32 = 10_000_000;

/// The largest valid price mantissa: the largest eight-digit number.
pub const MANTISSA_DIGITS_UPPER_BOUND: u32 = 99_999_999;

/// The number of bits in a `u32`.
pub const U32_BITS: u8 = 32;

/// The number of low bits of an encoded price that hold the mantissa.
pub const PRICE_MANTISSA_BITS: u8 = 27;

/// The number of high bits of an encoded price that hold the biased exponent.
pub const EXPONENT_BITS: u8 = 5;

/// The max biased exponent; biased exponents range over `0..=MAX_BIASED_EXPONENT`.
pub const MAX_BIASED_EXPONENT: u8 = 31;

/// The number that satisfies `BIAS + SMALLEST_POSSIBLE_EXPONENT == 0`: with the exponent range
/// -16..=15, the bias is 16. The larger negative range keeps the smallest and largest prices the
/// same number of orders of magnitude away from 1.
pub const BIAS: u8 = 16;

/// The minimum unbiased exponent value.
pub const UNBIASED_MIN: i16 = -16;

/// The maximum unbiased exponent value.
pub const UNBIASED_MAX: i16 = 15;

/// The bitmask for the price mantissa: the low `PRICE_MANTISSA_BITS` bits.
pub const PRICE_MANTISSA_MASK: u32 = 0x07FF_FFFF;

/// Ten to the power `n`.
pub open spec fn pow10(n: nat) -> nat
    decreases n,
{
    if n == 0 {
        1
    } else {
        10 * pow10((n - 1) as nat)
    }
}

/// Ten to the power `k`, for `k <= 16`.
fn pow10_up_to_16(k: u8) -> (r: u64)
    requires
        k <= 16,
    ensures
        r == pow10(k as nat),
{
    proof {
        reveal_with_fuel(pow10, 17);
    }
    match k {
        0 => 1,
        1 => 10,
        2 => 100,
        3 => 1000,
        4 => 10000,
        5 => 100000,
        6 => 1000000,
        7 => 10000000,
        8 => 100000000,
        9 => 1000000000,
        10 => 10000000000,
        11 => 100000000000,
        12 => 1000000000000,
        13 => 10000000000000,
        14 => 100000000000000,
        15 => 1000000000000000,
        _ => 10000000000000000,
    }
}

/// Ten to any power is positive.
pub proof fn lemma_pow10_positive(n: nat)
    ensures
        pow10(n) >= 1,
    decreases n,
{
    if n > 0 {
        lemma_pow10_positive((n - 1) as nat);
    }
}

/// `value` scaled by ten to the unbiased exponent `biased_exponent - BIAS`: a division rounding
/// down for negative exponents, a multiplication that must fit in a `u64` for positive ones.
pub open spec fn spec_pow10_u64(value: u64, biased_exponent: u8) -> Result<u64, OrderInfoError> {
    if biased_exponent > MAX_BIASED_EXPONENT {
        Err(OrderInfoError::InvalidBiasedExponent)
    } else if biased_exponent <= BIAS {
        Ok((value as nat / pow10((BIAS - biased_exponent) as nat)) as u64)
    } else if value * pow10((biased_exponent - BIAS) as nat) <= u64::MAX {
        Ok((value * pow10((biased_exponent - BIAS) as nat)) as u64)
    } else {
        Err(OrderInfoError::ArithmeticOverflow)
    }
}

/// Performs base-10 exponentiation on `value` with a biased exponent in `0..=31`: the exponent
/// applied is `biased_exponent - BIAS`, from -16 (division by 10^16) to 15 (multiplication by
/// 10^15). Fails on an invalid biased exponent or on overflow.
pub fn pow10_u64(value: u64, biased_exponent: u8) -> (r: Result<u64, OrderInfoError>)
    ensures
        r == spec_pow10_u64(value, biased_exponent),
{
    if biased_exponent > MAX_BIASED_EXPONENT {
        return Err(OrderInfoError::InvalidBiasedExponent);
    }
    if biased_exponent <= BIAS {
        let divisor = pow10_up_to_16(BIAS - biased_exponent);
        proof {
            lemma_pow10_positive((BIAS - biased_exponent) as nat);
        }
        Ok(value / divisor)
    } else {
        let factor = pow10_up_to_16(biased_exponent - BIAS);
        checked_mul(value, factor, OrderInfoError::ArithmeticOverflow)
    }
}

/// A checked multiplication that returns `err` on overflow.
#[inline(always)]
pub fn checked_mul<E>(lhs: u64, rhs: u64, err: E) -> (r: Result<u64, E>)
    ensures
        lhs * rhs <= u64::MAX ==> r == Ok::<u64, E>((lhs * rhs) as u64),
        lhs * rhs > u64::MAX ==> r == Err::<u64, E>(err),
{
    match lhs.checked_mul(rhs) {
        Some(val) => Ok(val),
        None => Err(err),
    }
}

/// A checked subtraction that returns `err` on underflow.
#[inline(always)]
pub fn checked_sub<E>(lhs: u8, rhs: u8, err: E) -> (r: Result<u8, E>)
    ensures
        lhs >= rhs ==> r == Ok::<u8, E>((lhs - rhs) as u8),
        lhs < rhs ==> r == Err::<u8, E>(err),
{
    if lhs >= rhs {
        Ok(lhs - rhs)
    } else {
        Err(err)
    }
}

/// Converts an unbiased exponent in `UNBIASED_MIN..=UNBIASED_MAX` to a biased exponent.
#[inline(always)]
pub fn to_biased_exponent(unbiased_exponent: i16) -> (r: u8)
    requires
        UNBIASED_MIN <= unbiased_exponent <= UNBIASED_MAX,
    ensures
        r == unbiased_exponent + BIAS,
{
    (unbiased_exponent + BIAS as i16) as u8
}

/// An order's encoded price and its base and quote amounts in atoms.
#[derive(Clone, Copy, Debug)]
pub struct OrderInfo {
    pub encoded_price: EncodedPrice,
    pub base_atoms: u64,
    pub quote_atoms: u64,
}

/// What [`to_order_info`] computes: the encoded price bits, the base atoms and the quote atoms.
///
/// The base atoms are `base_scalar * 10^(b - BIAS)`, the quote atoms are
/// `price_mantissa * base_scalar * 10^(q - BIAS)`, and the price is the mantissa with the biased
/// exponent `q + BIAS - b`, which must be a valid biased exponent (`0..=MAX_BIASED_EXPONENT`).
/// The checks run in that order and the first failure is returned.
pub open spec fn spec_order_info(
    price_mantissa: u32,
    base_scalar: u64,
    base_exponent_biased: u8,
    quote_exponent_biased: u8,
) -> Result<(u32, u64, u64), OrderInfoError> {
    if !is_valid_mantissa(price_mantissa) {
        Err(OrderInfoError::InvalidPriceMantissa)
    } else {
        match spec_pow10_u64(base_scalar, base_exponent_biased) {
            Err(e) => Err(e),
            Ok(base_atoms) => if price_mantissa * base_scalar > u64::MAX {
                Err(OrderInfoError::ArithmeticOverflow)
            } else {
                match spec_pow10_u64((price_mantissa * base_scalar) as u64, quote_exponent_biased) {
                    Err(e) => Err(e),
                    Ok(quote_atoms) => if quote_exponent_biased + BIAS < base_exponent_biased {
                        Err(OrderInfoError::ExponentUnderflow)
                    } else if quote_exponent_biased + BIAS - base_exponent_biased
                        > MAX_BIASED_EXPONENT {
                        Err(OrderInfoError::InvalidBiasedExponent)
                    } else {
                        Ok(
                            (
                                encode_price(
                                    (quote_exponent_biased + BIAS - base_exponent_biased) as u8,
                                    price_mantissa,
                                ),
                                base_atoms,
                                quote_atoms,
                            ),
                        )
                    },
                }
            },
        }
    }
}

/// Converts a price mantissa, a base scalar and the biased base and quote exponents into an
/// order's encoded price and atom amounts.
pub fn to_order_info(
    price_mantissa: u32,
    base_scalar: u64,
    base_exponent_biased: u8,
    quote_exponent_biased: u8,
) -> (r: Result<OrderInfo, OrderInfoError>)
    ensures
        match spec_order_info(price_mantissa, base_scalar, base_exponent_biased, quote_exponent_biased) {
            Ok((price, base_atoms, quote_atoms)) => r matches Ok(info) && info.encoded_price@ == price
                && info.base_atoms == base_atoms && info.quote_atoms == quote_atoms,
            Err(e) => r == Err::<OrderInfo, OrderInfoError>(e),
        },
{
    let validated_mantissa = match ValidatedPriceMantissa::try_from(price_mantissa) {
        Ok(m) => m,
        Err(e) => {
            return Err(e);
        },
    };
    proof {
        ValidatedPriceMantissa::lemma_spec_new(price_mantissa, validated_mantissa);
    }
    let base_atoms = match pow10_u64(base_scalar, base_exponent_biased) {
        Ok(v) => v,
        Err(e) => {
            return Err(e);
        },
    };
    let price_mantissa_times_base_scalar = match checked_mul(
        validated_mantissa.get() as u64,
        base_scalar,
        OrderInfoError::ArithmeticOverflow,
    ) {
        Ok(v) => v,
        Err(e) => {
            return Err(e);
        },
    };
    let quote_atoms = match pow10_u64(price_mantissa_times_base_scalar, quote_exponent_biased) {
        Ok(v) => v,
        Err(e) => {
            return Err(e);
        },
    };
    // The quote exponent is at most MAX_BIASED_EXPONENT here, so adding the bias cannot overflow.
    let price_exponent_rebiased = match checked_sub(
        quote_exponent_biased + BIAS,
        base_exponent_biased,
        OrderInfoError::ExponentUnderflow,
    ) {
        Ok(v) => v,
        Err(e) => {
            return Err(e);
        },
    };
    // The price's exponent must itself be a valid biased exponent, or its encoding would lose
    // the exponent's high bits.
    if price_exponent_rebiased > MAX_BIASED_EXPONENT {
        return Err(OrderInfoError::InvalidBiasedExponent);
    }
    Ok(
        OrderInfo {
            encoded_price: EncodedPrice::new(price_exponent_rebiased, validated_mantissa),
            base_atoms,
            quote_atoms,
        },
    )
}

/// The price of a successful order info holds exactly the order's mantissa and the biased
/// exponent `q + BIAS - b`: its high bits are the exponent and its low bits the mantissa, so the
/// price is `mantissa * 10^(q - b)`.
pub proof fn lemma_order_info_price(
    price_mantissa: u32,
    base_scalar: u64,
    base_exponent_biased: u8,
    quote_exponent_biased: u8,
)
    requires
        spec_order_info(price_mantissa, base_scalar, base_exponent_biased, quote_exponent_biased)
            is Ok,
    ensures
        ({
            let p = spec_order_info(
                price_mantissa,
                base_scalar,
                base_exponent_biased,
                quote_exponent_biased,
            )->Ok_0.0;
            &&& quote_exponent_biased + BIAS - base_exponent_biased <= MAX_BIASED_EXPONENT
            &&& p / 0x0800_0000 == quote_exponent_biased + BIAS - base_exponent_biased
            &&& p % 0x0800_0000 == price_mantissa
        }),
{
    let e = (quote_exponent_biased + BIAS - base_exponent_biased) as u8;
    lemma_encode_price_arith(e, price_mantissa);
}

/// Decoding a price encoded from a valid biased exponent and a valid mantissa gives them back.
pub proof fn lemma_decode_encode(price_exponent_biased: u8, price_mantissa: u32)
    requires
        price_exponent_biased <= MAX_BIASED_EXPONENT,
        is_valid_mantissa(price_mantissa),
    ensures
        decode_price(encode_price(price_exponent_biased, price_mantissa))
            == (DecodedPrice::ExponentAndMantissa {
            price_exponent_biased,
            price_mantissa: ValidatedPriceMantissa::spec_new(price_mantissa),
        }),
{
    lemma_encode_price_arith(price_exponent_biased, price_mantissa);
    let v = encode_price(price_exponent_biased, price_mantissa);
    assert(v == price_exponent_biased as int * 0x0800_0000 + price_mantissa);
    assert(v / 0x0800_0000 == price_exponent_biased as int) by (nonlinear_arith)
        requires
            v == price_exponent_biased as int * 0x0800_0000 + price_mantissa,
            price_mantissa < 0x0800_0000,
    ;
    assert(v % 0x0800_0000 == price_mantissa as int) by (nonlinear_arith)
        requires
            v == price_exponent_biased as int * 0x0800_0000 + price_mantissa,
            price_mantissa < 0x0800_0000,
    ;
}

} // verus!

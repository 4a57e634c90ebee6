use dropset::price::decoded_price::DecodedPrice;
use dropset::price::encoded_price::{EncodedPrice, LeEncodedPrice};
use dropset::price::error::OrderInfoError;
use dropset::price::order_info_args::OrderInfoArgs;
use dropset::price::validated_mantissa::ValidatedPriceMantissa;
use dropset::price::{
    checked_mul, checked_sub, pow10_u64, to_biased_exponent, to_order_info, BIAS,
    MANTISSA_DIGITS_LOWER_BOUND, MANTISSA_DIGITS_UPPER_BOUND, MAX_BIASED_EXPONENT,
    PRICE_MANTISSA_BITS, PRICE_MANTISSA_MASK, UNBIASED_MAX, UNBIASED_MIN,
};

#[test]
fn encoded_price_mantissa_bits() {
    const EXPONENT: u8 = 0b0_1111;
    let price_mantissa = 0b000_1111_0000_1111_0000_1111_0000;
    let encoded_price = EncodedPrice::new(
        to_biased_exponent(EXPONENT as i16),
        ValidatedPriceMantissa::try_from(price_mantissa).unwrap(),
    );
    assert_eq!(encoded_price.as_u32() >> PRICE_MANTISSA_BITS, (EXPONENT + BIAS) as u32);
    assert_eq!(encoded_price.as_u32() & PRICE_MANTISSA_MASK, price_mantissa);
}

#[test]
fn test_infinity() {
    assert_eq!(EncodedPrice::infinity().as_u32(), u32::MAX);
    assert_eq!(EncodedPrice::zero().as_u32(), 0);
    assert!(EncodedPrice::infinity().is_infinity());
    assert!(EncodedPrice::zero().is_zero());
}

/// The value of a decoded price as a float, computed here from its exponent and mantissa.
fn decoded_as_f64(decoded: &DecodedPrice) -> f64 {
    let (exponent, mantissa) = decoded.as_exponent_and_mantissa().expect("Should be exponent + mantissa");
    (mantissa.get() as f64) * 10f64.powi(*exponent as i32 - BIAS as i32)
}

#[test]
fn happy_path_simple_price() {
    let base_biased_exponent = to_biased_exponent(0);
    let quote_biased_exponent = to_biased_exponent(-4);
    let order = to_order_info(12_340_000, 1, base_biased_exponent, quote_biased_exponent)
        .expect("Should calculate price");
    assert_eq!(order.base_atoms, 1);
    assert_eq!(order.quote_atoms, 1234);

    let decoded_price = decoded_as_f64(&DecodedPrice::from(order.encoded_price));
    assert_eq!(decoded_price, "1234".parse::<f64>().unwrap());
}

#[test]
fn price_with_max_sig_digits() {
    let order = to_order_info(12345678, 1, to_biased_exponent(0), to_biased_exponent(0))
        .expect("Should calculate price");
    assert_eq!(order.base_atoms, 1);
    assert_eq!(order.quote_atoms, 12345678);

    let decoded_price = decoded_as_f64(&DecodedPrice::from(order.encoded_price));
    assert_eq!(decoded_price, "12345678".parse::<f64>().unwrap());
}

#[test]
fn decimal_price() {
    let mantissa = 12345678;
    let order = to_order_info(mantissa, 1, to_biased_exponent(8), to_biased_exponent(0))
        .expect("Should calculate price");
    assert_eq!(order.quote_atoms, 12345678);
    assert_eq!(order.base_atoms, 100000000);

    let decoded_price = DecodedPrice::from(order.encoded_price);
    let (decoded_exponent, decoded_mantissa) =
        decoded_price.as_exponent_and_mantissa().expect("Should be exponent + mantissa");
    let decoded_f64 = decoded_as_f64(&decoded_price);
    assert_eq!(decoded_mantissa.get(), mantissa);
    assert_eq!(decoded_f64, "0.12345678".parse::<f64>().unwrap());
    assert_eq!(
        (decoded_mantissa.get() as f64) * 10f64.powi(*decoded_exponent as i32 - BIAS as i32),
        decoded_f64
    );
}

#[test]
fn bias_ranges() {
    assert_eq!(16, BIAS);

    let val_156_e_neg_16: u64 = 1_560_000_000_000_000_000;
    let calculated = val_156_e_neg_16 / 10u64.pow(BIAS as u32);
    let expected = 156;
    assert_eq!(pow10_u64(val_156_e_neg_16, 0).expect("0 is a valid biased exponent"), calculated);
    assert_eq!(calculated, expected);

    let val: u64 = 156;
    let max_exponent = MAX_BIASED_EXPONENT as u32;
    let calculated =
        val * 10u64.checked_pow(max_exponent - BIAS as u32).expect("Shouldn't overflow");
    let expected: u64 = 156_000_000_000_000_000;
    assert_eq!(
        pow10_u64(val, max_exponent as u8).expect("Exponent should be valid"),
        calculated
    );
    assert_eq!(calculated, expected);
}

#[test]
fn ensure_invalid_quote_exponent_fails() {
    let e_base = to_biased_exponent(0);
    let e_quote = MAX_BIASED_EXPONENT + 1;

    let _one_to_the_base_exponent = pow10_u64(1u64, e_base).unwrap();

    let all_good = to_order_info(10_000_000, 1, e_base, e_base);
    let arithmetic_overflow = to_order_info(10_000_000, 1, e_base, e_quote - 1);
    let invalid_biased_exponent = to_order_info(10_000_000, 1, e_base, e_quote);

    assert!(all_good.is_ok());
    assert!(matches!(arithmetic_overflow, Err(OrderInfoError::ArithmeticOverflow)));
    assert!(matches!(invalid_biased_exponent, Err(OrderInfoError::InvalidBiasedExponent)));
}

#[test]
fn check_max_biased_exponent() {
    assert_eq!(
        pow10_u64(2u64, MAX_BIASED_EXPONENT).unwrap(),
        2 * 10u64.checked_pow(MAX_BIASED_EXPONENT as u32 - BIAS as u32).unwrap()
    );
    assert!(matches!(
        pow10_u64(2u64, MAX_BIASED_EXPONENT + 1),
        Err(OrderInfoError::InvalidBiasedExponent)
    ));
}

#[test]
fn unbiased_exponent_happy_paths() {
    let expected_min = (UNBIASED_MIN + BIAS as i16) as u8;
    assert_eq!(to_biased_exponent(UNBIASED_MIN), expected_min);

    let expected_mid = BIAS;
    assert_eq!(to_biased_exponent(0), expected_mid);

    let expected_max = (UNBIASED_MAX + BIAS as i16) as u8;
    assert_eq!(to_biased_exponent(UNBIASED_MAX), expected_max);
}

#[test]
fn valid_mantissas() {
    for mantissa in [
        MANTISSA_DIGITS_LOWER_BOUND,
        MANTISSA_DIGITS_LOWER_BOUND + 1,
        MANTISSA_DIGITS_UPPER_BOUND,
        MANTISSA_DIGITS_UPPER_BOUND - 1,
    ] {
        let validated_mantissa = ValidatedPriceMantissa::try_from(mantissa);
        assert!(validated_mantissa.is_ok());
        assert_eq!(validated_mantissa.unwrap().as_u32(), mantissa);
    }
}

#[test]
fn invalid_mantissas() {
    assert!(matches!(
        ValidatedPriceMantissa::try_from(MANTISSA_DIGITS_LOWER_BOUND - 1),
        Err(OrderInfoError::InvalidPriceMantissa)
    ));
    assert!(matches!(
        ValidatedPriceMantissa::try_from(MANTISSA_DIGITS_UPPER_BOUND + 1),
        Err(OrderInfoError::InvalidPriceMantissa)
    ));
}

#[test]
fn pow10_scales_down_and_up() {
    assert_eq!(pow10_u64(5, BIAS), Ok(5));
    assert_eq!(pow10_u64(12_345, BIAS - 2), Ok(123));
    assert_eq!(pow10_u64(7, BIAS + 3), Ok(7_000));
    assert_eq!(pow10_u64(u64::MAX, BIAS + 1), Err(OrderInfoError::ArithmeticOverflow));
}

#[test]
fn checked_helpers_report_the_given_error() {
    assert_eq!(checked_mul(3, 4, OrderInfoError::ArithmeticOverflow), Ok(12));
    assert_eq!(
        checked_mul(u64::MAX, 2, OrderInfoError::ArithmeticOverflow),
        Err(OrderInfoError::ArithmeticOverflow)
    );
    assert_eq!(checked_sub(9, 4, OrderInfoError::ExponentUnderflow), Ok(5));
    assert_eq!(checked_sub(4, 9, OrderInfoError::ExponentUnderflow), Err(OrderInfoError::ExponentUnderflow));
}

#[test]
fn order_info_exponent_underflow() {
    // The quote exponent plus the bias is below the base exponent.
    let r = to_order_info(10_000_000, 1, 17, 0);
    assert!(matches!(r, Err(OrderInfoError::ExponentUnderflow)));
}

#[test]
fn order_info_invalid_mantissa() {
    assert!(matches!(to_order_info(9_999_999, 1, 16, 16), Err(OrderInfoError::InvalidPriceMantissa)));
}

#[test]
fn decode_encode_roundtrip() {
    let m = ValidatedPriceMantissa::try_from(55_555_555).unwrap();
    let encoded = EncodedPrice::new(20, m);
    let decoded = DecodedPrice::from(encoded);
    let (e, mantissa) = decoded.as_exponent_and_mantissa().unwrap();
    assert_eq!(*e, 20);
    assert_eq!(mantissa.as_u32(), 55_555_555);
    assert_eq!(DecodedPrice::from(EncodedPrice::zero()), DecodedPrice::Zero);
    assert_eq!(DecodedPrice::from(EncodedPrice::infinity()), DecodedPrice::Infinity);
}

#[test]
fn price_priority() {
    let low = EncodedPrice::from_u32(100);
    let high = EncodedPrice::from_u32(200);
    assert!(low.has_higher_ask_priority(&high));
    assert!(!high.has_higher_ask_priority(&low));
    assert!(high.has_higher_bid_priority(&low));
    assert!(!low.has_higher_bid_priority(&high));
    assert!(!low.has_higher_bid_priority(&low));
}

#[test]
fn le_encoded_price_bytes() {
    let p = EncodedPrice::from_u32(0x0403_0201);
    let le: LeEncodedPrice = p.into();
    assert_eq!(le.as_array(), [1, 2, 3, 4]);
    assert_eq!(le.encoded_price(), p);
    assert_eq!(LeEncodedPrice::zero().as_slice(), &[0u8; 4]);
}

#[test]
fn order_info_args_from_tuple() {
    let args: OrderInfoArgs = (10_000_000, 5, 8, 0).into();
    assert_eq!(args, OrderInfoArgs::new(10_000_000, 5, 8, 0));
    assert_eq!(args.price_mantissa, 10_000_000);
    assert_eq!(args.base_scalar, 5);
}

#[test]
fn order_info_price_exponent_out_of_range() {
    // The price's biased exponent would be 27 + 16 - 0 = 43, past the largest valid one.
    assert!(matches!(to_order_info(10_000_000, 1, 0, 27), Err(OrderInfoError::InvalidBiasedExponent)));
    // At the largest valid price exponent, 15 + 16 - 0 = 31, the order is accepted.
    let info = to_order_info(10_000_000, 1, 0, 15).unwrap();
    assert_eq!(info.encoded_price.as_u32() >> PRICE_MANTISSA_BITS, 31);
    assert_eq!(info.encoded_price.as_u32() & PRICE_MANTISSA_MASK, 10_000_000);
}

#[test]
fn encoded_prices_order_like_prices() {
    let enc = |e: u8, m: u32| EncodedPrice::new(e, ValidatedPriceMantissa::try_from(m).unwrap());
    // 99_999_999 * 10^(16 - 16) < 10_000_000 * 10^(17 - 16).
    assert!(enc(16, 99_999_999).as_u32() < enc(17, 10_000_000).as_u32());
    assert!(enc(16, 12_345_678).as_u32() < enc(16, 12_345_679).as_u32());
    assert_eq!(enc(3, 55_555_555), enc(3, 55_555_555));
}

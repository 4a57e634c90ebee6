//! See [`EncodedPrice`].
use vstd::prelude::*;

use crate::price::validated_mantissa::ValidatedPriceMantissa;
use crate::price::validated_mantissa::is_valid_mantissa;
use crate::price::{lemma_pow10_positive, pow10, MAX_BIASED_EXPONENT, PRICE_MANTISSA_BITS};

verus! {

/// The encoded price as a u32: the biased exponent in the high 5 bits and the price mantissa in
/// the low 27 bits.
///
/// ```text
///          5                27
/// |-------------------|-------------------|
///   [ exponent_bits ] | [ mantissa_bits ]
/// |---------------------------------------|
///                    32
/// ```
#[derive(Clone, Copy, Debug, PartialEq, Eq, Structural)]
pub struct EncodedPrice(u32);

/// The encoded price of a market buy with no limit on the ask price it may fill.
pub const ENCODED_PRICE_INFINITY: u32 = 0xFFFF_FFFFu32;

/// The encoded price of a market sell with no limit on the bid price it may fill.
pub const ENCODED_PRICE_ZERO: u32 = 0;

impl View for EncodedPrice {
    type V = u32;

    closed spec fn view(&self) -> u32 {
        self.0
    }
}

/// The bits of a price encoded from a biased exponent and a mantissa: the exponent shifted above
/// the mantissa bits, or'ed with the mantissa.
pub open spec fn encode_price(price_exponent_biased: u8, price_mantissa: u32) -> u32 {
    ((price_exponent_biased as u32) << 27u32) | price_mantissa
}

/// When the mantissa fits in the mantissa bits, the encoding is the exponent (modulo 32) times
/// 2^27 plus the mantissa.
pub proof fn lemma_encode_price_arith(e: u8, m: u32)
    requires
        m < 0x0800_0000,
    ensures
        encode_price(e, m) == (e as u32 % 32) * 0x0800_0000 + m,
{
    assert(((e as u32) << 27u32) | m == (e as u32 % 32) * 0x0800_0000 + m) by (bit_vector)
        requires
            m < 0x0800_0000,
    ;
}

impl EncodedPrice {
    /// Creates a new [`EncodedPrice`] from a biased price exponent and a price mantissa. Exponent
    /// bits shifted past the top are discarded.
    #[inline(always)]
    pub fn new(price_exponent_biased: u8, price_mantissa: ValidatedPriceMantissa) -> (r: Self)
        ensures
            r@ == encode_price(price_exponent_biased, price_mantissa@),
    {
        let exponent_bits = (price_exponent_biased as u32) << (PRICE_MANTISSA_BITS as u32);
        Self(exponent_bits | price_mantissa.as_u32())
    }

    /// The encoded price with the given bits.
    #[inline(always)]
    pub fn from_u32(value: u32) -> (r: Self)
        ensures
            r@ == value,
    {
        Self(value)
    }

    /// Returns the inner encoded price as a u32.
    #[inline(always)]
    pub fn as_u32(&self) -> (r: u32)
        ensures
            r == self@,
    {
        self.0
    }

    /// Returns the inner encoded price as a u32.
    #[inline(always)]
    pub fn get(&self) -> (r: u32)
        ensures
            r == self@,
    {
        self.0
    }

    /// The encoded price of a market buy/taker order with no constraint on the maximum filled ask
    /// price.
    #[inline(always)]
    pub fn infinity() -> (r: Self)
        ensures
            r@ == ENCODED_PRICE_INFINITY,
    {
        Self(ENCODED_PRICE_INFINITY)
    }

    #[inline(always)]
    pub fn is_infinity(&self) -> (r: bool)
        ensures
            r == (self@ == ENCODED_PRICE_INFINITY),
    {
        self.0 == ENCODED_PRICE_INFINITY
    }

    /// The encoded price of a market sell/taker order with no constraint on the minimum filled bid
    /// price.
    #[inline(always)]
    pub fn zero() -> (r: Self)
        ensures
            r@ == ENCODED_PRICE_ZERO,
    {
        Self(ENCODED_PRICE_ZERO)
    }

    #[inline(always)]
    pub fn is_zero(&self) -> (r: bool)
        ensures
            r == (self@ == ENCODED_PRICE_ZERO),
    {
        self.0 == ENCODED_PRICE_ZERO
    }

    /// Whether `self` is filled before `other` on the ask side: lower asks come first.
    #[inline(always)]
    pub fn has_higher_ask_priority(&self, other: &EncodedPrice) -> (r: bool)
        ensures
            r == (self@ < other@),
    {
        self.0 < other.0
    }

    /// Whether `self` is filled before `other` on the bid side: higher bids come first.
    #[inline(always)]
    pub fn has_higher_bid_priority(&self, other: &EncodedPrice) -> (r: bool)
        ensures
            r == (self@ > other@),
    {
        self.0 > other.0
    }
}

/// An encoded price stored as little-endian bytes.
#[derive(Clone, Copy, Debug, PartialEq, Eq)]
pub struct LeEncodedPrice(pub [u8; 4]);

impl LeEncodedPrice {
    /// The little-endian bytes of the zero encoded price.
    #[inline(always)]
    pub fn zero() -> (r: Self)
        ensures
            r.0@ == seq![0u8, 0u8, 0u8, 0u8],
    {
        let r = LeEncodedPrice([0u8, 0u8, 0u8, 0u8]);
        assert(r.0@ =~= seq![0u8, 0u8, 0u8, 0u8]);
        r
    }

    /// The little-endian bytes of `price`.
    #[inline(always)]
    pub fn from_encoded(price: EncodedPrice) -> (r: Self)
        ensures
            crate::le_bytes::le_u32_value(r.0) == price@,
    {
        LeEncodedPrice(crate::le_bytes::u32_to_le(price.as_u32()))
    }

    /// The bytes.
    #[inline(always)]
    pub fn as_array(&self) -> (r: [u8; 4])
        ensures
            r == self.0,
    {
        self.0
    }

    /// The bytes.
    #[inline(always)]
    pub fn as_slice(&self) -> (r: &[u8])
        ensures
            r@ == self.0@,
    {
        self.0.as_slice()
    }

    /// The encoded price these bytes hold.
    #[inline(always)]
    pub fn encoded_price(&self) -> (r: EncodedPrice)
        ensures
            r@ == crate::le_bytes::le_u32_value(self.0),
    {
        EncodedPrice(crate::le_bytes::u32_from_le(self.0))
    }
}

/// The little-endian bytes of an encoded price.
pub open spec fn le_encoded_price_of(price: EncodedPrice) -> LeEncodedPrice {
    let x = price@;
    LeEncodedPrice(
        [(x % 256) as u8, ((x / 256) % 256) as u8, ((x / 65536) % 256) as u8, (x / 16777216) as u8],
    )
}

impl From<EncodedPrice> for LeEncodedPrice {
    fn from(price: EncodedPrice) -> (r: Self) {
        let x = price.as_u32();
        LeEncodedPrice(
            [
                (x % 256) as u8,
                ((x / 256) % 256) as u8,
                ((x / 65536) % 256) as u8,
                (x / 16777216) as u8,
            ],
        )
    }
}

impl vstd::std_specs::convert::FromSpecImpl<EncodedPrice> for LeEncodedPrice {
    open spec fn obeys_from_spec() -> bool {
        true
    }

    open spec fn from_spec(price: EncodedPrice) -> Self {
        le_encoded_price_of(price)
    }
}

/// Ten to a larger power is at least ten times ten to a smaller power.
proof fn lemma_pow10_step(a: nat, b: nat)
    requires
        a < b,
    ensures
        pow10(b) >= 10 * pow10(a),
    decreases b,
{
    if a + 1 < b {
        lemma_pow10_step(a, (b - 1) as nat);
        lemma_pow10_positive(a);
    }
}

/// The real value of a price with eight-digit mantissa `m` and biased exponent `e`, scaled by
/// `10^BIAS` so that it is a whole number: `m * 10^e`.
pub open spec fn scaled_price_value(e: u8, m: u32) -> nat {
    m as nat * pow10(e as nat)
}

/// Encoded prices compare as their biased exponents and then their mantissas, which is how the
/// prices themselves compare: with eight-digit mantissas, a larger exponent always means a larger
/// price. Two encodings are equal exactly when their exponents and mantissas are.
pub proof fn lemma_encoded_price_order(e1: u8, m1: u32, e2: u8, m2: u32)
    requires
        e1 <= MAX_BIASED_EXPONENT,
        e2 <= MAX_BIASED_EXPONENT,
        is_valid_mantissa(m1),
        is_valid_mantissa(m2),
    ensures
        (encode_price(e1, m1) < encode_price(e2, m2)) <==> (e1 < e2 || (e1 == e2 && m1 < m2)),
        (encode_price(e1, m1) == encode_price(e2, m2)) <==> (e1 == e2 && m1 == m2),
        (encode_price(e1, m1) < encode_price(e2, m2)) <==> (scaled_price_value(e1, m1)
            < scaled_price_value(e2, m2)),
{
    lemma_encode_price_arith(e1, m1);
    lemma_encode_price_arith(e2, m2);
    let p1 = pow10(e1 as nat);
    let p2 = pow10(e2 as nat);
    lemma_pow10_positive(e1 as nat);
    lemma_pow10_positive(e2 as nat);
    if e1 < e2 {
        lemma_pow10_step(e1 as nat, e2 as nat);
        assert(m1 as nat * p1 < m2 as nat * p2) by (nonlinear_arith)
            requires
                m1 < 100_000_000,
                m2 >= 10_000_000,
                p2 >= 10 * p1,
                p1 >= 1,
        ;
    } else if e2 < e1 {
        lemma_pow10_step(e2 as nat, e1 as nat);
        assert(m2 as nat * p2 < m1 as nat * p1) by (nonlinear_arith)
            requires
                m2 < 100_000_000,
                m1 >= 10_000_000,
                p1 >= 10 * p2,
                p2 >= 1,
        ;
    } else {
        assert(p1 == p2);
        assert((m1 < m2) <==> (m1 as nat * p1 < m2 as nat * p1)) by (nonlinear_arith)
            requires
                p1 >= 1,
        ;
    }
}

} // verus!

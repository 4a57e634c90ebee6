//! See [`OrderInfoArgs`].
use vstd::prelude::*;

use crate::le_bytes::{
    le_u32_at, le_u64_at, lemma_le_u32_at_bytes, lemma_le_u64_at_bytes, u32_from_le, u32_le_bytes,
    u32_to_le, u64_from_le, u64_le_bytes, u64_to_le,
};
use crate::pack::Pack;

verus! {

/// The size in bytes of packed [`OrderInfoArgs`].
pub const ORDER_INFO_ARGS_LEN: usize = 14;

/// The arguments of [`to_order_info`](crate::price::to_order_info) for one order, as carried in
/// instruction data.
#[derive(Clone, Copy, Debug, PartialEq, Eq, Structural)]
pub struct OrderInfoArgs {
    pub price_mantissa: u32,
    pub base_scalar: u64,
    pub base_exponent_biased: u8,
    pub quote_exponent_biased: u8,
}

impl OrderInfoArgs {
    pub fn new(
        price_mantissa: u32,
        base_scalar: u64,
        base_exponent_biased: u8,
        quote_exponent_biased: u8,
    ) -> (r: Self)
        ensures
            r == (OrderInfoArgs {
                price_mantissa,
                base_scalar,
                base_exponent_biased,
                quote_exponent_biased,
            }),
    {
        OrderInfoArgs { price_mantissa, base_scalar, base_exponent_biased, quote_exponent_biased }
    }

    /// The arguments packed in `bytes` at `off`: the mantissa and the base scalar as
    /// little-endian integers, then the two biased exponents.
    pub fn read_bytes(bytes: &[u8], off: usize) -> (r: Self)
        requires
            off + ORDER_INFO_ARGS_LEN <= bytes@.len(),
        ensures
            r.packed() == bytes@.subrange(off as int, off + ORDER_INFO_ARGS_LEN),
    {
        let price_mantissa = u32_from_le([bytes[off], bytes[off + 1], bytes[off + 2], bytes[off + 3]]);
        let base_scalar = u64_from_le(
            [
                bytes[off + 4],
                bytes[off + 5],
                bytes[off + 6],
                bytes[off + 7],
                bytes[off + 8],
                bytes[off + 9],
                bytes[off + 10],
                bytes[off + 11],
            ],
        );
        let r = OrderInfoArgs {
            price_mantissa,
            base_scalar,
            base_exponent_biased: bytes[off + 12],
            quote_exponent_biased: bytes[off + 13],
        };
        proof {
            let b = bytes@;
            let o = off as int;
            assert(price_mantissa == le_u32_at(b, o));
            assert(base_scalar == le_u64_at(b, o + 4));
            lemma_le_u32_at_bytes(b, o);
            lemma_le_u64_at_bytes(b, o + 4);
            assert(r.packed() =~= b.subrange(o, o + 14));
        }
        r
    }
}

impl Pack<ORDER_INFO_ARGS_LEN> for OrderInfoArgs {
    /// The mantissa and the base scalar as little-endian integers, then the base and the quote
    /// biased exponents.
    open spec fn packed(&self) -> Seq<u8> {
        u32_le_bytes(self.price_mantissa) + u64_le_bytes(self.base_scalar) + seq![
            self.base_exponent_biased,
            self.quote_exponent_biased,
        ]
    }

    fn pack_into_slice(&self, dst: &mut [u8; ORDER_INFO_ARGS_LEN]) {
        let m = u32_to_le(self.price_mantissa);
        let s = u64_to_le(self.base_scalar);
        *dst = [
            m[0],
            m[1],
            m[2],
            m[3],
            s[0],
            s[1],
            s[2],
            s[3],
            s[4],
            s[5],
            s[6],
            s[7],
            self.base_exponent_biased,
            self.quote_exponent_biased,
        ];
        assert(dst@ =~= self.packed());
    }
}

impl From<(u32, u64, u8, u8)> for OrderInfoArgs {
    fn from(args: (u32, u64, u8, u8)) -> (r: Self) {
        OrderInfoArgs::new(args.0, args.1, args.2, args.3)
    }
}

impl vstd::std_specs::convert::FromSpecImpl<(u32, u64, u8, u8)> for OrderInfoArgs {
    open spec fn obeys_from_spec() -> bool {
        true
    }

    open spec fn from_spec(args: (u32, u64, u8, u8)) -> Self {
        OrderInfoArgs {
            price_mantissa: args.0,
            base_scalar: args.1,
            base_exponent_biased: args.2,
            quote_exponent_biased: args.3,
        }
    }
}

/// Unpacking packed arguments gives them back.
pub proof fn lemma_order_info_args_roundtrip(a: OrderInfoArgs, b: OrderInfoArgs)
    requires
        a.packed() == b.packed(),
    ensures
        a == b,
{
    let p = a.packed();
    crate::le_bytes::lemma_u32_le_bytes(a.price_mantissa);
    crate::le_bytes::lemma_u32_le_bytes(b.price_mantissa);
    crate::le_bytes::lemma_u64_le_bytes(a.base_scalar);
    crate::le_bytes::lemma_u64_le_bytes(b.base_scalar);
    assert(p.subrange(0, 4) =~= u32_le_bytes(a.price_mantissa));
    assert(b.packed().subrange(0, 4) =~= u32_le_bytes(b.price_mantissa));
    assert(p.subrange(4, 12) =~= u64_le_bytes(a.base_scalar));
    assert(b.packed().subrange(4, 12) =~= u64_le_bytes(b.base_scalar));
    assert(le_u32_at(u32_le_bytes(a.price_mantissa), 0) == le_u32_at(p, 0));
    assert(le_u32_at(u32_le_bytes(b.price_mantissa), 0) == le_u32_at(p, 0));
    assert(le_u64_at(u64_le_bytes(a.base_scalar), 0) == le_u64_at(p, 4));
    assert(le_u64_at(u64_le_bytes(b.base_scalar), 0) == le_u64_at(p, 4));
    assert(p[12] == a.base_exponent_biased && p[13] == a.quote_exponent_biased);
}

} // verus!

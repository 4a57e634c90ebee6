//! See [`MarketSeat`].
use vstd::prelude::*;

use crate::error::{DropsetError, DropsetResult};
use crate::le_bytes::{
    array_from_slice, le_u32_at, le_u64_at, le_u64_value, lemma_le_u32_at_array,
    lemma_le_u64_at_array, read_bytes_at, u64_from_le, u64_to_le, write_at,
};
use crate::state::transmutable::Transmutable;
use crate::state::sector::{AllBitPatternsValid, Payload, PAYLOAD_SIZE};
use crate::state::user_order_sectors::{EntryView, OrderSectors, UserOrderSectors};
use crate::state::U64_SIZE;

verus! {

/// A user's position within a market.
#[derive(Clone, Copy, Debug, PartialEq, Eq)]
pub struct MarketSeat {
    /// The user's public key.
    pub user: [u8; 32],
    /// The u64 amount of base the maker can withdraw as LE bytes.
    base_available: [u8; U64_SIZE],
    /// The u64 amount of quote the maker can withdraw as LE bytes.
    quote_available: [u8; U64_SIZE],
    /// The maps from the user's order prices to their order sector indices.
    pub user_order_sectors: UserOrderSectors,
}

/// The decoded contents of a [`MarketSeat`].
pub struct SeatView {
    pub user: Seq<u8>,
    pub base_available: u64,
    pub quote_available: u64,
    pub bids: Seq<EntryView>,
    pub asks: Seq<EntryView>,
}

impl View for MarketSeat {
    type V = SeatView;

    closed spec fn view(&self) -> SeatView {
        SeatView {
            user: self.user@,
            base_available: le_u64_value(self.base_available),
            quote_available: le_u64_value(self.quote_available),
            bids: self.user_order_sectors.bids@,
            asks: self.user_order_sectors.asks@,
        }
    }
}

impl MarketSeat {
    /// A seat for `user` with the given available amounts and no orders.
    pub fn new(user: [u8; 32], base: u64, quote: u64) -> (r: Self)
        ensures
            r@.user == user@,
            r@.base_available == base,
            r@.quote_available == quote,
            r@.bids == Seq::new(5, |i: int| crate::state::user_order_sectors::free_entry()),
            r@.asks == Seq::new(5, |i: int| crate::state::user_order_sectors::free_entry()),
    {
        MarketSeat {
            user,
            base_available: u64_to_le(base),
            quote_available: u64_to_le(quote),
            user_order_sectors: UserOrderSectors::default(),
        }
    }

    #[inline(always)]
    pub fn base_available(&self) -> (r: u64)
        ensures
            r == self@.base_available,
    {
        u64_from_le(self.base_available)
    }

    #[inline(always)]
    pub fn set_base_available(&mut self, amount: u64)
        ensures
            final(self)@ == (SeatView { base_available: amount, ..old(self)@ }),
    {
        self.base_available = u64_to_le(amount);
    }

    #[inline(always)]
    pub fn quote_available(&self) -> (r: u64)
        ensures
            r == self@.quote_available,
    {
        u64_from_le(self.quote_available)
    }

    #[inline(always)]
    pub fn set_quote_available(&mut self, amount: u64)
        ensures
            final(self)@ == (SeatView { quote_available: amount, ..old(self)@ }),
    {
        self.quote_available = u64_to_le(amount);
    }

    /// Subtracts `amount` from the base available, failing with `InsufficientUserBalance` if the
    /// seat has less.
    #[inline(always)]
    pub fn try_decrement_base_available(&mut self, amount: u64) -> (r: DropsetResult)
        ensures
            amount <= old(self)@.base_available ==> r is Ok && final(self)@ == (SeatView {
                base_available: (old(self)@.base_available - amount) as u64,
                ..old(self)@
            }),
            amount > old(self)@.base_available ==> r == Err::<(), DropsetError>(
                DropsetError::InsufficientUserBalance,
            ) && final(self)@ == old(self)@,
    {
        let base = self.base_available();
        if amount > base {
            return Err(DropsetError::InsufficientUserBalance);
        }
        self.set_base_available(base - amount);
        Ok(())
    }

    /// Adds `amount` to the base available, failing with `ArithmeticOverflow` on overflow.
    #[inline(always)]
    pub fn try_increment_base_available(&mut self, amount: u64) -> (r: DropsetResult)
        ensures
            old(self)@.base_available + amount <= u64::MAX ==> r is Ok && final(self)@ == (SeatView {
                base_available: (old(self)@.base_available + amount) as u64,
                ..old(self)@
            }),
            old(self)@.base_available + amount > u64::MAX ==> r == Err::<(), DropsetError>(
                DropsetError::ArithmeticOverflow,
            ) && final(self)@ == old(self)@,
    {
        let base = self.base_available();
        match base.checked_add(amount) {
            Some(v) => {
                self.set_base_available(v);
                Ok(())
            },
            None => Err(DropsetError::ArithmeticOverflow),
        }
    }

    /// Subtracts `amount` from the quote available, failing with `InsufficientUserBalance` if the
    /// seat has less.
    #[inline(always)]
    pub fn try_decrement_quote_available(&mut self, amount: u64) -> (r: DropsetResult)
        ensures
            amount <= old(self)@.quote_available ==> r is Ok && final(self)@ == (SeatView {
                quote_available: (old(self)@.quote_available - amount) as u64,
                ..old(self)@
            }),
            amount > old(self)@.quote_available ==> r == Err::<(), DropsetError>(
                DropsetError::InsufficientUserBalance,
            ) && final(self)@ == old(self)@,
    {
        let quote = self.quote_available();
        if amount > quote {
            return Err(DropsetError::InsufficientUserBalance);
        }
        self.set_quote_available(quote - amount);
        Ok(())
    }

    /// Adds `amount` to the quote available, failing with `ArithmeticOverflow` on overflow.
    #[inline(always)]
    pub fn try_increment_quote_available(&mut self, amount: u64) -> (r: DropsetResult)
        ensures
            old(self)@.quote_available + amount <= u64::MAX ==> r is Ok && final(self)@ == (SeatView {
                quote_available: (old(self)@.quote_available + amount) as u64,
                ..old(self)@
            }),
            old(self)@.quote_available + amount > u64::MAX ==> r == Err::<(), DropsetError>(
                DropsetError::ArithmeticOverflow,
            ) && final(self)@ == old(self)@,
    {
        let quote = self.quote_available();
        match quote.checked_add(amount) {
            Some(v) => {
                self.set_quote_available(v);
                Ok(())
            },
            None => Err(DropsetError::ArithmeticOverflow),
        }
    }

    /// The seat's bytes: user, base available, quote available, bid entries, ask entries.
    pub closed spec fn bytes(&self) -> Seq<u8> {
        self.user@ + self.base_available@ + self.quote_available@
            + self.user_order_sectors.bids.bytes() + self.user_order_sectors.asks.bytes()
    }

    /// The seat's bytes.
    #[inline(always)]
    pub fn as_array(&self) -> (r: [u8; PAYLOAD_SIZE])
        ensures
            r@ == self.bytes(),
    {
        let mut out = [0u8; PAYLOAD_SIZE];
        write_at(&mut out, 0, &self.user);
        write_at(&mut out, 32, &self.base_available);
        write_at(&mut out, 40, &self.quote_available);
        write_at(&mut out, 48, &self.user_order_sectors.bids.to_bytes());
        write_at(&mut out, 88, &self.user_order_sectors.asks.to_bytes());
        assert(out@ =~= self.bytes());
        out
    }
}

impl MarketSeat {
    /// The seat that `bytes` hold.
    fn from_array(bytes: &[u8; PAYLOAD_SIZE]) -> (r: Self)
        ensures
            r.bytes() == bytes@,
    {
        let bids = OrderSectors::from_bytes(&read_bytes_at::<PAYLOAD_SIZE, 40>(bytes, 48));
        let asks = OrderSectors::from_bytes(&read_bytes_at::<PAYLOAD_SIZE, 40>(bytes, 88));
        let r = MarketSeat {
            user: read_bytes_at::<PAYLOAD_SIZE, 32>(bytes, 0),
            base_available: read_bytes_at::<PAYLOAD_SIZE, 8>(bytes, 32),
            quote_available: read_bytes_at::<PAYLOAD_SIZE, 8>(bytes, 40),
            user_order_sectors: UserOrderSectors { bids, asks },
        };
        assert(r.bytes() =~= bytes@);
        r
    }
}

impl Payload for MarketSeat {
    closed spec fn payload_bytes(&self) -> Seq<u8> {
        self.bytes()
    }

    fn load_from_payload(bytes: &[u8; PAYLOAD_SIZE]) -> (r: Self) {
        MarketSeat::from_array(bytes)
    }

    fn store_to_payload(&self) -> (r: [u8; PAYLOAD_SIZE]) {
        self.as_array()
    }
}

impl AllBitPatternsValid for MarketSeat {}

impl Transmutable for MarketSeat {
    open spec fn byte_len() -> nat {
        128 as nat
    }

    fn len() -> (r: usize) {
        128
    }

    closed spec fn byte_repr(&self) -> Seq<u8> {
        self.bytes()
    }

    fn load_unchecked(bytes: &[u8]) -> (r: Self) {
        MarketSeat::from_array(&array_from_slice::<PAYLOAD_SIZE>(bytes))
    }
}

/// The entries that the 40 bytes of `b` at `off` hold, each a little-endian price and then a
/// little-endian sector index.
pub open spec fn entries_at(b: Seq<u8>, off: int) -> Seq<EntryView> {
    Seq::new(5, |k: int| EntryView { price: le_u32_at(b, off + 8 * k), index: le_u32_at(b, off + 8 * k + 4) })
}

/// A seat's bytes, as a payload and as read by `load`, are the user at 0, the base available at 32
/// and the quote available at 40 (little-endian), the bid entries at 48 and the ask entries at 88.
/// So reading a seat from bytes decodes each part from its own offset.
pub proof fn lemma_seat_layout(seat: MarketSeat)
    ensures
        seat.byte_repr() == seat.payload_bytes(),
        ({
            let b = seat.byte_repr();
            let v = seat@;
            &&& b.len() == PAYLOAD_SIZE
            &&& v.user == b.subrange(0, 32)
            &&& v.base_available == le_u64_at(b, 32)
            &&& v.quote_available == le_u64_at(b, 40)
            &&& v.bids == entries_at(b, 48)
            &&& v.asks == entries_at(b, 88)
        }),
{
    let b = seat.byte_repr();
    assert(b.subrange(0, 32) =~= seat.user@);
    assert(b.subrange(32, 40) =~= seat.base_available@);
    assert(b.subrange(40, 48) =~= seat.quote_available@);
    lemma_le_u64_at_array(b, 32, seat.base_available);
    lemma_le_u64_at_array(b, 40, seat.quote_available);
    assert(b.subrange(48, 88) =~= seat.user_order_sectors.bids.bytes());
    assert(b.subrange(88, 128) =~= seat.user_order_sectors.asks.bytes());
    lemma_entries_layout(b, 48, seat.user_order_sectors.bids);
    lemma_entries_layout(b, 88, seat.user_order_sectors.asks);
}

/// Entries whose bytes stand at `off` in `b` are the entries decoded there.
proof fn lemma_entries_layout(b: Seq<u8>, off: int, o: OrderSectors)
    requires
        0 <= off,
        off + 40 <= b.len(),
        b.subrange(off, off + 40) == o.bytes(),
    ensures
        o@ == entries_at(b, off),
{
    let ob = o.bytes();
    assert forall|k: int| 0 <= k < 5 implies (#[trigger] o@[k]) == entries_at(b, off)[k] by {
        let e = o.0@[k];
        assert(b.subrange(off + 8 * k, off + 8 * k + 4) =~= e.encoded_price.0@) by {
            assert forall|i: int| 0 <= i < 4 implies b.subrange(off + 8 * k, off + 8 * k + 4)[i]
                == e.encoded_price.0@[i] by {
                assert(b[off + 8 * k + i] == ob[8 * k + i]);
                assert((8 * k + i) / 8 == k && (8 * k + i) % 8 == i);
            }
        }
        assert(b.subrange(off + 8 * k + 4, off + 8 * k + 8) =~= e.sector_index@) by {
            assert forall|i: int| 0 <= i < 4 implies b.subrange(off + 8 * k + 4, off + 8 * k + 8)[i]
                == e.sector_index@[i] by {
                assert(b[off + 8 * k + 4 + i] == ob[8 * k + 4 + i]);
                assert((8 * k + 4 + i) / 8 == k && (8 * k + 4 + i) % 8 == 4 + i);
            }
        }
        lemma_le_u32_at_array(b, off + 8 * k, e.encoded_price.0);
        lemma_le_u32_at_array(b, off + 8 * k + 4, e.sector_index);
    }
    assert(o@ =~= entries_at(b, off));
}

} // verus!

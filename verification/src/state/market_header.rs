//! See [`MarketHeader`].
use vstd::prelude::*;

use crate::error::{DropsetError, DropsetResult};
use crate::le_bytes::{
    le_u32_at, le_u64_at, lemma_le_u32_at_array, lemma_le_u64_at_array, array_from_slice, le_u32_value, le_u64_value, read_bytes_at, u32_from_le, u32_to_le, u64_from_le,
    u64_to_le,
};
use crate::state::transmutable::Transmutable;
use crate::state::sector::{lemma_le_nil, LeSectorIndex, SectorIndex, LE_NIL, NIL};
use crate::state::{LeU32, LeU64};

verus! {

/// The discriminant stored at the start of every initialized market account.
pub const MARKET_ACCOUNT_DISCRIMINANT: u64 = 0xd00d00b00b00f00du64;

/// The size in bytes of a [`MarketHeader`].
pub const MARKET_HEADER_SIZE: usize = 128;

/// The lightweight header for each market account. It holds the metadata used to interpret the
/// market's `sectors` region: the counters of each collection, the top of the free stack and the
/// head and tail of each doubly linked list.
#[derive(Clone, Copy, Debug)]
pub struct MarketHeader {
    /// The u64 market account discriminant as LE bytes.
    discriminant: LeU64,
    /// The u32 total number of fully initialized seats as LE bytes.
    num_seats: LeU32,
    /// The u32 total number of fully initialized bid orders as LE bytes.
    num_bids: LeU32,
    /// The u32 total number of fully initialized ask orders as LE bytes.
    num_asks: LeU32,
    /// The u32 total number of sectors in the free sectors stack as LE bytes.
    num_free_sectors: LeU32,
    /// The sector index of the first sector in the free sectors stack.
    free_stack_top: LeSectorIndex,
    /// The sector index of the first sector in the seat sectors DLL.
    seats_dll_head: LeSectorIndex,
    /// The sector index of the last sector in the seat sectors DLL.
    seats_dll_tail: LeSectorIndex,
    /// The sector index of the first sector in the bid sectors DLL.
    bids_dll_head: LeSectorIndex,
    /// The sector index of the last sector in the bid sectors DLL.
    bids_dll_tail: LeSectorIndex,
    /// The sector index of the first sector in the ask sectors DLL.
    asks_dll_head: LeSectorIndex,
    /// The sector index of the last sector in the ask sectors DLL.
    asks_dll_tail: LeSectorIndex,
    /// The market's base mint address.
    pub base_mint: [u8; 32],
    /// The market's quote mint address.
    pub quote_mint: [u8; 32],
    /// The bump for the market PDA.
    pub market_bump: u8,
    /// The u64 number of events as LE bytes.
    num_events: LeU64,
    /// Padding that brings the header to 128 bytes.
    _padding: [u8; 3],
}

/// The decoded contents of a [`MarketHeader`].
pub struct HeaderView {
    pub discriminant: u64,
    pub num_seats: u32,
    pub num_bids: u32,
    pub num_asks: u32,
    pub num_free_sectors: u32,
    pub free_stack_top: SectorIndex,
    pub seats_dll_head: SectorIndex,
    pub seats_dll_tail: SectorIndex,
    pub bids_dll_head: SectorIndex,
    pub bids_dll_tail: SectorIndex,
    pub asks_dll_head: SectorIndex,
    pub asks_dll_tail: SectorIndex,
    pub base_mint: Seq<u8>,
    pub quote_mint: Seq<u8>,
    pub market_bump: u8,
    pub num_events: u64,
}

impl View for MarketHeader {
    type V = HeaderView;

    closed spec fn view(&self) -> HeaderView {
        HeaderView {
            discriminant: le_u64_value(self.discriminant),
            num_seats: le_u32_value(self.num_seats),
            num_bids: le_u32_value(self.num_bids),
            num_asks: le_u32_value(self.num_asks),
            num_free_sectors: le_u32_value(self.num_free_sectors),
            free_stack_top: le_u32_value(self.free_stack_top),
            seats_dll_head: le_u32_value(self.seats_dll_head),
            seats_dll_tail: le_u32_value(self.seats_dll_tail),
            bids_dll_head: le_u32_value(self.bids_dll_head),
            bids_dll_tail: le_u32_value(self.bids_dll_tail),
            asks_dll_head: le_u32_value(self.asks_dll_head),
            asks_dll_tail: le_u32_value(self.asks_dll_tail),
            base_mint: self.base_mint@,
            quote_mint: self.quote_mint@,
            market_bump: self.market_bump,
            num_events: le_u64_value(self.num_events),
        }
    }
}

impl MarketHeader {
    /// The `num_free_sectors` counter.
    #[inline(always)]
    pub fn num_free_sectors(&self) -> (r: u32)
        ensures
            r == self@.num_free_sectors,
    {
        u32_from_le(self.num_free_sectors)
    }

    /// Adds one to the `num_free_sectors` counter, wrapping at `u32::MAX`.
    #[inline(always)]
    pub fn increment_num_free_sectors(&mut self)
        ensures
            final(self)@ == (HeaderView { num_free_sectors: old(self)@.num_free_sectors.wrapping_add(1), ..old(self)@ }),
    {
        let num_free_sectors = self.num_free_sectors();
        self.num_free_sectors = u32_to_le(num_free_sectors.wrapping_add(1));
    }

    /// Subtracts one from the `num_free_sectors` counter, wrapping at zero.
    #[inline(always)]
    pub fn decrement_num_free_sectors(&mut self)
        ensures
            final(self)@ == (HeaderView { num_free_sectors: old(self)@.num_free_sectors.wrapping_sub(1), ..old(self)@ }),
    {
        let num_free_sectors = self.num_free_sectors();
        self.num_free_sectors = u32_to_le(num_free_sectors.wrapping_sub(1));
    }

    /// The `num_seats` counter.
    #[inline(always)]
    pub fn num_seats(&self) -> (r: u32)
        ensures
            r == self@.num_seats,
    {
        u32_from_le(self.num_seats)
    }

    /// Adds one to the `num_seats` counter, wrapping at `u32::MAX`.
    #[inline(always)]
    pub fn increment_num_seats(&mut self)
        ensures
            final(self)@ == (HeaderView { num_seats: old(self)@.num_seats.wrapping_add(1), ..old(self)@ }),
    {
        let num_seats = self.num_seats();
        self.num_seats = u32_to_le(num_seats.wrapping_add(1));
    }

    /// Subtracts one from the `num_seats` counter, wrapping at zero.
    #[inline(always)]
    pub fn decrement_num_seats(&mut self)
        ensures
            final(self)@ == (HeaderView { num_seats: old(self)@.num_seats.wrapping_sub(1), ..old(self)@ }),
    {
        let num_seats = self.num_seats();
        self.num_seats = u32_to_le(num_seats.wrapping_sub(1));
    }

    /// The `num_bids` counter.
    #[inline(always)]
    pub fn num_bids(&self) -> (r: u32)
        ensures
            r == self@.num_bids,
    {
        u32_from_le(self.num_bids)
    }

    /// Adds one to the `num_bids` counter, wrapping at `u32::MAX`.
    #[inline(always)]
    pub fn increment_num_bids(&mut self)
        ensures
            final(self)@ == (HeaderView { num_bids: old(self)@.num_bids.wrapping_add(1), ..old(self)@ }),
    {
        let num_bids = self.num_bids();
        self.num_bids = u32_to_le(num_bids.wrapping_add(1));
    }

    /// Subtracts one from the `num_bids` counter, wrapping at zero.
    #[inline(always)]
    pub fn decrement_num_bids(&mut self)
        ensures
            final(self)@ == (HeaderView { num_bids: old(self)@.num_bids.wrapping_sub(1), ..old(self)@ }),
    {
        let num_bids = self.num_bids();
        self.num_bids = u32_to_le(num_bids.wrapping_sub(1));
    }

    /// The `num_asks` counter.
    #[inline(always)]
    pub fn num_asks(&self) -> (r: u32)
        ensures
            r == self@.num_asks,
    {
        u32_from_le(self.num_asks)
    }

    /// Adds one to the `num_asks` counter, wrapping at `u32::MAX`.
    #[inline(always)]
    pub fn increment_num_asks(&mut self)
        ensures
            final(self)@ == (HeaderView { num_asks: old(self)@.num_asks.wrapping_add(1), ..old(self)@ }),
    {
        let num_asks = self.num_asks();
        self.num_asks = u32_to_le(num_asks.wrapping_add(1));
    }

    /// Subtracts one from the `num_asks` counter, wrapping at zero.
    #[inline(always)]
    pub fn decrement_num_asks(&mut self)
        ensures
            final(self)@ == (HeaderView { num_asks: old(self)@.num_asks.wrapping_sub(1), ..old(self)@ }),
    {
        let num_asks = self.num_asks();
        self.num_asks = u32_to_le(num_asks.wrapping_sub(1));
    }

    /// The `free_stack_top` sector index.
    #[inline(always)]
    pub fn free_stack_top(&self) -> (r: SectorIndex)
        ensures
            r == self@.free_stack_top,
    {
        u32_from_le(self.free_stack_top)
    }

    /// Sets the `free_stack_top` sector index.
    #[inline(always)]
    pub fn set_free_stack_top(&mut self, index: SectorIndex)
        ensures
            final(self)@ == (HeaderView { free_stack_top: index, ..old(self)@ }),
    {
        self.free_stack_top = u32_to_le(index);
    }

    /// The `seats_dll_head` sector index.
    #[inline(always)]
    pub fn seats_dll_head(&self) -> (r: SectorIndex)
        ensures
            r == self@.seats_dll_head,
    {
        u32_from_le(self.seats_dll_head)
    }

    /// Sets the `seats_dll_head` sector index.
    #[inline(always)]
    pub fn set_seats_dll_head(&mut self, index: SectorIndex)
        ensures
            final(self)@ == (HeaderView { seats_dll_head: index, ..old(self)@ }),
    {
        self.seats_dll_head = u32_to_le(index);
    }

    /// The `seats_dll_tail` sector index.
    #[inline(always)]
    pub fn seats_dll_tail(&self) -> (r: SectorIndex)
        ensures
            r == self@.seats_dll_tail,
    {
        u32_from_le(self.seats_dll_tail)
    }

    /// Sets the `seats_dll_tail` sector index.
    #[inline(always)]
    pub fn set_seats_dll_tail(&mut self, index: SectorIndex)
        ensures
            final(self)@ == (HeaderView { seats_dll_tail: index, ..old(self)@ }),
    {
        self.seats_dll_tail = u32_to_le(index);
    }

    /// The `bids_dll_head` sector index.
    #[inline(always)]
    pub fn bids_dll_head(&self) -> (r: SectorIndex)
        ensures
            r == self@.bids_dll_head,
    {
        u32_from_le(self.bids_dll_head)
    }

    /// Sets the `bids_dll_head` sector index.
    #[inline(always)]
    pub fn set_bids_dll_head(&mut self, index: SectorIndex)
        ensures
            final(self)@ == (HeaderView { bids_dll_head: index, ..old(self)@ }),
    {
        self.bids_dll_head = u32_to_le(index);
    }

    /// The `bids_dll_tail` sector index.
    #[inline(always)]
    pub fn bids_dll_tail(&self) -> (r: SectorIndex)
        ensures
            r == self@.bids_dll_tail,
    {
        u32_from_le(self.bids_dll_tail)
    }

    /// Sets the `bids_dll_tail` sector index.
    #[inline(always)]
    pub fn set_bids_dll_tail(&mut self, index: SectorIndex)
        ensures
            final(self)@ == (HeaderView { bids_dll_tail: index, ..old(self)@ }),
    {
        self.bids_dll_tail = u32_to_le(index);
    }

    /// The `asks_dll_head` sector index.
    #[inline(always)]
    pub fn asks_dll_head(&self) -> (r: SectorIndex)
        ensures
            r == self@.asks_dll_head,
    {
        u32_from_le(self.asks_dll_head)
    }

    /// Sets the `asks_dll_head` sector index.
    #[inline(always)]
    pub fn set_asks_dll_head(&mut self, index: SectorIndex)
        ensures
            final(self)@ == (HeaderView { asks_dll_head: index, ..old(self)@ }),
    {
        self.asks_dll_head = u32_to_le(index);
    }

    /// The `asks_dll_tail` sector index.
    #[inline(always)]
    pub fn asks_dll_tail(&self) -> (r: SectorIndex)
        ensures
            r == self@.asks_dll_tail,
    {
        u32_from_le(self.asks_dll_tail)
    }

    /// Sets the `asks_dll_tail` sector index.
    #[inline(always)]
    pub fn set_asks_dll_tail(&mut self, index: SectorIndex)
        ensures
            final(self)@ == (HeaderView { asks_dll_tail: index, ..old(self)@ }),
    {
        self.asks_dll_tail = u32_to_le(index);
    }

    /// A fresh header: the market discriminant, zero counters, an empty free stack, empty lists,
    /// the given mints and bump, and no events.
    #[inline(always)]
    pub fn init(market_bump: u8, base_mint: &[u8; 32], quote_mint: &[u8; 32]) -> (h: MarketHeader)
        ensures
            h@ == (HeaderView {
                discriminant: MARKET_ACCOUNT_DISCRIMINANT,
                num_seats: 0,
                num_bids: 0,
                num_asks: 0,
                num_free_sectors: 0,
                free_stack_top: NIL,
                seats_dll_head: NIL,
                seats_dll_tail: NIL,
                bids_dll_head: NIL,
                bids_dll_tail: NIL,
                asks_dll_head: NIL,
                asks_dll_tail: NIL,
                base_mint: base_mint@,
                quote_mint: quote_mint@,
                market_bump,
                num_events: 0,
            }),
            h.byte_repr().subrange(125, 128) == seq![0u8, 0u8, 0u8],
    {
        proof {
            lemma_le_nil(LE_NIL);
        }
        let h = MarketHeader {
            discriminant: u64_to_le(MARKET_ACCOUNT_DISCRIMINANT),
            num_seats: [0u8; 4],
            num_bids: [0u8; 4],
            num_asks: [0u8; 4],
            num_free_sectors: [0u8; 4],
            free_stack_top: LE_NIL,
            seats_dll_head: LE_NIL,
            seats_dll_tail: LE_NIL,
            bids_dll_head: LE_NIL,
            bids_dll_tail: LE_NIL,
            asks_dll_head: LE_NIL,
            asks_dll_tail: LE_NIL,
            base_mint: *base_mint,
            quote_mint: *quote_mint,
            market_bump,
            num_events: [0u8; 8],
            _padding: [0u8, 0u8, 0u8],
        };
        assert(h.byte_repr().subrange(125, 128) =~= seq![0u8, 0u8, 0u8]);
        h
    }

    /// Fails with `InvalidAccountDiscriminant` unless the discriminant is the market's.
    #[inline(always)]
    pub fn verify_discriminant(&self) -> (r: DropsetResult)
        ensures
            r is Ok <==> self@.discriminant == MARKET_ACCOUNT_DISCRIMINANT,
            r matches Err(e) ==> e == DropsetError::InvalidAccountDiscriminant,
    {
        if self.discriminant() != MARKET_ACCOUNT_DISCRIMINANT {
            return Err(DropsetError::InvalidAccountDiscriminant);
        }
        Ok(())
    }

    #[inline(always)]
    pub fn discriminant(&self) -> (r: u64)
        ensures
            r == self@.discriminant,
    {
        u64_from_le(self.discriminant)
    }

    #[inline(always)]
    pub fn num_events(&self) -> (r: u64)
        ensures
            r == self@.num_events,
    {
        u64_from_le(self.num_events)
    }

    /// Adds `amount` to the number of events, saturating at `u64::MAX`.
    #[inline(always)]
    pub fn increment_num_events_by(&mut self, amount: u64)
        ensures
            final(self)@ == (HeaderView {
                num_events: if old(self)@.num_events + amount > u64::MAX {
                    u64::MAX
                } else {
                    (old(self)@.num_events + amount) as u64
                },
                ..old(self)@
            }),
    {
        self.num_events = u64_to_le(self.num_events().saturating_add(amount));
    }
}

impl Transmutable for MarketHeader {
    open spec fn byte_len() -> nat {
        MARKET_HEADER_SIZE as nat
    }

    fn len() -> (r: usize) {
        MARKET_HEADER_SIZE
    }

    /// The fields' bytes in declaration order.
    closed spec fn byte_repr(&self) -> Seq<u8> {
        self.discriminant@ + self.num_seats@ + self.num_bids@ + self.num_asks@
            + self.num_free_sectors@ + self.free_stack_top@ + self.seats_dll_head@
            + self.seats_dll_tail@ + self.bids_dll_head@ + self.bids_dll_tail@ + self.asks_dll_head@
            + self.asks_dll_tail@ + self.base_mint@ + self.quote_mint@ + seq![self.market_bump]
            + self.num_events@ + self._padding@
    }

    fn load_unchecked(bytes: &[u8]) -> (r: Self) {
        let b = array_from_slice::<MARKET_HEADER_SIZE>(bytes);
        let r = MarketHeader {
            discriminant: read_bytes_at::<MARKET_HEADER_SIZE, 8>(&b, 0),
            num_seats: read_bytes_at::<MARKET_HEADER_SIZE, 4>(&b, 8),
            num_bids: read_bytes_at::<MARKET_HEADER_SIZE, 4>(&b, 12),
            num_asks: read_bytes_at::<MARKET_HEADER_SIZE, 4>(&b, 16),
            num_free_sectors: read_bytes_at::<MARKET_HEADER_SIZE, 4>(&b, 20),
            free_stack_top: read_bytes_at::<MARKET_HEADER_SIZE, 4>(&b, 24),
            seats_dll_head: read_bytes_at::<MARKET_HEADER_SIZE, 4>(&b, 28),
            seats_dll_tail: read_bytes_at::<MARKET_HEADER_SIZE, 4>(&b, 32),
            bids_dll_head: read_bytes_at::<MARKET_HEADER_SIZE, 4>(&b, 36),
            bids_dll_tail: read_bytes_at::<MARKET_HEADER_SIZE, 4>(&b, 40),
            asks_dll_head: read_bytes_at::<MARKET_HEADER_SIZE, 4>(&b, 44),
            asks_dll_tail: read_bytes_at::<MARKET_HEADER_SIZE, 4>(&b, 48),
            base_mint: read_bytes_at::<MARKET_HEADER_SIZE, 32>(&b, 52),
            quote_mint: read_bytes_at::<MARKET_HEADER_SIZE, 32>(&b, 84),
            market_bump: b[116],
            num_events: read_bytes_at::<MARKET_HEADER_SIZE, 8>(&b, 117),
            _padding: read_bytes_at::<MARKET_HEADER_SIZE, 3>(&b, 125),
        };
        assert(r.byte_repr() =~= bytes@);
        r
    }
}

/// The header's bytes lay out its fields in order, each little-endian: the discriminant at 0, the
/// seat, bid, ask and free counters at 8, 12, 16 and 20, the free stack top at 24, the seat list's
/// head and tail at 28 and 32, the bid list's at 36 and 40, the ask list's at 44 and 48, the base
/// and quote mints at 52 and 84, the bump at 116, the event count at 117, and three padding bytes.
/// So reading a header from bytes decodes each field from its own offset.
pub proof fn lemma_header_layout(h: MarketHeader)
    ensures
        ({
            let b = h.byte_repr();
            let v = h@;
            &&& b.len() == MARKET_HEADER_SIZE
            &&& v.discriminant == le_u64_at(b, 0)
            &&& v.num_seats == le_u32_at(b, 8)
            &&& v.num_bids == le_u32_at(b, 12)
            &&& v.num_asks == le_u32_at(b, 16)
            &&& v.num_free_sectors == le_u32_at(b, 20)
            &&& v.free_stack_top == le_u32_at(b, 24)
            &&& v.seats_dll_head == le_u32_at(b, 28)
            &&& v.seats_dll_tail == le_u32_at(b, 32)
            &&& v.bids_dll_head == le_u32_at(b, 36)
            &&& v.bids_dll_tail == le_u32_at(b, 40)
            &&& v.asks_dll_head == le_u32_at(b, 44)
            &&& v.asks_dll_tail == le_u32_at(b, 48)
            &&& v.base_mint == b.subrange(52, 84)
            &&& v.quote_mint == b.subrange(84, 116)
            &&& v.market_bump == b[116]
            &&& v.num_events == le_u64_at(b, 117)
        }),
{
    let b = h.byte_repr();
    assert(b.subrange(0, 8) =~= h.discriminant@);
    assert(b.subrange(8, 12) =~= h.num_seats@);
    assert(b.subrange(12, 16) =~= h.num_bids@);
    assert(b.subrange(16, 20) =~= h.num_asks@);
    assert(b.subrange(20, 24) =~= h.num_free_sectors@);
    assert(b.subrange(24, 28) =~= h.free_stack_top@);
    assert(b.subrange(28, 32) =~= h.seats_dll_head@);
    assert(b.subrange(32, 36) =~= h.seats_dll_tail@);
    assert(b.subrange(36, 40) =~= h.bids_dll_head@);
    assert(b.subrange(40, 44) =~= h.bids_dll_tail@);
    assert(b.subrange(44, 48) =~= h.asks_dll_head@);
    assert(b.subrange(48, 52) =~= h.asks_dll_tail@);
    assert(b.subrange(52, 84) =~= h.base_mint@);
    assert(b.subrange(84, 116) =~= h.quote_mint@);
    assert(b.subrange(117, 125) =~= h.num_events@);
    lemma_le_u64_at_array(b, 0, h.discriminant);
    lemma_le_u32_at_array(b, 8, h.num_seats);
    lemma_le_u32_at_array(b, 12, h.num_bids);
    lemma_le_u32_at_array(b, 16, h.num_asks);
    lemma_le_u32_at_array(b, 20, h.num_free_sectors);
    lemma_le_u32_at_array(b, 24, h.free_stack_top);
    lemma_le_u32_at_array(b, 28, h.seats_dll_head);
    lemma_le_u32_at_array(b, 32, h.seats_dll_tail);
    lemma_le_u32_at_array(b, 36, h.bids_dll_head);
    lemma_le_u32_at_array(b, 40, h.bids_dll_tail);
    lemma_le_u32_at_array(b, 44, h.asks_dll_head);
    lemma_le_u32_at_array(b, 48, h.asks_dll_tail);
    lemma_le_u64_at_array(b, 117, h.num_events);
}

} // verus!

//! See [`Order`] and [`OrdersCollection`].
use vstd::prelude::*;

use crate::error::{DropsetError, DropsetResult};
use crate::le_bytes::{
    array_from_slice, le_u32_at, le_u32_value, le_u64_at, le_u64_value, lemma_le_at_zero, read_bytes_at, u32_from_le,
    u32_to_le, u64_from_le, u64_to_le, write_at,
};
use crate::price::encoded_price::{EncodedPrice, LeEncodedPrice};
use crate::price::OrderInfo;
use crate::state::linked_list::{LinkedListHeaderOperations, LinkedListIter};
use crate::state::market::{ListKind, Market};
use crate::state::market_seat::{MarketSeat, SeatView};
use crate::state::transmutable::Transmutable;
use crate::state::sector::{
    AllBitPatternsValid, LeSectorIndex, Payload, Sector, SectorIndex, NIL, PAYLOAD_SIZE,
};
use crate::state::user_order_sectors::{OrderSectors, UserOrderSectors};
use crate::state::U64_SIZE;

verus! {

/// The number of padding bytes that fill an order up to the payload size.
pub const ORDER_PADDING: usize = 104;

/// A sector index returned by [`OrdersCollection::find_new_order_next_index`].
#[derive(Clone, Copy, Debug, PartialEq, Eq, Structural)]
pub struct NextSectorIndex(pub SectorIndex);

impl From<NextSectorIndex> for SectorIndex {
    #[inline(always)]
    fn from(value: NextSectorIndex) -> (r: SectorIndex) {
        value.0
    }
}

impl vstd::std_specs::convert::FromSpecImpl<NextSectorIndex> for SectorIndex {
    open spec fn obeys_from_spec() -> bool {
        true
    }

    open spec fn from_spec(value: NextSectorIndex) -> SectorIndex {
        value.0
    }
}

impl NextSectorIndex {
    /// The sector index.
    #[inline(always)]
    pub fn index(self) -> (r: SectorIndex)
        ensures
            r == self.0,
    {
        self.0
    }
}

/// A maker order in the order book.
#[derive(Clone, Copy, Debug, PartialEq, Eq)]
pub struct Order {
    /// The LE bytes of the order's encoded price.
    encoded_price: LeEncodedPrice,
    /// The sector index of the maker's seat, for O(1) indexing from an order to its seat.
    user_seat_index: LeSectorIndex,
    /// The u64 number of base atoms left to fill as LE bytes.
    base_remaining: [u8; U64_SIZE],
    /// The u64 number of quote atoms left to fill as LE bytes.
    quote_remaining: [u8; U64_SIZE],
    /// Padding to fill the rest of the sector payload.
    _padding: [u8; ORDER_PADDING],
}

/// The decoded contents of an [`Order`].
pub struct OrderView {
    pub price: u32,
    pub user_seat: SectorIndex,
    pub base_remaining: u64,
    pub quote_remaining: u64,
}

/// The order that the payload bytes `b` hold.
pub open spec fn order_view_of_bytes(b: Seq<u8>) -> OrderView {
    OrderView {
        price: le_u32_at(b, 0),
        user_seat: le_u32_at(b, 4),
        base_remaining: le_u64_at(b, 8),
        quote_remaining: le_u64_at(b, 16),
    }
}

impl View for Order {
    type V = OrderView;

    closed spec fn view(&self) -> OrderView {
        OrderView {
            price: le_u32_value(self.encoded_price.0),
            user_seat: le_u32_value(self.user_seat_index),
            base_remaining: le_u64_value(self.base_remaining),
            quote_remaining: le_u64_value(self.quote_remaining),
        }
    }
}

impl Order {
    /// The bytes of the order: price, seat index, base remaining, quote remaining, padding.
    pub closed spec fn bytes(&self) -> Seq<u8> {
        self.encoded_price.0@ + self.user_seat_index@ + self.base_remaining@
            + self.quote_remaining@ + self._padding@
    }

    /// The order's bytes decode to its view, and it has the payload size.
    pub proof fn lemma_bytes(&self)
        ensures
            self.bytes().len() == PAYLOAD_SIZE,
            order_view_of_bytes(self.bytes()) == self@,
    {
        let b = self.bytes();
        lemma_le_at_zero(self.encoded_price.0, self.base_remaining);
        lemma_le_at_zero(self.user_seat_index, self.quote_remaining);
        assert(b.subrange(0, 4) =~= self.encoded_price.0@);
        assert(b.subrange(4, 8) =~= self.user_seat_index@);
        assert(b.subrange(8, 16) =~= self.base_remaining@);
        assert(b.subrange(16, 24) =~= self.quote_remaining@);
        assert(le_u32_at(b, 0) == le_u32_at(self.encoded_price.0@, 0));
        assert(le_u32_at(b, 4) == le_u32_at(self.user_seat_index@, 0));
        assert(le_u32_at(b, 8) == le_u32_at(self.base_remaining@, 0));
        assert(le_u32_at(b, 12) == le_u32_at(self.base_remaining@, 4));
        assert(le_u32_at(b, 16) == le_u32_at(self.quote_remaining@, 0));
        assert(le_u32_at(b, 20) == le_u32_at(self.quote_remaining@, 4));
    }

    /// A new order from the order info and the maker's seat index; the padding is zero.
    #[inline(always)]
    pub fn new(order_info: OrderInfo, user_seat_index: SectorIndex) -> (r: Self)
        ensures
            r@ == (OrderView {
                price: order_info.encoded_price@,
                user_seat: user_seat_index,
                base_remaining: order_info.base_atoms,
                quote_remaining: order_info.quote_atoms,
            }),
            r.bytes().subrange(24, 128) == Seq::new(ORDER_PADDING as nat, |i: int| 0u8),
    {
        let r = Self {
            encoded_price: LeEncodedPrice::from_encoded(order_info.encoded_price),
            user_seat_index: u32_to_le(user_seat_index),
            base_remaining: u64_to_le(order_info.base_atoms),
            quote_remaining: u64_to_le(order_info.quote_atoms),
            _padding: [0u8; ORDER_PADDING],
        };
        assert(r.bytes().subrange(24, 128) =~= Seq::new(ORDER_PADDING as nat, |i: int| 0u8));
        r
    }

    /// The LE bytes of the order's encoded price.
    #[inline(always)]
    pub fn le_encoded_price(&self) -> (r: &LeEncodedPrice)
        ensures
            le_u32_value(r.0) == self@.price,
    {
        &self.encoded_price
    }

    /// The order's encoded price.
    #[inline(always)]
    pub fn encoded_price(&self) -> (r: EncodedPrice)
        ensures
            r@ == self@.price,
    {
        self.encoded_price.encoded_price()
    }

    /// The sector index of the maker's seat.
    #[inline(always)]
    pub fn user_seat(&self) -> (r: u32)
        ensures
            r == self@.user_seat,
    {
        u32_from_le(self.user_seat_index)
    }

    #[inline(always)]
    pub fn base_remaining(&self) -> (r: u64)
        ensures
            r == self@.base_remaining,
    {
        u64_from_le(self.base_remaining)
    }

    #[inline(always)]
    pub fn set_base_remaining(&mut self, amount: u64)
        ensures
            final(self)@ == (OrderView { base_remaining: amount, ..old(self)@ }),
            final(self).bytes().subrange(24, 128) == old(self).bytes().subrange(24, 128),
    {
        self.base_remaining = u64_to_le(amount);
        assert(self.bytes().subrange(24, 128) =~= old(self).bytes().subrange(24, 128));
    }

    #[inline(always)]
    pub fn quote_remaining(&self) -> (r: u64)
        ensures
            r == self@.quote_remaining,
    {
        u64_from_le(self.quote_remaining)
    }

    #[inline(always)]
    pub fn set_quote_remaining(&mut self, amount: u64)
        ensures
            final(self)@ == (OrderView { quote_remaining: amount, ..old(self)@ }),
            final(self).bytes().subrange(24, 128) == old(self).bytes().subrange(24, 128),
    {
        self.quote_remaining = u64_to_le(amount);
        assert(self.bytes().subrange(24, 128) =~= old(self).bytes().subrange(24, 128));
    }

    /// The order's bytes.
    #[inline(always)]
    pub fn as_bytes(&self) -> (r: [u8; PAYLOAD_SIZE])
        ensures
            r@ == self.bytes(),
    {
        let mut out = [0u8; PAYLOAD_SIZE];
        write_at(&mut out, 0, &self.encoded_price.0);
        write_at(&mut out, 4, &self.user_seat_index);
        write_at(&mut out, 8, &self.base_remaining);
        write_at(&mut out, 16, &self.quote_remaining);
        write_at(&mut out, 24, &self._padding);
        assert(out@ =~= self.bytes());
        out
    }
}

impl Order {
    /// The order that `bytes` hold.
    fn from_array(bytes: &[u8; PAYLOAD_SIZE]) -> (r: Self)
        ensures
            r.bytes() == bytes@,
    {
        let r = Order {
            encoded_price: LeEncodedPrice(read_bytes_at::<PAYLOAD_SIZE, 4>(bytes, 0)),
            user_seat_index: read_bytes_at::<PAYLOAD_SIZE, 4>(bytes, 4),
            base_remaining: read_bytes_at::<PAYLOAD_SIZE, 8>(bytes, 8),
            quote_remaining: read_bytes_at::<PAYLOAD_SIZE, 8>(bytes, 16),
            _padding: read_bytes_at::<PAYLOAD_SIZE, ORDER_PADDING>(bytes, 24),
        };
        assert(r.bytes() =~= bytes@);
        r
    }
}

impl Payload for Order {
    closed spec fn payload_bytes(&self) -> Seq<u8> {
        self.bytes()
    }

    fn load_from_payload(bytes: &[u8; PAYLOAD_SIZE]) -> (r: Self) {
        Order::from_array(bytes)
    }

    fn store_to_payload(&self) -> (r: [u8; PAYLOAD_SIZE]) {
        self.as_bytes()
    }
}

impl AllBitPatternsValid for Order {}

impl Order {
    /// The payload bytes of an order decode to its view.
    pub proof fn lemma_payload_view(&self)
        ensures
            self.byte_repr() == self.payload_bytes(),
            self.payload_bytes().len() == PAYLOAD_SIZE,
            order_view_of_bytes(self.payload_bytes()) == self@,
    {
        self.lemma_bytes();
    }
}

/// The two sides of the book.
#[derive(Clone, Copy, Debug, PartialEq, Eq, Structural)]
pub enum Side {
    Bid,
    Ask,
}

/// Whether an order at price `a` is filled before one at price `b` on `side`: lower asks and
/// higher bids come first.
pub open spec fn has_priority(side: Side, a: u32, b: u32) -> bool {
    match side {
        Side::Bid => a > b,
        Side::Ask => a < b,
    }
}


/// The other side of the book.
pub open spec fn opposite(side: Side) -> Side {
    match side {
        Side::Bid => Side::Ask,
        Side::Ask => Side::Bid,
    }
}

/// The list of the market's sectors that holds the orders of `side`.
pub open spec fn book_list(side: Side) -> ListKind {
    match side {
        Side::Bid => ListKind::Bids,
        Side::Ask => ListKind::Asks,
    }
}

/// The price that no price outranks on `side`: zero for asks and the largest encoded price for
/// bids.
pub open spec fn highest_priority_price_of(side: Side) -> u32 {
    match side {
        Side::Bid => 0xFFFF_FFFFu32,
        Side::Ask => 0u32,
    }
}

/// Whether a post-only order at price `p` on `side` would fill at once against the best price
/// `best` of the other side: an ask at or below the best bid, or a bid at or above the best ask.
pub open spec fn crosses(side: Side, p: u32, best: u32) -> bool {
    match side {
        Side::Bid => p >= best,
        Side::Ask => p <= best,
    }
}

/// The asset an order on `side` holds as collateral: base for asks, quote for bids.
pub open spec fn collateral_of(side: Side, o: OrderView) -> u64 {
    match side {
        Side::Bid => o.quote_remaining,
        Side::Ask => o.base_remaining,
    }
}

/// The amount of a seat's collateral asset for orders on `side` that the seat has available.
pub open spec fn seat_collateral(side: Side, v: SeatView) -> u64 {
    match side {
        Side::Bid => v.quote_available,
        Side::Ask => v.base_available,
    }
}

/// The seat `v` with its available collateral for orders on `side` set to `amount`.
pub open spec fn with_seat_collateral(side: Side, v: SeatView, amount: u64) -> SeatView {
    match side {
        Side::Bid => SeatView { quote_available: amount, ..v },
        Side::Ask => SeatView { base_available: amount, ..v },
    }
}

/// A user's order sectors for `side`.
pub open spec fn order_sectors_of(side: Side, u: UserOrderSectors) -> OrderSectors {
    match side {
        Side::Bid => u.bids,
        Side::Ask => u.asks,
    }
}

/// `u` with its order sectors for `side` replaced by `o`.
pub open spec fn with_order_sectors(side: Side, u: UserOrderSectors, o: OrderSectors) -> UserOrderSectors {
    match side {
        Side::Bid => UserOrderSectors { bids: o, ..u },
        Side::Ask => UserOrderSectors { asks: o, ..u },
    }
}

/// The price of the order held in sector `i` of `s`.
pub open spec fn order_price_at(s: Seq<Sector>, i: SectorIndex) -> u32 {
    order_view_of_bytes(s[i as int]@.payload).price
}

/// The prices of the orders held in the sectors `l` of `s`, in list order.
pub open spec fn prices_of(s: Seq<Sector>, l: Seq<SectorIndex>) -> Seq<u32> {
    Seq::new(l.len(), |k: int| order_price_at(s, l[k]))
}

/// Where a new order at `price` goes among orders at `prices` on `side`: before the first of them
/// over which it has price priority, or `None` when it goes after all of them.
pub open spec fn insertion_point(side: Side, prices: Seq<u32>, price: u32) -> Option<int>
    decreases prices.len(),
{
    if prices.len() == 0 {
        None
    } else if has_priority(side, price, prices[0]) {
        Some(0)
    } else {
        match insertion_point(side, prices.drop_first(), price) {
            Some(k) => Some(k + 1),
            None => None,
        }
    }
}

/// The insertion point is the first position at which the new order has priority.
pub proof fn lemma_insertion_point(side: Side, prices: Seq<u32>, price: u32)
    ensures
        insertion_point(side, prices, price) matches Some(j) ==> {
            &&& 0 <= j < prices.len()
            &&& has_priority(side, price, prices[j])
            &&& forall|k: int| 0 <= k < j ==> !has_priority(side, price, #[trigger] prices[k])
        },
        insertion_point(side, prices, price) is None ==> forall|k: int|
            0 <= k < prices.len() ==> !has_priority(side, price, #[trigger] prices[k]),
    decreases prices.len(),
{
    if prices.len() > 0 && !has_priority(side, price, prices[0]) {
        let rest = prices.drop_first();
        lemma_insertion_point(side, rest, price);
        assert forall|k: int| 1 <= k < prices.len() implies prices[k] == rest[k - 1] by {}
    }
}

/// The orders at `prices` are in priority order on `side`: no order has price priority over an
/// order before it.
pub open spec fn priority_sorted(side: Side, prices: Seq<u32>) -> bool {
    forall|i: int, j: int|
        0 <= i < j < prices.len() ==> !has_priority(side, #[trigger] prices[j], #[trigger] prices[i])
}

/// The position that a new order at `price` takes among orders at `prices` on `side`.
pub open spec fn insertion_position(side: Side, prices: Seq<u32>, price: u32) -> int {
    match insertion_point(side, prices, price) {
        Some(j) => j,
        None => prices.len() as int,
    }
}

/// Placing a new order at its insertion point keeps a book in priority order, and the new order
/// comes after every order at its own price: among equal prices, earlier orders are filled first.
pub proof fn lemma_insertion_keeps_priority_order(side: Side, prices: Seq<u32>, price: u32)
    requires
        priority_sorted(side, prices),
    ensures
        priority_sorted(
            side,
            prices.insert(insertion_position(side, prices, price), price),
        ),
        forall|k: int|
            0 <= k < prices.len() && prices[k] == price ==> k < insertion_position(
                side,
                prices,
                price,
            ),
{
    lemma_insertion_point(side, prices, price);
    let j = insertion_position(side, prices, price);
    let q = prices.insert(j, price);
    assert forall|a: int, b: int| 0 <= a < b < q.len() implies !has_priority(
        side,
        #[trigger] q[b],
        #[trigger] q[a],
    ) by {
        if b < j {
            assert(q[a] == prices[a] && q[b] == prices[b]);
        } else if b == j {
            assert(q[a] == prices[a]);
        } else if a == j {
            assert(q[b] == prices[b - 1]);
            assert(!has_priority(side, prices[b - 1], prices[j]));
        } else if a < j {
            assert(q[a] == prices[a] && q[b] == prices[b - 1]);
        } else {
            assert(q[a] == prices[a - 1] && q[b] == prices[b - 1]);
        }
    }
    assert forall|k: int| 0 <= k < prices.len() && prices[k] == price implies k < j by {
        if k >= j {
            if k > j {
                assert(!has_priority(side, prices[k], prices[j]));
            }
        }
    }
}

/// The `next` index of a new order at `price` inserted among the orders in sectors `l` of `s` on
/// `side`, paired with the index that follows it (`NIL` for none).
pub open spec fn next_index_for(side: Side, s: Seq<Sector>, l: Seq<SectorIndex>, price: u32) -> (
    SectorIndex,
    SectorIndex,
) {
    match insertion_point(side, prices_of(s, l), price) {
        Some(j) => (l[j], if j + 1 < l.len() { l[j + 1] } else { NIL }),
        None => (NIL, NIL),
    }
}

/// Placing a new order where [`OrdersCollection::find_new_order_next_index`] points keeps a book
/// of orders in priority order.
///
/// Let `l` be a side's list of order sectors in `s`, in priority order. The search returns the
/// sector the new order goes before, or `NIL` to append it; that is the sector at the insertion
/// position of the new price. Inserting the new order's sector `n` there (as `insert_before` or
/// `push_back` do, leaving the other orders' payloads as they were and writing the new order into
/// `n`) gives a list whose prices are again in priority order, with the new order after every
/// order at its price.
pub proof fn lemma_placing_keeps_book_sorted(
    side: Side,
    s: Seq<Sector>,
    l: Seq<SectorIndex>,
    s2: Seq<Sector>,
    n: SectorIndex,
    price: u32,
)
    requires
        priority_sorted(side, prices_of(s, l)),
        l.no_duplicates(),
        forall|i: int| 0 <= i < l.len() ==> #[trigger] l[i] != NIL,
        forall|i: int| 0 <= i < l.len() ==> (#[trigger] s2[l[i] as int])@.payload == s[l[i] as int]@.payload,
        order_price_at(s2, n) == price,
    ensures
        ({
            let pos = insertion_position(side, prices_of(s, l), price);
            let next = next_index_for(side, s, l, price).0;
            &&& next == NIL ==> pos == l.len()
            &&& next != NIL ==> l.index_of(next) == pos
            &&& priority_sorted(side, prices_of(s2, l.insert(pos, n)))
            &&& forall|k: int|
                0 <= k < l.len() && prices_of(s, l)[k] == price ==> k < pos
        }),
{
    let ps = prices_of(s, l);
    let pos = insertion_position(side, ps, price);
    lemma_insertion_point(side, ps, price);
    lemma_insertion_keeps_priority_order(side, ps, price);
    let l2 = l.insert(pos, n);
    assert(prices_of(s2, l2) =~= ps.insert(pos, price)) by {
        assert forall|k: int| 0 <= k < l2.len() implies prices_of(s2, l2)[k] == ps.insert(
            pos,
            price,
        )[k] by {
            if k < pos {
                assert(l2[k] == l[k]);
            } else if k > pos {
                assert(l2[k] == l[k - 1]);
            }
        }
    }
    if next_index_for(side, s, l, price).0 != NIL {
        let next = next_index_for(side, s, l, price).0;
        assert(next == l[pos]);
        assert(l.contains(next));
        let q = l.index_of(next);
        assert(l[q] == next);
    }
}

/// Whether price `a` has priority over price `b` on `side`.
pub(crate) fn price_has_priority(side: Side, a: &EncodedPrice, b: &EncodedPrice) -> (r: bool)
    ensures
        r == has_priority(side, a@, b@),
{
    match side {
        Side::Bid => a.has_higher_bid_priority(b),
        Side::Ask => a.has_higher_ask_priority(b),
    }
}

/// Walks the list from the iterator's position to the first order over which `new_order` has
/// price priority on `side`, and returns that order's index and the iterator's position after it.
pub(crate) fn find_next_index_on(side: Side, list_iterator: LinkedListIter<'_>, new_order: &Order) -> (r: (
    NextSectorIndex,
    SectorIndex,
))
    requires
        list_iterator.valid(),
    ensures
        (r.0.0, r.1) == next_index_for(
            side,
            list_iterator.sectors@,
            list_iterator.remaining(),
            new_order@.price,
        ),
{
    let mut it = list_iterator;
    let new_price = new_order.encoded_price();
    let ghost s = list_iterator.sectors@;
    let ghost l0 = list_iterator.remaining();
    let ghost ps = prices_of(s, l0);
    let ghost mut c: int = 0;
    proof {
        lemma_insertion_point(side, ps, new_price@);
        assert(l0.subrange(0, l0.len() as int) =~= l0);
    }
    loop
        invariant
            it.valid(),
            it.sectors@ == s,
            s == list_iterator.sectors@,
            l0 == list_iterator.remaining(),
            0 <= c <= l0.len(),
            it.remaining() == l0.subrange(c, l0.len() as int),
            ps == prices_of(s, l0),
            new_price@ == new_order@.price,
            forall|k: int| 0 <= k < c ==> !has_priority(side, new_price@, #[trigger] ps[k]),
            insertion_point(side, ps, new_price@) matches Some(j) ==> {
                &&& 0 <= j < ps.len()
                &&& has_priority(side, new_price@, ps[j])
                &&& forall|k: int| 0 <= k < j ==> !has_priority(side, new_price@, #[trigger] ps[k])
            },
            insertion_point(side, ps, new_price@) is None ==> forall|k: int|
                0 <= k < ps.len() ==> !has_priority(side, new_price@, #[trigger] ps[k]),
        decreases it.remaining().len(),
    {
        proof {
            it.lemma_remaining();
        }
        let ghost rem = it.remaining();
        match it.next() {
            None => {
                proof {
                    assert(rem.len() == 0);
                    assert(c == l0.len());
                    assert(insertion_point(side, ps, new_price@) is None);
                    it.lemma_remaining();
                }
                return (NextSectorIndex(NIL), it.curr);
            },
            Some((index, sector)) => {
                let order = sector.load_payload::<Order>();
                proof {
                    order.lemma_payload_view();
                    assert(rem[0] == l0[c]);
                    assert(index == l0[c]);
                    assert(ps[c] == order_price_at(s, l0[c]));
                }
                if price_has_priority(side, &new_price, &order.encoded_price()) {
                    proof {
                        assert(insertion_point(side, ps, new_price@) == Some(c));
                        it.lemma_remaining();
                        let rem2 = it.remaining();
                        assert(rem2 == rem.drop_first());
                        if c + 1 < l0.len() {
                            assert(rem2[0] == l0[c + 1]);
                        }
                    }
                    return (NextSectorIndex(index), it.curr);
                }
                proof {
                    assert(it.remaining() =~= l0.subrange(c + 1, l0.len() as int));
                    c = c + 1;
                }
            },
        }
    }
}

/// Checks a post-only order at `order`'s price on `side` against the first order of the other
/// side's list, which `first` iterates from.
pub(crate) fn crossing_check(side: Side, order: &Order, first: LinkedListIter<'_>) -> (r: DropsetResult)
    requires
        first.curr == NIL || (first.curr as int) < first.sectors@.len(),
    ensures
        r == (if first.curr != NIL && crosses(side, order@.price, order_price_at(first.sectors@, first.curr)) {
            Err::<(), DropsetError>(DropsetError::PostOnlyWouldImmediatelyFill)
        } else {
            Ok(())
        }),
{
    let mut it = first;
    let price = order.encoded_price();
    match it.next() {
        Some((_idx, sector)) => {
            let best = sector.load_payload::<Order>();
            proof {
                best.lemma_payload_view();
            }
            let best_price = best.encoded_price();
            let ok = match side {
                Side::Ask => price.get() > best_price.get(),
                Side::Bid => price.get() < best_price.get(),
            };
            if ok {
                Ok(())
            } else {
                Err(DropsetError::PostOnlyWouldImmediatelyFill)
            }
        },
        None => Ok(()),
    }
}

/// The orders of one side of the book, kept in a list sorted by price-time priority.
pub trait OrdersCollection: LinkedListHeaderOperations {
    /// Which side of the book the collection holds.
    spec fn side() -> Side;

    /// The highest possible price in terms of price priority for the collection: no price has
    /// priority over it. It is not necessarily a valid order price; it is for comparisons.
    fn highest_priority_price() -> (r: EncodedPrice)
        ensures
            r@ == highest_priority_price_of(Self::side()),
            forall|p: u32| !has_priority(Self::side(), p, r@),
    ;

    /// Finds where a new order goes: returns the index of the sector that should follow the new
    /// order's sector (`NIL` to append it at the end), and the iterator's position after that
    /// sector, as a hint for a later search among orders sorted after this one.
    ///
    /// A new order goes after every order at its own price (time priority), before the first
    /// order over which it has price priority.
    fn find_new_order_next_index(list_iterator: LinkedListIter<'_>, new_order: &Order) -> (r: (
        NextSectorIndex,
        SectorIndex,
    ))
        requires
            list_iterator.valid(),
        ensures
            (r.0.0, r.1) == next_index_for(
                Self::side(),
                list_iterator.sectors@,
                list_iterator.remaining(),
                new_order@.price,
            ),
    ;

    /// A post-only order must not fill at once: it fails if it would cross the best order of the
    /// other side.
    fn post_only_crossing_check(order: &Order, market: &Market) -> (r: DropsetResult)
        requires
            ({
                let h = market.header@.head_of(book_list(opposite(Self::side())));
                h == NIL || (h as int) < market.sectors@.len()
            }),
        ensures
            ({
                let h = market.header@.head_of(book_list(opposite(Self::side())));
                r == (if h != NIL && crosses(
                    Self::side(),
                    order@.price,
                    order_price_at(market.sectors@, h),
                ) {
                    Err::<(), DropsetError>(DropsetError::PostOnlyWouldImmediatelyFill)
                } else {
                    Ok(())
                })
            }),
    ;

    /// The asset that the order holds as collateral.
    fn get_order_collateral(order: &Order) -> (r: u64)
        ensures
            r == collateral_of(Self::side(), order@),
    ;

    /// Tries to take `amount` of the collateral asset out of the seat's available balance.
    fn try_decrement_seat_collateral_available(seat: &mut MarketSeat, amount: u64) -> (r:
        DropsetResult)
        ensures
            amount <= seat_collateral(Self::side(), old(seat)@) ==> r is Ok && final(seat)@
                == with_seat_collateral(
                Self::side(),
                old(seat)@,
                (seat_collateral(Self::side(), old(seat)@) - amount) as u64,
            ),
            amount > seat_collateral(Self::side(), old(seat)@) ==> r == Err::<(), DropsetError>(
                DropsetError::InsufficientUserBalance,
            ) && final(seat)@ == old(seat)@,
    ;

    /// Tries to add `amount` of the collateral asset to the seat's available balance.
    fn try_increment_seat_collateral_available(seat: &mut MarketSeat, amount: u64) -> (r:
        DropsetResult)
        ensures
            seat_collateral(Self::side(), old(seat)@) + amount <= u64::MAX ==> r is Ok
                && final(seat)@ == with_seat_collateral(
                Self::side(),
                old(seat)@,
                (seat_collateral(Self::side(), old(seat)@) + amount) as u64,
            ),
            seat_collateral(Self::side(), old(seat)@) + amount > u64::MAX ==> r == Err::<
                (),
                DropsetError,
            >(DropsetError::ArithmeticOverflow) && final(seat)@ == old(seat)@,
    ;

    /// The user's order sectors for the collection's side.
    fn get_order_sectors(user_order_sectors: &UserOrderSectors) -> (r: &OrderSectors)
        ensures
            *r == order_sectors_of(Self::side(), *user_order_sectors),
    ;

    /// The user's order sectors for the collection's side, to modify.
    fn get_mut_order_sectors(user_order_sectors: &mut UserOrderSectors) -> (r: &mut OrderSectors)
        ensures
            *r == order_sectors_of(Self::side(), *old(user_order_sectors)),
            *final(user_order_sectors) == with_order_sectors(
                Self::side(),
                *old(user_order_sectors),
                *final(r),
            ),
    ;

    /// Whether price `a` has priority over price `b` in the collection.
    fn has_higher_price_priority(a: &EncodedPrice, b: &EncodedPrice) -> (r: bool)
        ensures
            r == has_priority(Self::side(), a@, b@),
    ;
}

impl Order {
    /// The asset that the order holds as collateral in collection `T`.
    #[inline(always)]
    pub fn collateral_amount<T: OrdersCollection>(&self) -> (r: u64)
        ensures
            r == collateral_of(T::side(), self@),
    {
        T::get_order_collateral(self)
    }
}

impl Transmutable for Order {
    open spec fn byte_len() -> nat {
        128 as nat
    }

    fn len() -> (r: usize) {
        128
    }

    closed spec fn byte_repr(&self) -> Seq<u8> {
        self.bytes()
    }

    fn load_unchecked(bytes: &[u8]) -> (r: Self) {
        Order::from_array(&array_from_slice::<PAYLOAD_SIZE>(bytes))
    }
}

} // verus!

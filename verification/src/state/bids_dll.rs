//! The doubly linked list of bid sectors, whose payloads are [`Order`]s.
use vstd::prelude::*;

use crate::error::DropsetResult;
use crate::price::encoded_price::EncodedPrice;
use crate::state::linked_list::{LinkedList, LinkedListHeaderOperations, LinkedListIter};
use crate::state::market::{ListKind, Market};
use crate::state::market_header::MarketHeader;
use crate::state::market_seat::MarketSeat;
use crate::state::order::{
    crossing_check, find_next_index_on, NextSectorIndex, Order, OrdersCollection, Side,
};
use crate::state::sector::SectorIndex;
use crate::state::user_order_sectors::{OrderSectors, UserOrderSectors};

verus! {

/// The bids: sorted by descending price, so the highest bid is the top of the book.
pub struct BidOrders;

impl OrdersCollection for BidOrders {
    open spec fn side() -> Side {
        Side::Bid
    }

    fn highest_priority_price() -> (r: EncodedPrice) {
        EncodedPrice::infinity()
    }

    /// Finds the first bid with a price less than the new bid's.
    #[inline(always)]
    fn find_new_order_next_index(list_iterator: LinkedListIter<'_>, new_order: &Order) -> (r: (
        NextSectorIndex,
        SectorIndex,
    )) {
        find_next_index_on(Side::Bid, list_iterator, new_order)
    }

    /// A post-only bid may be posted only below the lowest ask, or when there are no asks.
    #[inline(always)]
    fn post_only_crossing_check(order: &Order, market: &Market) -> (r: DropsetResult) {
        crossing_check(Side::Bid, order, market.iter_asks())
    }

    /// Bids hold quote as collateral.
    #[inline(always)]
    fn get_order_collateral(order: &Order) -> (r: u64) {
        order.quote_remaining()
    }

    #[inline(always)]
    fn try_decrement_seat_collateral_available(seat: &mut MarketSeat, amount: u64) -> (r:
        DropsetResult) {
        seat.try_decrement_quote_available(amount)
    }

    #[inline(always)]
    fn try_increment_seat_collateral_available(seat: &mut MarketSeat, amount: u64) -> (r:
        DropsetResult) {
        seat.try_increment_quote_available(amount)
    }

    #[inline(always)]
    fn get_order_sectors(user_order_sectors: &UserOrderSectors) -> (r: &OrderSectors) {
        &user_order_sectors.bids
    }

    #[inline(always)]
    fn get_mut_order_sectors(user_order_sectors: &mut UserOrderSectors) -> (r: &mut OrderSectors) {
        &mut user_order_sectors.bids
    }

    /// Higher bids are filled first.
    #[inline(always)]
    fn has_higher_price_priority(a: &EncodedPrice, b: &EncodedPrice) -> (r: bool) {
        a.has_higher_bid_priority(b)
    }
}

/// The sorted list of bids sectors.
pub type BidOrdersLinkedList = LinkedList<BidOrders>;

/// The header operations of the bids list.
impl LinkedListHeaderOperations for BidOrders {
    open spec fn kind() -> ListKind {
        ListKind::Bids
    }

    #[inline(always)]
    fn head(header: &MarketHeader) -> (r: SectorIndex) {
        header.bids_dll_head()
    }

    #[inline(always)]
    fn set_head(header: &mut MarketHeader, new_index: SectorIndex) {
        header.set_bids_dll_head(new_index);
    }

    #[inline(always)]
    fn tail(header: &MarketHeader) -> (r: SectorIndex) {
        header.bids_dll_tail()
    }

    #[inline(always)]
    fn set_tail(header: &mut MarketHeader, new_index: SectorIndex) {
        header.set_bids_dll_tail(new_index);
    }

    #[inline(always)]
    fn increment_num_elements(header: &mut MarketHeader) {
        header.increment_num_bids();
    }

    #[inline(always)]
    fn decrement_num_elements(header: &mut MarketHeader) {
        header.decrement_num_bids();
    }
}

} // verus!

//! The doubly linked list of ask sectors, whose payloads are [`Order`]s.
use vstd::prelude::*;

use crate::error::DropsetResult;
use crate::price::encoded_price::EncodedPrice;
use crate::state::linked_list::{LinkedList, LinkedListHeaderOperations, LinkedListIter};
use crate::state::market::{ListKind, Market};
use crate::state::market_header::MarketHeader;
use crate::state::market_seat::MarketSeat;
use crate::state::order::{
    crossing_check, find_next_index_on, NextSectorIndex, Order, OrdersCollection, Side,
};
use crate::state::sector::SectorIndex;
use crate::state::user_order_sectors::{OrderSectors, UserOrderSectors};

verus! {

/// The asks: sorted by ascending price, so the lowest ask is the top of the book.
pub struct AskOrders;

impl OrdersCollection for AskOrders {
    open spec fn side() -> Side {
        Side::Ask
    }

    fn highest_priority_price() -> (r: EncodedPrice) {
        EncodedPrice::zero()
    }

    /// Finds the first ask with a price greater than the new ask's.
    #[inline(always)]
    fn find_new_order_next_index(list_iterator: LinkedListIter<'_>, new_order: &Order) -> (r: (
        NextSectorIndex,
        SectorIndex,
    )) {
        find_next_index_on(Side::Ask, list_iterator, new_order)
    }

    /// A post-only ask may be posted only above the highest bid, or when there are no bids.
    #[inline(always)]
    fn post_only_crossing_check(order: &Order, market: &Market) -> (r: DropsetResult) {
        crossing_check(Side::Ask, order, market.iter_bids())
    }

    /// Asks hold base as collateral.
    #[inline(always)]
    fn get_order_collateral(order: &Order) -> (r: u64) {
        order.base_remaining()
    }

    #[inline(always)]
    fn try_decrement_seat_collateral_available(seat: &mut MarketSeat, amount: u64) -> (r:
        DropsetResult) {
        seat.try_decrement_base_available(amount)
    }

    #[inline(always)]
    fn try_increment_seat_collateral_available(seat: &mut MarketSeat, amount: u64) -> (r:
        DropsetResult) {
        seat.try_increment_base_available(amount)
    }

    #[inline(always)]
    fn get_order_sectors(user_order_sectors: &UserOrderSectors) -> (r: &OrderSectors) {
        &user_order_sectors.asks
    }

    #[inline(always)]
    fn get_mut_order_sectors(user_order_sectors: &mut UserOrderSectors) -> (r: &mut OrderSectors) {
        &mut user_order_sectors.asks
    }

    /// Lower asks are filled first.
    #[inline(always)]
    fn has_higher_price_priority(a: &EncodedPrice, b: &EncodedPrice) -> (r: bool) {
        a.has_higher_ask_priority(b)
    }
}

/// The sorted list of asks sectors.
pub type AskOrdersLinkedList = LinkedList<AskOrders>;

/// The header operations of the asks list.
impl LinkedListHeaderOperations for AskOrders {
    open spec fn kind() -> ListKind {
        ListKind::Asks
    }

    #[inline(always)]
    fn head(header: &MarketHeader) -> (r: SectorIndex) {
        header.asks_dll_head()
    }

    #[inline(always)]
    fn set_head(header: &mut MarketHeader, new_index: SectorIndex) {
        header.set_asks_dll_head(new_index);
    }

    #[inline(always)]
    fn tail(header: &MarketHeader) -> (r: SectorIndex) {
        header.asks_dll_tail()
    }

    #[inline(always)]
    fn set_tail(header: &mut MarketHeader, new_index: SectorIndex) {
        header.set_asks_dll_tail(new_index);
    }

    #[inline(always)]
    fn increment_num_elements(header: &mut MarketHeader) {
        header.increment_num_asks();
    }

    #[inline(always)]
    fn decrement_num_elements(header: &mut MarketHeader) {
        header.decrement_num_asks();
    }
}

} // verus!

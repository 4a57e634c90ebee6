//! The doubly linked list of seat sectors, whose payloads are
//! [`MarketSeat`](crate::state::market_seat::MarketSeat)s.
use vstd::prelude::*;

use crate::state::linked_list::{LinkedList, LinkedListHeaderOperations};
use crate::state::market::ListKind;
use crate::state::market_header::MarketHeader;
use crate::state::sector::SectorIndex;

verus! {

/// The market's seats.
pub struct Seats;

/// The list of seat sectors.
pub type SeatsLinkedList = LinkedList<Seats>;

/// The header operations of the seats list.
impl LinkedListHeaderOperations for Seats {
    open spec fn kind() -> ListKind {
        ListKind::Seats
    }

    #[inline(always)]
    fn head(header: &MarketHeader) -> (r: SectorIndex) {
        header.seats_dll_head()
    }

    #[inline(always)]
    fn set_head(header: &mut MarketHeader, new_index: SectorIndex) {
        header.set_seats_dll_head(new_index);
    }

    #[inline(always)]
    fn tail(header: &MarketHeader) -> (r: SectorIndex) {
        header.seats_dll_tail()
    }

    #[inline(always)]
    fn set_tail(header: &mut MarketHeader, new_index: SectorIndex) {
        header.set_seats_dll_tail(new_index);
    }

    #[inline(always)]
    fn increment_num_elements(header: &mut MarketHeader) {
        header.increment_num_seats();
    }

    #[inline(always)]
    fn decrement_num_elements(header: &mut MarketHeader) {
        header.decrement_num_seats();
    }
}

} // verus!

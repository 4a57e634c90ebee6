use dropset::error::DropsetError;
use dropset::price::encoded_price::EncodedPrice;
use dropset::price::OrderInfo;
use dropset::state::asks_dll::{AskOrders, AskOrdersLinkedList};
use dropset::state::bids_dll::{BidOrders, BidOrdersLinkedList};
use dropset::state::free_stack::{convert_zeroed_sectors_to_free, Stack};
use dropset::state::linked_list::LinkedList;
use dropset::state::market::Market;
use dropset::state::market_header::{MarketHeader, MARKET_HEADER_SIZE};
use dropset::state::market_seat::MarketSeat;
use dropset::state::order::{Order, OrdersCollection};
use dropset::state::sector::{Sector, SectorIndex, NIL, SECTOR_SIZE};
use dropset::state::transmutable::Transmutable;

fn empty_market(n: u32) -> Market {
    let mut header = MarketHeader::init(202, &[1u8; 32], &[2u8; 32]);
    let mut sectors: Vec<Sector> = (0..n).map(|_| Sector::zeroed()).collect();
    convert_zeroed_sectors_to_free(&mut header, &mut sectors, 0, n);
    Market { header, sectors }
}

fn order(price: u32, seat: SectorIndex) -> Order {
    Order::new(OrderInfo { encoded_price: EncodedPrice::from_u32(price), base_atoms: 10, quote_atoms: 20 }, seat)
}

/// Inserts `o` where the collection's search says it goes.
fn place<T: OrdersCollection>(list: &mut LinkedList<T>, o: &Order) -> SectorIndex {
    let (next, _) = T::find_new_order_next_index(list.iter(), o);
    if next.index() == NIL {
        list.push_back(&o.as_bytes()).unwrap()
    } else {
        list.insert_before(next.index(), &o.as_bytes()).unwrap()
    }
}

/// The (price, seat) of every order in the list, in list order.
fn book<T: OrdersCollection>(list: &LinkedList<T>) -> Vec<(u32, u32)> {
    let mut it = list.iter();
    let mut out = vec![];
    while let Some((_, sector)) = it.next() {
        let o = sector.load_payload::<Order>();
        out.push((o.encoded_price().as_u32(), o.user_seat()));
    }
    out
}

#[test]
fn free_stack_after_conversion() {
    let market = empty_market(4);
    assert_eq!(market.header.num_free_sectors(), 4);
    assert_eq!(market.header.free_stack_top(), 0);
    assert_eq!(market.get_capacity(), 4);
    assert!(market.is_initialized());
    let mut stack: Stack = market.free_stack();
    assert_eq!(stack.pop_free_sector(), Ok(0));
    assert_eq!(stack.pop_free_sector(), Ok(1));
    assert_eq!(stack.top(), 2);
    assert_eq!(stack.pop_free_sector(), Ok(2));
    assert_eq!(stack.pop_free_sector(), Ok(3));
    assert_eq!(stack.pop_free_sector(), Err(DropsetError::NoFreeSectorsRemaining));
    let (header, _) = stack.into_parts();
    assert_eq!(header.num_free_sectors(), 0);
}

#[test]
fn asks_sorted_ascending_with_time_priority() {
    let market = empty_market(6);
    let mut asks: AskOrdersLinkedList = LinkedList::new_from_parts(market.header, market.sectors);
    for (price, seat) in [(500, 1), (300, 2), (500, 3), (100, 4), (300, 5)] {
        place(&mut asks, &order(price, seat));
    }
    assert_eq!(book(&asks), vec![(100, 4), (300, 2), (300, 5), (500, 1), (500, 3)]);
    assert_eq!(asks.header.num_asks(), 5);
    assert_eq!(asks.header.num_free_sectors(), 1);
}

#[test]
fn bids_sorted_descending_with_time_priority() {
    let market = empty_market(6);
    let mut bids: BidOrdersLinkedList = LinkedList::new_from_parts(market.header, market.sectors);
    for (price, seat) in [(500, 1), (300, 2), (500, 3), (100, 4), (700, 5)] {
        place(&mut bids, &order(price, seat));
    }
    assert_eq!(book(&bids), vec![(700, 5), (500, 1), (500, 3), (300, 2), (100, 4)]);
    assert_eq!(bids.header.num_bids(), 5);
}

#[test]
fn find_next_index_returns_hint() {
    let market = empty_market(4);
    let mut asks: AskOrdersLinkedList = LinkedList::new_from_parts(market.header, market.sectors);
    let a = place(&mut asks, &order(100, 1));
    let b = place(&mut asks, &order(200, 2));
    let c = place(&mut asks, &order(300, 3));
    let (next, after) = AskOrders::find_new_order_next_index(asks.iter(), &order(150, 9));
    assert_eq!(next.index(), b);
    assert_eq!(after, c);
    let (next, after) = AskOrders::find_new_order_next_index(asks.iter(), &order(300, 9));
    assert_eq!(next.index(), NIL);
    assert_eq!(after, NIL);
    let (next, after) = AskOrders::find_new_order_next_index(asks.iter(), &order(50, 9));
    assert_eq!(next.index(), a);
    assert_eq!(after, b);
    let (next, _) = AskOrders::find_new_order_next_index(asks.iter_from(c), &order(250, 9));
    assert_eq!(next.index(), c);
}

#[test]
fn remove_and_reuse_sectors() {
    let market = empty_market(3);
    let mut bids: BidOrdersLinkedList = LinkedList::new_from_parts(market.header, market.sectors);
    let a = place(&mut bids, &order(300, 1));
    let b = place(&mut bids, &order(200, 2));
    let c = place(&mut bids, &order(100, 3));
    assert_eq!(bids.push_front(&order(400, 4).as_bytes()), Err(DropsetError::NoFreeSectorsRemaining));
    bids.remove_at(b);
    assert_eq!(book(&bids), vec![(300, 1), (100, 3)]);
    assert_eq!(bids.header.num_bids(), 2);
    let d = place(&mut bids, &order(250, 5));
    assert_eq!(d, b);
    assert_eq!(book(&bids), vec![(300, 1), (250, 5), (100, 3)]);
    bids.remove_at(a);
    bids.remove_at(c);
    assert_eq!(book(&bids), vec![(250, 5)]);
    assert_eq!(bids.header.bids_dll_head(), d);
    assert_eq!(bids.header.bids_dll_tail(), d);
}

#[test]
fn push_front_and_back_of_seats() {
    let market = empty_market(3);
    let mut seats = market.seat_list();
    let s1 = MarketSeat::new([1u8; 32], 1, 1);
    let s2 = MarketSeat::new([2u8; 32], 2, 2);
    let s3 = MarketSeat::new([3u8; 32], 3, 3);
    let i2 = seats.push_back(&s2.as_array()).unwrap();
    let i1 = seats.push_front(&s1.as_array()).unwrap();
    let i3 = seats.push_back(&s3.as_array()).unwrap();
    let mut it = seats.iter();
    let mut got = vec![];
    while let Some((i, sector)) = it.next() {
        got.push((i, sector.load_payload::<MarketSeat>()));
    }
    assert_eq!(got, vec![(i1, s1), (i2, s2), (i3, s3)]);
    assert_eq!(seats.header.num_seats(), 3);
}

#[test]
fn post_only_checks() {
    let market = empty_market(4);
    let mut bids: BidOrdersLinkedList = LinkedList::new_from_parts(market.header, market.sectors);
    place(&mut bids, &order(500, 1));
    place(&mut bids, &order(400, 2));
    let (header, sectors) = bids.into_parts();
    let mut asks: AskOrdersLinkedList = LinkedList::new_from_parts(header, sectors);
    place(&mut asks, &order(700, 3));
    let (header, sectors) = asks.into_parts();
    let market = Market { header, sectors };

    assert_eq!(AskOrders::post_only_crossing_check(&order(501, 9), &market), Ok(()));
    assert_eq!(
        AskOrders::post_only_crossing_check(&order(500, 9), &market),
        Err(DropsetError::PostOnlyWouldImmediatelyFill)
    );
    assert_eq!(BidOrders::post_only_crossing_check(&order(699, 9), &market), Ok(()));
    assert_eq!(
        BidOrders::post_only_crossing_check(&order(700, 9), &market),
        Err(DropsetError::PostOnlyWouldImmediatelyFill)
    );

    let empty = empty_market(1);
    assert_eq!(AskOrders::post_only_crossing_check(&order(1, 9), &empty), Ok(()));
    assert_eq!(BidOrders::post_only_crossing_check(&order(u32::MAX, 9), &empty), Ok(()));
}

#[test]
fn market_from_bytes() {
    const N: usize = 2;
    let mut bytes = vec![0u8; MARKET_HEADER_SIZE + SECTOR_SIZE * N + 5];
    bytes[0..8].copy_from_slice(&0xd00d00b00b00f00du64.to_le_bytes());
    bytes[MARKET_HEADER_SIZE..MARKET_HEADER_SIZE + 4].copy_from_slice(&1u32.to_le_bytes());
    let market = Market::from_bytes(&bytes);
    assert!(market.is_initialized());
    assert_eq!(market.sectors.len(), N);
    assert_eq!(market.sectors[0].next(), 1);
    assert_eq!(market.sectors[1].next(), 0);
    assert_eq!(MarketHeader::load(&bytes[..MARKET_HEADER_SIZE]).unwrap().discriminant(), 0xd00d00b00b00f00d);
    assert!(matches!(Sector::load(&bytes[..SECTOR_SIZE - 1]), Err(DropsetError::InsufficientByteLength)));
}

#[test]
fn sector_links_and_payload() {
    let mut s = Sector::new(1, 2, [7u8; 128]);
    assert_eq!((s.next(), s.prev()), (1, 2));
    s.set_next(5);
    s.set_prev(NIL);
    assert_eq!((s.next(), s.prev()), (5, NIL));
    s.zero_out_payload();
    assert_eq!(s.payload(), &[0u8; 128]);
    let sectors = vec![Sector::zeroed(), s];
    assert_eq!(Sector::check_in_bounds(&sectors, 1), Ok(()));
    assert_eq!(Sector::check_in_bounds(&sectors, 2), Err(DropsetError::IndexOutOfBounds));
    assert_eq!(Sector::from_sector_index(&sectors, 1).next(), 5);
}

#[test]
fn remove_undoes_push_front() {
    let market = empty_market(4);
    let mut asks: AskOrdersLinkedList = LinkedList::new_from_parts(market.header, market.sectors);
    place(&mut asks, &order(100, 1));
    place(&mut asks, &order(200, 2));
    let before = book(&asks);
    let top_before = asks.header.free_stack_top();
    let n = asks.push_front(&order(50, 3).as_bytes()).unwrap();
    assert_eq!(n, top_before);
    asks.remove_at(n);
    assert_eq!(book(&asks), before);
    assert_eq!(asks.header.free_stack_top(), top_before);
    assert_eq!(asks.header.num_asks(), 2);
}

#[test]
fn iterate_seats_of_market() {
    let market = empty_market(2);
    let mut seats = market.seat_list();
    let seat = MarketSeat::new([5u8; 32], 7, 8);
    let i = seats.push_back(&seat.as_array()).unwrap();
    let (header, mut sectors) = seats.into_parts();
    let mut s = sectors[i as usize];
    s.store_payload(&MarketSeat::new([6u8; 32], 1, 2));
    sectors[i as usize] = s;
    let market = Market { header, sectors };
    let mut it = market.iter_seats();
    let (j, sector) = it.next().unwrap();
    assert_eq!(j, i);
    assert_eq!(sector.load_payload::<MarketSeat>().user, [6u8; 32]);
    assert!(it.next().is_none());
}

#[test]
fn free_count_follows_pushes_and_pops() {
    let market = empty_market(3);
    let mut stack: Stack = market.free_stack();
    assert_eq!(stack.pop_free_sector(), Ok(0));
    let (header, _) = stack.into_parts();
    assert_eq!(header.num_free_sectors(), 2);
    let market = empty_market(3);
    let mut stack: Stack = market.free_stack();
    let popped = stack.pop_free_sector().unwrap();
    stack.push_free_sector(popped);
    assert_eq!(stack.top(), popped);
    let (header, sectors) = stack.into_parts();
    assert_eq!(header.num_free_sectors(), 3);
    assert_eq!(sectors[popped as usize].payload(), &[0u8; 128]);

    let market = empty_market(2);
    let mut asks: AskOrdersLinkedList = LinkedList::new_from_parts(market.header, market.sectors);
    let n = place(&mut asks, &order(10, 1));
    assert_eq!(asks.header.num_free_sectors(), 1);
    asks.remove_at(n);
    assert_eq!(asks.header.num_free_sectors(), 2);
}

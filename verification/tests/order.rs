use dropset::error::DropsetError;
use dropset::price::encoded_price::EncodedPrice;
use dropset::price::{to_biased_exponent, to_order_info, OrderInfo};
use dropset::state::asks_dll::AskOrders;
use dropset::state::bids_dll::BidOrders;
use dropset::state::market_seat::MarketSeat;
use dropset::state::order::{Order, OrdersCollection, ORDER_PADDING};
use dropset::state::sector::{SectorIndex, PAYLOAD_SIZE};
use dropset::state::transmutable::Transmutable;
use dropset::state::user_order_sectors::UserOrderSectors;

#[test]
fn new_order_happy_path() {
    let order_info = to_order_info(10_000_000, 5, 8, 0).expect("Should create order info");
    let base_in_order = order_info.base_atoms;
    let quote_in_order = order_info.quote_atoms;
    let encoded_price_in_order = order_info.encoded_price;
    let user_seat = 17;
    let order = Order::new(order_info, user_seat);
    assert_eq!(base_in_order, order.base_remaining());
    assert_eq!(quote_in_order, order.quote_remaining());
    assert_eq!(encoded_price_in_order, order.encoded_price());
    assert_eq!(user_seat, order.user_seat());
}

#[test]
fn order_mutators() {
    let order_info = to_order_info(10_000_000, 5, to_biased_exponent(7), to_biased_exponent(0))
        .expect("Should create order info");
    let user_seat = 17;
    let mut order = Order::new(order_info.clone(), user_seat);
    assert_eq!(order.base_remaining(), 50_000_000);
    assert_eq!(order.quote_remaining(), 50_000_000);
    let base_after = 111_111_111;
    let quote_after: u64 = 222_222_222;
    order.set_base_remaining(base_after);
    order.set_quote_remaining(quote_after);
    assert_eq!(order.base_remaining(), base_after);
    assert_eq!(order.quote_remaining(), quote_after);
}

#[test]
fn test_as_bytes() {
    const BASE_ATOMS: u64 = 1234;
    const QUOTE_ATOMS: u64 = 4321;
    let order_info =
        OrderInfo { encoded_price: EncodedPrice::zero(), base_atoms: BASE_ATOMS, quote_atoms: QUOTE_ATOMS };
    const USER_SEAT: SectorIndex = 9191;
    let order = Order::new(order_info, USER_SEAT);
    assert_eq!(
        [
            &0u32.to_le_bytes(),
            &USER_SEAT.to_le_bytes(),
            BASE_ATOMS.to_le_bytes().as_ref(),
            QUOTE_ATOMS.to_le_bytes().as_ref(),
            [0u8; ORDER_PADDING].as_ref(),
        ]
        .concat(),
        order.as_bytes()
    );
}

#[test]
fn order_load_roundtrip() {
    let order = Order::new(
        OrderInfo { encoded_price: EncodedPrice::from_u32(77), base_atoms: 5, quote_atoms: 6 },
        3,
    );
    let bytes = order.as_bytes();
    let loaded = Order::load(&bytes).unwrap();
    assert_eq!(loaded, order);
    assert!(matches!(Order::load(&bytes[1..]), Err(DropsetError::InsufficientByteLength)));
    assert_eq!(Order::len(), PAYLOAD_SIZE);
}

#[test]
fn collateral_by_side() {
    let order = Order::new(
        OrderInfo { encoded_price: EncodedPrice::from_u32(77), base_atoms: 5, quote_atoms: 6 },
        3,
    );
    assert_eq!(order.collateral_amount::<AskOrders>(), 5);
    assert_eq!(order.collateral_amount::<BidOrders>(), 6);
    assert_eq!(AskOrders::get_order_collateral(&order), 5);
    assert_eq!(BidOrders::get_order_collateral(&order), 6);
}

#[test]
fn seat_collateral_by_side() {
    let mut seat = MarketSeat::new([1u8; 32], 100, 200);
    assert_eq!(AskOrders::try_decrement_seat_collateral_available(&mut seat, 40), Ok(()));
    assert_eq!(seat.base_available(), 60);
    assert_eq!(seat.quote_available(), 200);
    assert_eq!(
        AskOrders::try_decrement_seat_collateral_available(&mut seat, 61),
        Err(DropsetError::InsufficientUserBalance)
    );
    assert_eq!(seat.base_available(), 60);
    assert_eq!(BidOrders::try_increment_seat_collateral_available(&mut seat, 1), Ok(()));
    assert_eq!(seat.quote_available(), 201);
    assert_eq!(
        BidOrders::try_increment_seat_collateral_available(&mut seat, u64::MAX),
        Err(DropsetError::ArithmeticOverflow)
    );
    assert_eq!(seat.quote_available(), 201);
    assert_eq!(AskOrders::try_increment_seat_collateral_available(&mut seat, 5), Ok(()));
    assert_eq!(seat.base_available(), 65);
    assert_eq!(BidOrders::try_decrement_seat_collateral_available(&mut seat, 201), Ok(()));
    assert_eq!(seat.quote_available(), 0);
}

#[test]
fn order_sectors_by_side() {
    let mut u = UserOrderSectors::default();
    let p = EncodedPrice::from_u32(50_000_000);
    BidOrders::get_mut_order_sectors(&mut u).add(&p.into(), &4u32.to_le_bytes()).unwrap();
    assert_eq!(u.bids.get(&p.into()), Some(4));
    assert_eq!(u.asks.get(&p.into()), None);
    assert_eq!(BidOrders::get_order_sectors(&u).get(&p.into()), Some(4));
    assert_eq!(AskOrders::get_order_sectors(&u).get(&p.into()), None);
    AskOrders::get_mut_order_sectors(&mut u).add(&p.into(), &8u32.to_le_bytes()).unwrap();
    assert_eq!(u.asks.get(&p.into()), Some(8));
}

#[test]
fn price_priority_by_side() {
    let low = EncodedPrice::from_u32(1);
    let high = EncodedPrice::from_u32(2);
    assert!(AskOrders::has_higher_price_priority(&low, &high));
    assert!(!AskOrders::has_higher_price_priority(&high, &low));
    assert!(BidOrders::has_higher_price_priority(&high, &low));
    assert!(!BidOrders::has_higher_price_priority(&low, &low));
    assert!(AskOrders::highest_priority_price().is_zero());
    assert!(BidOrders::highest_priority_price().is_infinity());
}

#[test]
fn seat_bytes_roundtrip() {
    let seat = MarketSeat::new([9u8; 32], 1, 2);
    let bytes = seat.as_array();
    assert_eq!(&bytes[0..32], &[9u8; 32]);
    assert_eq!(&bytes[32..40], &1u64.to_le_bytes());
    assert_eq!(&bytes[40..48], &2u64.to_le_bytes());
    let loaded = MarketSeat::load(&bytes).unwrap();
    assert_eq!(loaded, seat);
}

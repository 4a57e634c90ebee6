use dropset::error::DropsetError;
use dropset::price::encoded_price::{EncodedPrice, LeEncodedPrice};
use dropset::price::to_biased_exponent;
use dropset::price::validated_mantissa::ValidatedPriceMantissa;
use dropset::state::sector::{LeSectorIndex, SectorIndex, LE_NIL};
use dropset::state::transmutable::Transmutable;
use dropset::state::user_order_sectors::{
    mark_as_free, OrderSectors, PriceToIndexEntry, UserOrderSectors, MAX_ORDERS, MAX_ORDERS_USIZE,
};
use dropset::state::U32_SIZE;

#[test]
fn new_all_free() {
    let order_sectors = UserOrderSectors::default();
    assert!(order_sectors.asks.iter().all(|ask| ask.is_free()));
    assert!(order_sectors.bids.iter().all(|bid| bid.is_free()));
}

#[test]
fn free_entry_transmutable_bytes() {
    let free_bytes_vec = [[0; U32_SIZE], LE_NIL].concat();
    let free_bytes: &[u8; U32_SIZE * 2] = free_bytes_vec.as_slice().try_into().unwrap();
    let new_freed_from_transmute = PriceToIndexEntry::load(free_bytes);
    assert!(new_freed_from_transmute.is_ok());
    let new_freed = new_freed_from_transmute.expect("Should transmute");
    assert!(new_freed.is_free());
    assert_eq!(new_freed.encoded_price.as_slice(), &[0u8; 4]);
    assert_eq!(new_freed.sector_index, LE_NIL);
    assert_eq!(new_freed, PriceToIndexEntry::new_free());
}

#[test]
fn free_orders_transmutable_bytes() {
    let free_bytes_vec = [[0; U32_SIZE], LE_NIL].concat();
    let max_orders_all_freed: Vec<u8> = (0..MAX_ORDERS)
        .flat_map(|_| free_bytes_vec.iter().cloned())
        .collect::<Vec<u8>>();
    assert_eq!(max_orders_all_freed.len(), PriceToIndexEntry::len() * MAX_ORDERS_USIZE);

    let new_max_orders_all_freed_from_transmute =
        OrderSectors::load(&max_orders_all_freed).expect("Should transmute");

    assert_eq!(new_max_orders_all_freed_from_transmute, OrderSectors::default());
}

#[test]
fn transmutable_rejects_wrong_length() {
    assert!(matches!(PriceToIndexEntry::load(&[0u8; 7]), Err(DropsetError::InsufficientByteLength)));
    assert!(matches!(OrderSectors::load(&[0u8; 41]), Err(DropsetError::InsufficientByteLength)));
}

#[test]
fn happy_path_free_orders() {
    let order_sectors = UserOrderSectors::default();
    assert_eq!(order_sectors.bids, OrderSectors::default());
    assert_eq!(order_sectors.asks, OrderSectors::default());
}

#[test]
fn happy_path_one_bid_one_ask() {
    let mut order_sectors = UserOrderSectors::default();
    let bid_encoded_price = EncodedPrice::new(
        to_biased_exponent(1),
        ValidatedPriceMantissa::try_from(12_345_678).unwrap(),
    );
    let (bid_index, ask_index): (SectorIndex, SectorIndex) = (10, 11);
    let ask_encoded_price = EncodedPrice::new(
        to_biased_exponent(2),
        ValidatedPriceMantissa::try_from(87_654_321).unwrap(),
    );
    let new_bid_price: &LeEncodedPrice = &bid_encoded_price.into();
    let new_ask_price: &LeEncodedPrice = &ask_encoded_price.into();

    order_sectors.bids.add(new_bid_price, &bid_index.to_le_bytes()).expect("Should add the mapping");
    order_sectors.asks.add(new_ask_price, &ask_index.to_le_bytes()).expect("Should add the mapping");
    assert_eq!(order_sectors.bids.get(new_bid_price).unwrap(), bid_index);
    assert_eq!(order_sectors.asks.get(new_ask_price).unwrap(), ask_index);
}

#[test]
fn duplicate_bid_error() {
    let mut order_sectors = UserOrderSectors::default();
    let bid_encoded_price = EncodedPrice::new(
        to_biased_exponent(1),
        ValidatedPriceMantissa::try_from(12_345_678).unwrap(),
    );
    let bid_index = 10u32;
    let bid_index_le_bytes = &bid_index.to_le_bytes();
    let bid_encoded_le_price: &LeEncodedPrice = &bid_encoded_price.into();
    order_sectors
        .bids
        .add(bid_encoded_le_price, bid_index_le_bytes)
        .expect("Should add the mapping");

    let failed_add = order_sectors.bids.add(bid_encoded_le_price, bid_index_le_bytes);

    assert!(matches!(failed_add, Err(DropsetError::OrderWithPriceAlreadyExists)));
}

#[test]
fn remove_nonexistent_order_error() {
    let mut order_sectors = UserOrderSectors::default();
    let bid_encoded_price = EncodedPrice::new(
        to_biased_exponent(1),
        ValidatedPriceMantissa::try_from(12_345_678).unwrap(),
    );
    let failed_remove = order_sectors.bids.remove(bid_encoded_price.as_u32());
    assert!(matches!(failed_remove, Err(DropsetError::OrderNotFound)));
}

#[test]
fn remove_order() {
    let mut order_sectors = UserOrderSectors::default();
    assert!(order_sectors.bids.iter().all(|bid| bid.is_free()));
    let bid_encoded_price = EncodedPrice::new(
        to_biased_exponent(1),
        ValidatedPriceMantissa::try_from(12_345_678).unwrap(),
    );
    let bid_index = 10u32;
    assert!(order_sectors.bids.add(&bid_encoded_price.into(), &bid_index.to_le_bytes()).is_ok());
    let num_orders_in_use =
        order_sectors.bids.iter().fold(0, |acc, p| if p.is_free() { acc } else { acc + 1 });
    assert_eq!(num_orders_in_use, 1);

    assert!(order_sectors.bids.remove(bid_encoded_price.as_u32()).is_ok());
    assert!(order_sectors.bids.iter().all(|bid| bid.is_free()));
}

#[test]
fn too_many_orders_error() {
    let mut order_sectors = UserOrderSectors::default();
    for i in 0..=MAX_ORDERS as u32 {
        let encoded_price = EncodedPrice::new(
            to_biased_exponent(0),
            ValidatedPriceMantissa::try_from(10_000_000 + i).unwrap(),
        );

        if i != MAX_ORDERS as u32 {
            assert!(order_sectors.bids.add(&encoded_price.into(), &i.to_le_bytes()).is_ok());
            assert!(order_sectors.asks.add(&encoded_price.into(), &i.to_le_bytes()).is_ok());
        } else {
            assert!(matches!(
                order_sectors.bids.add(&encoded_price.into(), &i.to_le_bytes()),
                Err(DropsetError::UserHasMaxOrders)
            ));
            assert!(matches!(
                order_sectors.asks.add(&encoded_price.into(), &i.to_le_bytes()),
                Err(DropsetError::UserHasMaxOrders)
            ));
        }
    }
}

#[test]
fn repost_arbitrary_order() {
    let mut order_sectors = UserOrderSectors::default();
    let index_and_mantissa_pairs: [(u32, ValidatedPriceMantissa); MAX_ORDERS_USIZE] = [
        (1, ValidatedPriceMantissa::try_from(11_111_111).unwrap()),
        (2, ValidatedPriceMantissa::try_from(22_222_222).unwrap()),
        (3, ValidatedPriceMantissa::try_from(33_333_333).unwrap()),
        (4, ValidatedPriceMantissa::try_from(44_444_444).unwrap()),
        (5, ValidatedPriceMantissa::try_from(55_555_555).unwrap()),
    ];

    let index_and_encoded_price_pairs: [(u32, EncodedPrice); MAX_ORDERS_USIZE] =
        index_and_mantissa_pairs
            .into_iter()
            .map(|(i, mantissa)| (i, EncodedPrice::new(to_biased_exponent(0), mantissa)))
            .collect::<Vec<_>>()
            .try_into()
            .unwrap();

    for (i, encoded_price) in index_and_encoded_price_pairs.iter() {
        order_sectors.bids.add(&(*encoded_price).into(), &i.to_le_bytes()).unwrap();
    }

    assert!(order_sectors.bids.iter().all(|bid| !bid.is_free()));

    let (old_sector_index, old_price) = *index_and_encoded_price_pairs.get(1).unwrap();

    let new_sector_index = 7;
    let new_mantissa = 77_777_777;
    let new_price = EncodedPrice::new(
        to_biased_exponent(0),
        ValidatedPriceMantissa::try_from(new_mantissa).unwrap(),
    );

    assert!(order_sectors.bids.get(&new_price.into()).is_none());

    assert_ne!(old_sector_index, new_sector_index);

    assert!(order_sectors.bids.remove(old_price.as_u32()).is_ok());

    assert!(order_sectors.bids.add(&new_price.into(), &new_sector_index.to_le_bytes()).is_ok());

    assert!(order_sectors.bids.get(&old_price.into()).is_none());
    assert!(order_sectors.bids.get(&new_price.into()).is_some());
    assert_eq!(order_sectors.bids.get(&new_price.into()).unwrap(), new_sector_index);

    assert!(order_sectors.bids.iter().all(|bid| !bid.is_free()));

    let expected_index_and_encoded_price_pairs: [(u32, EncodedPrice); MAX_ORDERS_USIZE] = [
        (1, ValidatedPriceMantissa::try_from(11_111_111).unwrap()),
        (7, ValidatedPriceMantissa::try_from(77_777_777).unwrap()),
        (3, ValidatedPriceMantissa::try_from(33_333_333).unwrap()),
        (4, ValidatedPriceMantissa::try_from(44_444_444).unwrap()),
        (5, ValidatedPriceMantissa::try_from(55_555_555).unwrap()),
    ]
    .into_iter()
    .map(|(i, mantissa)| (i, EncodedPrice::new(to_biased_exponent(0), mantissa)))
    .collect::<Vec<_>>()
    .try_into()
    .unwrap();

    for (expected, result) in
        expected_index_and_encoded_price_pairs.iter().zip(order_sectors.bids.iter())
    {
        let (expected_sector_index, expected_encoded_price): (&LeSectorIndex, &LeEncodedPrice) =
            (&expected.0.to_le_bytes(), &expected.1.into());
        assert_eq!(&result.sector_index, expected_sector_index);
        assert_eq!(&result.encoded_price, expected_encoded_price);
    }
}

#[test]
fn mark_as_free_and_iter_mut() {
    let mut sectors = OrderSectors::new_all_free();
    let price = EncodedPrice::from_u32(123);
    sectors.add(&price.into(), &9u32.to_le_bytes()).unwrap();
    assert!(!sectors.iter().all(|e| e.is_free()));
    for entry in sectors.iter_mut() {
        mark_as_free(entry);
    }
    assert!(sectors.iter().all(|e| e.is_free()));
    assert_eq!(sectors, OrderSectors::default());
}

#[test]
fn add_then_remove_returns_index() {
    let mut sectors = OrderSectors::new_all_free();
    let price = EncodedPrice::from_u32(4242);
    sectors.add(&price.into(), &31u32.to_le_bytes()).unwrap();
    assert_eq!(sectors.remove(4242), Ok(31u32.to_le_bytes()));
    assert_eq!(sectors.get(&price.into()), None);
    assert_eq!(sectors.to_sector_indices(), [u32::MAX; MAX_ORDERS_USIZE]);
}

#[test]
fn order_sectors_bytes_roundtrip() {
    let mut sectors = OrderSectors::new_all_free();
    sectors.add(&EncodedPrice::from_u32(0x0102_0304).into(), &5u32.to_le_bytes()).unwrap();
    let bytes = sectors.to_bytes();
    assert_eq!(&bytes[0..8], &[4, 3, 2, 1, 5, 0, 0, 0]);
    assert_eq!(&bytes[8..16], &[0, 0, 0, 0, 0xFF, 0xFF, 0xFF, 0xFF]);
    assert_eq!(OrderSectors::from_bytes(&bytes), sectors);
}

use dropset::error::DropsetError;
use dropset::instructions::amount::AmountInstructionData;
use dropset::instructions::close::CloseInstructionData;
use dropset::instructions::orders::{Orders, ORDERS_LEN};
use dropset::instructions::InstructionTag;
use dropset::pack::{write_bytes, Pack};
use dropset::price::order_info_args::OrderInfoArgs;
use dropset::state::sector::{NonNilSectorIndex, NIL};
use dropset::state::transmutable::Transmutable;
use pinocchio::program_error::ProgramError;

const ALL_INSTRUCTION_TAGS: [InstructionTag; 5] = [
    InstructionTag::RegisterMarket,
    InstructionTag::Deposit,
    InstructionTag::Withdraw,
    InstructionTag::CloseSeat,
    InstructionTag::FlushEvents,
];

fn instruction_tag_from_repr(v: u8) -> Option<InstructionTag> {
    ALL_INSTRUCTION_TAGS.iter().copied().find(|t| *t as u8 == v)
}

#[test]
fn test_instruction_tag_from_u8_exhaustive() {
    for variant in ALL_INSTRUCTION_TAGS {
        let variant_u8 = variant as u8;
        assert_eq!(
            instruction_tag_from_repr(variant_u8).unwrap(),
            InstructionTag::try_from(variant_u8).unwrap(),
        );
        assert_eq!(InstructionTag::try_from(variant_u8).unwrap(), variant);
    }
}

#[test]
fn instruction_tag_invalid_is_custom_error() {
    for v in 5..=u8::MAX {
        assert_eq!(
            InstructionTag::try_from(v),
            Err(ProgramError::Custom(DropsetError::InvalidInstructionTag.code()))
        );
    }
    assert_eq!(ProgramError::from(DropsetError::UserHasMaxOrders), ProgramError::Custom(17));
}

#[test]
fn error_codes_and_messages() {
    assert_eq!(DropsetError::InvalidInstructionTag.code(), 0);
    assert_eq!(DropsetError::AddressDerivationFailed.code(), 14);
    assert_eq!(DropsetError::ArithmeticOverflow.code(), 22);
    assert_eq!(DropsetError::IndexOutOfBounds.message(), "Index is out of bounds");
    assert_eq!(DropsetError::UserAlreadyExists.message(), "User already has an existing seat");
}

#[test]
fn amount_data_hint() {
    let with_hint = AmountInstructionData::new(500, Some(7));
    assert_eq!(with_hint.amount(), 500);
    assert_eq!(with_hint.sector_index_hint(), Some(7));
    let without = AmountInstructionData::new(1, None);
    assert_eq!(without.sector_index_hint(), None);
    let nil_hint = AmountInstructionData::new(1, Some(NIL));
    assert_eq!(nil_hint.sector_index_hint(), None);

    let packed = with_hint.pack();
    assert_eq!(&packed[0..8], &500u64.to_le_bytes());
    assert_eq!(&packed[8..12], &7u32.to_le_bytes());
    let loaded = AmountInstructionData::load(&packed).unwrap();
    assert_eq!(loaded.amount(), 500);
    assert_eq!(loaded.sector_index_hint(), Some(7));
    assert!(AmountInstructionData::load(&packed[..11]).is_err());
}

#[test]
fn close_data_hint() {
    let hint = NonNilSectorIndex::new(12).unwrap();
    let data = CloseInstructionData::new(hint);
    assert_eq!(data.try_sector_index_hint().unwrap().get(), 12);
    assert_eq!(data.pack(), [12, 0, 0, 0, 0, 0, 0, 0]);
    let nil = CloseInstructionData::load(&NIL.to_le_bytes()).unwrap();
    assert!(matches!(nil.try_sector_index_hint(), Err(DropsetError::InvalidSectorIndex)));
    assert!(matches!(NonNilSectorIndex::new(NIL), Err(DropsetError::InvalidSectorIndex)));
}

#[test]
fn orders_pack_unpack() {
    let a = OrderInfoArgs::new(10_000_000, 5, 16, 16);
    let b = OrderInfoArgs::new(99_999_999, 1, 0, 31);
    let orders = Orders::new([a, b]);
    assert_eq!(orders.num_orders(), 2);
    let packed = orders.pack();
    assert_eq!(packed.len(), ORDERS_LEN);
    assert_eq!(packed[0], 2);
    assert_eq!(&packed[1..15], &a.pack());
    assert_eq!(&packed[15..29], &b.pack());
    assert!(packed[29..].iter().all(|x| *x == 0));
    let unpacked = Orders::unpack(&packed).unwrap();
    assert_eq!(unpacked, orders);
    assert_eq!(unpacked.into_order_args_iter(), vec![a, b]);
    assert_eq!(
        Orders::unpack(&packed[..ORDERS_LEN - 1]),
        Err(solana_program_error::ProgramError::InvalidInstructionData)
    );
    let empty = Orders::new([]);
    assert!(empty.into_order_args_iter().is_empty());
}

#[test]
fn order_info_args_pack_layout() {
    let a = OrderInfoArgs::new(0x0403_0201, 0x0C0B_0A09_0807_0605, 13, 14);
    assert_eq!(a.pack(), [1, 2, 3, 4, 5, 6, 7, 8, 9, 10, 11, 12, 13, 14]);
    assert_eq!(OrderInfoArgs::read_bytes(&a.pack(), 0), a);
}

#[test]
fn write_bytes_copies_the_shorter_length() {
    let mut dst = [9u8; 5];
    write_bytes(&mut dst[1..3], &[1, 2, 3]);
    assert_eq!(dst, [9, 1, 2, 9, 9]);
    let mut dst2 = [0u8; 4];
    write_bytes(&mut dst2, &[7]);
    assert_eq!(dst2, [7, 0, 0, 0]);
}

#[test]
fn error_codes_are_distinct() {
    let all = [
        DropsetError::InvalidInstructionTag,
        DropsetError::InsufficientByteLength,
        DropsetError::InvalidSectorIndex,
        DropsetError::NoFreeNodesLeft,
        DropsetError::InvalidAccountDiscriminant,
        DropsetError::IndexOutOfBounds,
        DropsetError::InvalidIndexHint,
        DropsetError::UnalignedData,
        DropsetError::UnallocatedAccountData,
        DropsetError::UserAlreadyExists,
        DropsetError::NotEnoughAccountKeys,
        DropsetError::InvalidTokenProgram,
        DropsetError::AlreadyInitializedAccount,
        DropsetError::NotOwnedBySystemProgram,
        DropsetError::AddressDerivationFailed,
        DropsetError::NoFreeSectorsRemaining,
        DropsetError::OrderWithPriceAlreadyExists,
        DropsetError::UserHasMaxOrders,
        DropsetError::OrderNotFound,
        DropsetError::PostOnlyWouldImmediatelyFill,
        DropsetError::InvalidInstructionEventTag,
        DropsetError::InsufficientUserBalance,
        DropsetError::ArithmeticOverflow,
    ];
    for (i, e) in all.iter().enumerate() {
        assert_eq!(e.code() as usize, i);
        assert!(!e.message().is_empty());
    }
}

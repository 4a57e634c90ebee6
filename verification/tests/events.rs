use std::collections::HashSet;

use dropset::error::DropsetError;
use dropset::events::DropsetEventTag;

const ALL_TAGS: [DropsetEventTag; 5] = [
    DropsetEventTag::Header,
    DropsetEventTag::Deposit,
    DropsetEventTag::Withdraw,
    DropsetEventTag::RegisterMarket,
    DropsetEventTag::CloseSeat,
];

/// The tag whose discriminant is `v`, found by listing every tag.
fn from_repr(v: u8) -> Option<DropsetEventTag> {
    ALL_TAGS.iter().copied().find(|t| *t as u8 == v)
}

#[test]
fn test_ixn_tag_try_from_u8_happy_path() {
    for variant in ALL_TAGS {
        let variant_u8 = variant as u8;
        assert_eq!(from_repr(variant_u8).unwrap(), DropsetEventTag::try_from(variant_u8).unwrap());
        assert_eq!(DropsetEventTag::try_from(variant_u8).unwrap(), variant);
    }
}

#[test]
fn test_ixn_tag_try_from_u8_exhaustive() {
    let valids = ALL_TAGS.iter().map(|v| *v as u8).collect::<HashSet<_>>();

    for v in 0..=u8::MAX {
        if valids.contains(&v) {
            assert_eq!(from_repr(v).unwrap(), DropsetEventTag::try_from(v).unwrap());
            assert_eq!(DropsetEventTag::try_from(v).unwrap() as u8, v);
        } else {
            assert_eq!(from_repr(v).is_none(), DropsetEventTag::try_from(v).is_err());
        }
    }
}

#[test]
fn event_tag_invalid_error() {
    assert_eq!(DropsetEventTag::try_from(5), Err(DropsetError::InvalidInstructionEventTag));
    for t in ALL_TAGS {
        assert_eq!(t.as_u8(), t as u8);
    }
}

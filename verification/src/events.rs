//! The tags of the events that Dropset instructions emit.
use vstd::prelude::*;

use crate::error::DropsetError;

verus! {

/// The kinds of events, tagged by their position in this list.
#[derive(Clone, Copy, Debug, PartialEq, Eq, Structural)]
pub enum DropsetEventTag {
    /// Precedes the events that one instruction emitted: the instruction's tag, the market, the
    /// market nonce and the number of events that follow.
    Header,
    /// A deposit: the amount, whether it is base, and the user's seat sector index.
    Deposit,
    /// A withdrawal: the amount and whether it is base.
    Withdraw,
    /// A newly registered market.
    RegisterMarket,
    /// A closed seat: the user's seat sector index.
    CloseSeat,
}

/// The number of event tags.
pub const NUM_EVENT_TAGS: u8 = 5;

/// The event tag whose number is `tag`, if there is one.
pub open spec fn event_tag_of(tag: u8) -> Option<DropsetEventTag> {
    match tag {
        0 => Some(DropsetEventTag::Header),
        1 => Some(DropsetEventTag::Deposit),
        2 => Some(DropsetEventTag::Withdraw),
        3 => Some(DropsetEventTag::RegisterMarket),
        4 => Some(DropsetEventTag::CloseSeat),
        _ => None,
    }
}

/// The number of an event tag: its position in the list of tags.
pub open spec fn event_tag_number(t: DropsetEventTag) -> u8 {
    match t {
        DropsetEventTag::Header => 0,
        DropsetEventTag::Deposit => 1,
        DropsetEventTag::Withdraw => 2,
        DropsetEventTag::RegisterMarket => 3,
        DropsetEventTag::CloseSeat => 4,
    }
}

/// Decoding the number of a tag gives the tag back, and every number that decodes is the number
/// of the tag it decodes to.
pub proof fn lemma_event_tag_roundtrip(t: DropsetEventTag, n: u8)
    ensures
        event_tag_of(event_tag_number(t)) == Some(t),
        event_tag_of(n) matches Some(u) ==> event_tag_number(u) == n,
        event_tag_of(n) is Some <==> n < NUM_EVENT_TAGS,
{
}

impl DropsetEventTag {
    /// The tag's number.
    pub fn as_u8(self) -> (r: u8)
        ensures
            r == event_tag_number(self),
    {
        match self {
            DropsetEventTag::Header => 0,
            DropsetEventTag::Deposit => 1,
            DropsetEventTag::Withdraw => 2,
            DropsetEventTag::RegisterMarket => 3,
            DropsetEventTag::CloseSeat => 4,
        }
    }
}

impl TryFrom<u8> for DropsetEventTag {
    type Error = DropsetError;

    /// The tag whose number is `tag`, or `InvalidInstructionEventTag`.
    #[inline(always)]
    fn try_from(tag: u8) -> (r: Result<Self, DropsetError>) {
        match tag {
            0 => Ok(DropsetEventTag::Header),
            1 => Ok(DropsetEventTag::Deposit),
            2 => Ok(DropsetEventTag::Withdraw),
            3 => Ok(DropsetEventTag::RegisterMarket),
            4 => Ok(DropsetEventTag::CloseSeat),
            _ => Err(DropsetError::InvalidInstructionEventTag),
        }
    }
}

impl vstd::std_specs::convert::TryFromSpecImpl<u8> for DropsetEventTag {
    open spec fn obeys_try_from_spec() -> bool {
        true
    }

    open spec fn try_from_spec(tag: u8) -> Result<Self, DropsetError> {
        match event_tag_of(tag) {
            Some(t) => Ok(t),
            None => Err(DropsetError::InvalidInstructionEventTag),
        }
    }
}

/// The events that Dropset emits, in the order of their tags.
#[derive(Clone, Copy, Debug, PartialEq, Eq, Structural)]
pub enum DropsetEvent {
    /// Precedes the events that one instruction emitted.
    Header,
    /// A deposit of a trader's tokens.
    Deposit,
    /// A withdrawal of a trader's tokens.
    Withdraw,
}

} // verus!

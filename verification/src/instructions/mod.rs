//! Instruction tags and the layouts of instruction data.

pub mod amount;
pub mod close;
pub mod close_seat;
pub mod orders;
pub mod register_market;

use vstd::prelude::*;

use pinocchio::account_info::AccountInfo;
use pinocchio::program_error::ProgramError;

use crate::error::{custom_program_error, error_code, DropsetError};

verus! {

/// An account passed to an instruction, from `pinocchio`; the instruction builders only carry
/// references to accounts through to the invocation.
#[verifier::external_type_specification]
#[verifier::external_body]
pub struct ExAccountInfo(AccountInfo);

/// The instructions of the Dropset program, tagged by their position in this list.
#[derive(Clone, Copy, Debug, PartialEq, Eq, Structural)]
pub enum InstructionTag {
    RegisterMarket,
    Deposit,
    Withdraw,
    CloseSeat,
    FlushEvents,
}

/// The number of instruction tags.
pub const NUM_INSTRUCTION_TAGS: u8 = 5;

/// The instruction tag whose number is `value`, if there is one.
pub open spec fn instruction_tag_of(value: u8) -> Option<InstructionTag> {
    match value {
        0 => Some(InstructionTag::RegisterMarket),
        1 => Some(InstructionTag::Deposit),
        2 => Some(InstructionTag::Withdraw),
        3 => Some(InstructionTag::CloseSeat),
        4 => Some(InstructionTag::FlushEvents),
        _ => None,
    }
}

/// The number of an instruction tag: its position in the list of tags.
pub open spec fn instruction_tag_number(t: InstructionTag) -> u8 {
    match t {
        InstructionTag::RegisterMarket => 0,
        InstructionTag::Deposit => 1,
        InstructionTag::Withdraw => 2,
        InstructionTag::CloseSeat => 3,
        InstructionTag::FlushEvents => 4,
    }
}

/// Decoding the number of a tag gives the tag back, and exactly the numbers below
/// [`NUM_INSTRUCTION_TAGS`] decode.
pub proof fn lemma_instruction_tag_roundtrip(t: InstructionTag, n: u8)
    ensures
        instruction_tag_of(instruction_tag_number(t)) == Some(t),
        instruction_tag_of(n) matches Some(u) ==> instruction_tag_number(u) == n,
        instruction_tag_of(n) is Some <==> n < NUM_INSTRUCTION_TAGS,
{
}

impl InstructionTag {
    /// The tag's number, the first byte of the instruction's data.
    pub fn as_u8(self) -> (r: u8)
        ensures
            r == instruction_tag_number(self),
    {
        match self {
            InstructionTag::RegisterMarket => 0,
            InstructionTag::Deposit => 1,
            InstructionTag::Withdraw => 2,
            InstructionTag::CloseSeat => 3,
            InstructionTag::FlushEvents => 4,
        }
    }
}

impl TryFrom<u8> for InstructionTag {
    type Error = ProgramError;

    /// The tag whose number is `value`, or the program error of `InvalidInstructionTag`.
    fn try_from(value: u8) -> (r: Result<Self, ProgramError>) {
        match value {
            0 => Ok(InstructionTag::RegisterMarket),
            1 => Ok(InstructionTag::Deposit),
            2 => Ok(InstructionTag::Withdraw),
            3 => Ok(InstructionTag::CloseSeat),
            4 => Ok(InstructionTag::FlushEvents),
            _ => Err(ProgramError::from(DropsetError::InvalidInstructionTag)),
        }
    }
}

impl vstd::std_specs::convert::TryFromSpecImpl<u8> for InstructionTag {
    open spec fn obeys_try_from_spec() -> bool {
        true
    }

    open spec fn try_from_spec(value: u8) -> Result<Self, ProgramError> {
        match instruction_tag_of(value) {
            Some(t) => Ok(t),
            None => Err(custom_program_error(error_code(DropsetError::InvalidInstructionTag))),
        }
    }
}

/// The instructions whose account layouts the program declares.
#[derive(Clone, Copy, Debug, PartialEq, Eq, Structural)]
pub enum DropsetInstruction {
    CloseSeat,
    Deposit,
}

} // verus!

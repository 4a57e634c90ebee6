//! Errors of the Dropset program.
use vstd::prelude::*;

use pinocchio::program_error::ProgramError;

verus! {

/// Errors returned by Dropset's state and instruction logic. The error code of a variant is its
/// position in this list.
#[derive(Clone, Copy, Debug, PartialEq, Eq, Structural)]
pub enum DropsetError {
    InvalidInstructionTag,
    InsufficientByteLength,
    InvalidSectorIndex,
    NoFreeNodesLeft,
    InvalidAccountDiscriminant,
    IndexOutOfBounds,
    InvalidIndexHint,
    UnalignedData,
    UnallocatedAccountData,
    UserAlreadyExists,
    NotEnoughAccountKeys,
    InvalidTokenProgram,
    AlreadyInitializedAccount,
    NotOwnedBySystemProgram,
    AddressDerivationFailed,
    NoFreeSectorsRemaining,
    OrderWithPriceAlreadyExists,
    UserHasMaxOrders,
    OrderNotFound,
    PostOnlyWouldImmediatelyFill,
    InvalidInstructionEventTag,
    InsufficientUserBalance,
    ArithmeticOverflow,
}

/// The result of an operation that returns nothing on success.
pub type DropsetResult = Result<(), DropsetError>;


/// The error code of `e`: its position in the list of variants.
pub open spec fn error_code(e: DropsetError) -> u32 {
    match e {
        DropsetError::InvalidInstructionTag => 0,
        DropsetError::InsufficientByteLength => 1,
        DropsetError::InvalidSectorIndex => 2,
        DropsetError::NoFreeNodesLeft => 3,
        DropsetError::InvalidAccountDiscriminant => 4,
        DropsetError::IndexOutOfBounds => 5,
        DropsetError::InvalidIndexHint => 6,
        DropsetError::UnalignedData => 7,
        DropsetError::UnallocatedAccountData => 8,
        DropsetError::UserAlreadyExists => 9,
        DropsetError::NotEnoughAccountKeys => 10,
        DropsetError::InvalidTokenProgram => 11,
        DropsetError::AlreadyInitializedAccount => 12,
        DropsetError::NotOwnedBySystemProgram => 13,
        DropsetError::AddressDerivationFailed => 14,
        DropsetError::NoFreeSectorsRemaining => 15,
        DropsetError::OrderWithPriceAlreadyExists => 16,
        DropsetError::UserHasMaxOrders => 17,
        DropsetError::OrderNotFound => 18,
        DropsetError::PostOnlyWouldImmediatelyFill => 19,
        DropsetError::InvalidInstructionEventTag => 20,
        DropsetError::InsufficientUserBalance => 21,
        DropsetError::ArithmeticOverflow => 22,
    }
}

/// The message that describes `e`.
pub open spec fn error_message(e: DropsetError) -> Seq<char> {
    match e {
        DropsetError::InvalidInstructionTag => "Invalid instruction tag"@,
        DropsetError::InsufficientByteLength => "Not enough bytes passed"@,
        DropsetError::InvalidSectorIndex => "Invalid sector index passed"@,
        DropsetError::NoFreeNodesLeft => "There are no free stack nodes left"@,
        DropsetError::InvalidAccountDiscriminant => "Invalid account discriminant"@,
        DropsetError::IndexOutOfBounds => "Index is out of bounds"@,
        DropsetError::InvalidIndexHint => "Index hint is invalid"@,
        DropsetError::UnalignedData => "Account data is unaligned"@,
        DropsetError::UnallocatedAccountData => "Account data hasn't been properly allocated"@,
        DropsetError::UserAlreadyExists => "User already has an existing seat"@,
        DropsetError::NotEnoughAccountKeys => "Not enough account keys were provided"@,
        DropsetError::InvalidTokenProgram => "Invalid token program ID"@,
        DropsetError::AlreadyInitializedAccount => "Account has already been initialized"@,
        DropsetError::NotOwnedBySystemProgram => "Account is not owned by the system program"@,
        DropsetError::AddressDerivationFailed => "PDA derivation failed"@,
        DropsetError::NoFreeSectorsRemaining => "There are no free sectors remaining"@,
        DropsetError::OrderWithPriceAlreadyExists => "An order at this price already exists"@,
        DropsetError::UserHasMaxOrders => "The user already has the max number of orders"@,
        DropsetError::OrderNotFound => "Order not found"@,
        DropsetError::PostOnlyWouldImmediatelyFill => "A post-only order would immediately fill"@,
        DropsetError::InvalidInstructionEventTag => "Invalid instruction event tag"@,
        DropsetError::InsufficientUserBalance => "Insufficient user balance"@,
        DropsetError::ArithmeticOverflow => "Arithmetic overflow"@,
    }
}

impl DropsetError {
    /// The error code: the variant's position in the list of variants.
    pub fn code(self) -> (r: u32)
        ensures
            r == error_code(self),
    {
        match self {
            DropsetError::InvalidInstructionTag => 0,
            DropsetError::InsufficientByteLength => 1,
            DropsetError::InvalidSectorIndex => 2,
            DropsetError::NoFreeNodesLeft => 3,
            DropsetError::InvalidAccountDiscriminant => 4,
            DropsetError::IndexOutOfBounds => 5,
            DropsetError::InvalidIndexHint => 6,
            DropsetError::UnalignedData => 7,
            DropsetError::UnallocatedAccountData => 8,
            DropsetError::UserAlreadyExists => 9,
            DropsetError::NotEnoughAccountKeys => 10,
            DropsetError::InvalidTokenProgram => 11,
            DropsetError::AlreadyInitializedAccount => 12,
            DropsetError::NotOwnedBySystemProgram => 13,
            DropsetError::AddressDerivationFailed => 14,
            DropsetError::NoFreeSectorsRemaining => 15,
            DropsetError::OrderWithPriceAlreadyExists => 16,
            DropsetError::UserHasMaxOrders => 17,
            DropsetError::OrderNotFound => 18,
            DropsetError::PostOnlyWouldImmediatelyFill => 19,
            DropsetError::InvalidInstructionEventTag => 20,
            DropsetError::InsufficientUserBalance => 21,
            DropsetError::ArithmeticOverflow => 22,
        }
    }

    /// A short description of the error.
    pub fn message(self) -> (r: &'static str)
        ensures
            r@ == error_message(self),
    {
        match self {
            DropsetError::InvalidInstructionTag => "Invalid instruction tag",
            DropsetError::InsufficientByteLength => "Not enough bytes passed",
            DropsetError::InvalidSectorIndex => "Invalid sector index passed",
            DropsetError::NoFreeNodesLeft => "There are no free stack nodes left",
            DropsetError::InvalidAccountDiscriminant => "Invalid account discriminant",
            DropsetError::IndexOutOfBounds => "Index is out of bounds",
            DropsetError::InvalidIndexHint => "Index hint is invalid",
            DropsetError::UnalignedData => "Account data is unaligned",
            DropsetError::UnallocatedAccountData => "Account data hasn't been properly allocated",
            DropsetError::UserAlreadyExists => "User already has an existing seat",
            DropsetError::NotEnoughAccountKeys => "Not enough account keys were provided",
            DropsetError::InvalidTokenProgram => "Invalid token program ID",
            DropsetError::AlreadyInitializedAccount => "Account has already been initialized",
            DropsetError::NotOwnedBySystemProgram => "Account is not owned by the system program",
            DropsetError::AddressDerivationFailed => "PDA derivation failed",
            DropsetError::NoFreeSectorsRemaining => "There are no free sectors remaining",
            DropsetError::OrderWithPriceAlreadyExists => "An order at this price already exists",
            DropsetError::UserHasMaxOrders => "The user already has the max number of orders",
            DropsetError::OrderNotFound => "Order not found",
            DropsetError::PostOnlyWouldImmediatelyFill => "A post-only order would immediately fill",
            DropsetError::InvalidInstructionEventTag => "Invalid instruction event tag",
            DropsetError::InsufficientUserBalance => "Insufficient user balance",
            DropsetError::ArithmeticOverflow => "Arithmetic overflow",
        }
    }
}

/// Distinct errors have distinct codes.
pub proof fn lemma_error_code_injective(a: DropsetError, b: DropsetError)
    ensures
        error_code(a) == error_code(b) ==> a == b,
{
}

/// The program error of the Solana runtime, from `pinocchio`.
#[verifier::external_type_specification]
#[verifier::external_body]
pub struct ExProgramError(ProgramError);

/// The `ProgramError::Custom` value that carries `code`.
pub uninterp spec fn custom_program_error(code: u32) -> ProgramError;

/// `pinocchio`'s `ProgramError::Custom(code)`. Constructing the variant is a function of `code`
/// alone; what the value is beyond that is not stated, as `ProgramError` is opaque here.
#[verifier::external_body]
fn make_custom_program_error(code: u32) -> (r: ProgramError)
    ensures
        r == custom_program_error(code),
{
    ProgramError::Custom(code)
}

/// The program error of the Solana runtime, from `solana-program-error`, which instruction data
/// unpacking reports.
#[verifier::external_type_specification]
#[verifier::external_body]
pub struct ExSolanaProgramError(solana_program_error::ProgramError);

/// The `solana-program-error` error that the builtin error value `code` stands for.
pub uninterp spec fn solana_program_error_of(code: u64) -> solana_program_error::ProgramError;

/// The builtin error value of `InvalidInstructionData`: 3 shifted into the upper 32 bits.
pub const INVALID_INSTRUCTION_DATA: u64 = 0x3_0000_0000u64;

/// `solana-program-error`'s `ProgramError::from(code)`, which maps each builtin error value to its
/// variant (`INVALID_INSTRUCTION_DATA` to `InvalidInstructionData`). The result is a function of
/// `code` alone; which variant it is cannot be stated, as the type is opaque here.
#[verifier::external_body]
pub(crate) fn solana_program_error_from_code(code: u64) -> (r: solana_program_error::ProgramError)
    ensures
        r == solana_program_error_of(code),
{
    solana_program_error::ProgramError::from(code)
}

/// A Dropset error is reported to the runtime as the custom program error that carries its code.
impl From<DropsetError> for ProgramError {
    fn from(e: DropsetError) -> (r: ProgramError) {
        make_custom_program_error(e.code())
    }
}

impl vstd::std_specs::convert::FromSpecImpl<DropsetError> for ProgramError {
    open spec fn obeys_from_spec() -> bool {
        true
    }

    open spec fn from_spec(e: DropsetError) -> ProgramError {
        custom_program_error(error_code(e))
    }
}

} // verus!

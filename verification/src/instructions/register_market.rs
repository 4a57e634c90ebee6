//! See [`RegisterMarket`].
use vstd::prelude::*;

use pinocchio::account_info::AccountInfo;

use crate::instructions::{instruction_tag_number, InstructionTag};

verus! {

/// Registers a program-owned market account derived from the base and quote mint addresses, with
/// `num_sectors` sectors of initial account space.
///
/// ### Accounts
///  0. `[WRITE]` User account
///  1. `[WRITE]` Market account
///  2. `[WRITE]` Base market associated token account
///  3. `[WRITE]` Quote market associated token account
///  4. `[READ]` Base mint
///  5. `[READ]` Quote mint
///  6. `[READ]` Base token program
///  7. `[READ]` Quote token program
///  8. `[READ]` System program
pub struct RegisterMarket<'a> {
    /// The user registering the market.
    pub user: &'a AccountInfo,
    /// The market account PDA.
    pub market_account: &'a AccountInfo,
    /// The market's associated token account for the base mint.
    pub base_market_ata: &'a AccountInfo,
    /// The market's associated token account for the quote mint.
    pub quote_market_ata: &'a AccountInfo,
    /// The base mint account.
    pub base_mint: &'a AccountInfo,
    /// The quote mint account.
    pub quote_mint: &'a AccountInfo,
    /// The base mint's token program.
    pub base_token_program: &'a AccountInfo,
    /// The quote mint's token program.
    pub quote_token_program: &'a AccountInfo,
    /// The system program.
    pub system_program: &'a AccountInfo,
    /// The number of sectors to create when the market account is initialized.
    pub num_sectors: u16,
}

/// The instruction data of a market registration: the tag, then the little-endian number of
/// sectors.
pub open spec fn register_market_data(num_sectors: u16) -> Seq<u8> {
    seq![
        instruction_tag_number(InstructionTag::RegisterMarket),
        (num_sectors % 256) as u8,
        (num_sectors / 256) as u8,
    ]
}

impl RegisterMarket<'_> {
    /// The instruction data: `[0]` the instruction tag, `[1..3]` the number of sectors as
    /// little-endian bytes.
    #[inline(always)]
    pub fn pack_instruction_data(&self) -> (r: [u8; 3])
        ensures
            r@ == register_market_data(self.num_sectors),
            r[0] == 0,
            r[1] + 256 * r[2] == self.num_sectors,
    {
        let n = self.num_sectors;
        let r = [InstructionTag::RegisterMarket.as_u8(), (n % 256) as u8, (n / 256) as u8];
        assert(r@ =~= register_market_data(self.num_sectors));
        r
    }
}

/// A market registration's data is three bytes: the `RegisterMarket` tag 0, then the number of
/// sectors as a little-endian `u16` (low byte first).
pub proof fn lemma_register_market_data_layout(num_sectors: u16)
    ensures
        register_market_data(num_sectors).len() == 3,
        register_market_data(num_sectors)[0] == 0,
        register_market_data(num_sectors)[1] + 256 * register_market_data(num_sectors)[2]
            == num_sectors,
{
}

} // verus!

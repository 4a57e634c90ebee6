//! See [`CloseSeat`].
use vstd::prelude::*;

use pinocchio::account_info::AccountInfo;

use crate::instructions::{instruction_tag_number, InstructionTag};
use crate::le_bytes::{le_u32_at, lemma_u32_le_bytes, u32_le_bytes, u32_to_le};
use crate::state::sector::SectorIndex;

verus! {

/// Closes a user's market seat by withdrawing all of the seat's base and quote.
///
/// ### Accounts
///   0. `[READ, SIGNER]` User
///   1. `[WRITE]` Market account
///   2. `[WRITE]` User base mint token account
///   3. `[WRITE]` User quote mint token account
///   4. `[WRITE]` Market base mint token account
///   5. `[WRITE]` Market quote mint token account
///   6. `[READ]` Base mint
///   7. `[READ]` Quote mint
pub struct CloseSeat<'a> {
    /// The user closing their seat.
    pub user: &'a AccountInfo,
    /// The market account PDA.
    pub market_account: &'a AccountInfo,
    /// The user's associated base mint token account.
    pub base_user_ata: &'a AccountInfo,
    /// The user's associated quote mint token account.
    pub quote_user_ata: &'a AccountInfo,
    /// The market's associated base mint token account.
    pub base_market_ata: &'a AccountInfo,
    /// The market's associated quote mint token account.
    pub quote_market_ata: &'a AccountInfo,
    /// The base token mint account.
    pub base_mint: &'a AccountInfo,
    /// The quote token mint account.
    pub quote_mint: &'a AccountInfo,
    /// A hint indicating which sector the user's seat is in.
    pub sector_index_hint: SectorIndex,
}

/// The instruction data of a seat closure: the tag, then the little-endian hint.
pub open spec fn close_seat_data(sector_index_hint: SectorIndex) -> Seq<u8> {
    seq![instruction_tag_number(InstructionTag::CloseSeat)] + u32_le_bytes(sector_index_hint)
}

impl CloseSeat<'_> {
    /// The instruction data: `[0]` the instruction tag, `[1..5]` the hint as little-endian bytes.
    #[inline(always)]
    pub fn pack(&self) -> (r: [u8; 5])
        ensures
            r@ == close_seat_data(self.sector_index_hint),
            r[0] == 3,
            le_u32_at(r@, 1) == self.sector_index_hint,
    {
        let h = u32_to_le(self.sector_index_hint);
        let r = [InstructionTag::CloseSeat.as_u8(), h[0], h[1], h[2], h[3]];
        assert(r@ =~= close_seat_data(self.sector_index_hint));
        proof {
            lemma_close_seat_data_layout(self.sector_index_hint);
        }
        r
    }
}

/// A seat closure's data is five bytes: the `CloseSeat` tag 3, then the hint as a little-endian
/// `u32`, so reading a little-endian `u32` at byte 1 gives the hint back.
pub proof fn lemma_close_seat_data_layout(sector_index_hint: SectorIndex)
    ensures
        close_seat_data(sector_index_hint).len() == 5,
        close_seat_data(sector_index_hint)[0] == 3,
        le_u32_at(close_seat_data(sector_index_hint), 1) == sector_index_hint,
{
    lemma_u32_le_bytes(sector_index_hint);
    let d = close_seat_data(sector_index_hint);
    let h = u32_le_bytes(sector_index_hint);
    assert(d[1] == h[0] && d[2] == h[1] && d[3] == h[2] && d[4] == h[3]);
}

} // verus!

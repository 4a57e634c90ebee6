//! See [`CloseInstructionData`].
use vstd::prelude::*;

use crate::error::DropsetError;
use crate::le_bytes::{
    array_from_slice, le_u32_at, le_u32_value, lemma_le_u32_at_bytes, u32_from_le, u32_le_bytes,
    u32_to_le,
};
use crate::pack::Pack;
use crate::state::sector::{LeSectorIndex, NonNilSectorIndex, NIL};
use crate::state::transmutable::Transmutable;

verus! {

/// The size in bytes of [`CloseInstructionData`].
pub const CLOSE_INSTRUCTION_DATA_LEN: usize = 4;

/// The size in bytes of packed [`CloseInstructionData`]: the hint, then four zero bytes.
pub const CLOSE_INSTRUCTION_DATA_PACKED_LEN: usize = 8;

/// The data of a seat closure: a hint of the user's seat sector.
#[derive(Clone, Copy, Debug)]
pub struct CloseInstructionData {
    /// A hint as to which sector the calling user's seat is in, as LE bytes.
    sector_index_hint: LeSectorIndex,
}

impl View for CloseInstructionData {
    /// The raw hint.
    type V = u32;

    closed spec fn view(&self) -> u32 {
        le_u32_value(self.sector_index_hint)
    }
}

impl CloseInstructionData {
    pub fn new(sector_index_hint: NonNilSectorIndex) -> (r: Self)
        ensures
            r@ == sector_index_hint@,
    {
        CloseInstructionData { sector_index_hint: u32_to_le(sector_index_hint.get()) }
    }

    /// The hint, or `InvalidSectorIndex` if its bytes are `NIL`.
    #[inline(always)]
    pub fn try_sector_index_hint(&self) -> (r: Result<NonNilSectorIndex, DropsetError>)
        ensures
            self@ != NIL ==> (r matches Ok(i) && i@ == self@),
            self@ == NIL ==> r == Err::<NonNilSectorIndex, DropsetError>(
                DropsetError::InvalidSectorIndex,
            ),
    {
        NonNilSectorIndex::new(u32_from_le(self.sector_index_hint))
    }
}

impl CloseInstructionData {
    /// The packed data is the raw hint as little-endian bytes, then four zero bytes.
    pub proof fn lemma_packed(&self)
        ensures
            self.packed() == u32_le_bytes(self@) + seq![0u8, 0u8, 0u8, 0u8],
    {
        assert(le_u32_value(self.sector_index_hint) == le_u32_at(self.sector_index_hint@, 0));
        lemma_le_u32_at_bytes(self.sector_index_hint@, 0);
        assert(self.sector_index_hint@.subrange(0, 4) =~= self.sector_index_hint@);
    }
}

impl Pack<CLOSE_INSTRUCTION_DATA_PACKED_LEN> for CloseInstructionData {
    /// The hint's bytes, then four zero bytes.
    closed spec fn packed(&self) -> Seq<u8> {
        self.sector_index_hint@ + seq![0u8, 0u8, 0u8, 0u8]
    }

    fn pack_into_slice(&self, dst: &mut [u8; CLOSE_INSTRUCTION_DATA_PACKED_LEN]) {
        let h = self.sector_index_hint;
        *dst = [h[0], h[1], h[2], h[3], 0, 0, 0, 0];
        assert(dst@ =~= self.packed());
    }
}

impl Transmutable for CloseInstructionData {
    open spec fn byte_len() -> nat {
        CLOSE_INSTRUCTION_DATA_LEN as nat
    }

    fn len() -> (r: usize) {
        CLOSE_INSTRUCTION_DATA_LEN
    }

    closed spec fn byte_repr(&self) -> Seq<u8> {
        self.sector_index_hint@
    }

    fn load_unchecked(bytes: &[u8]) -> (r: Self) {
        CloseInstructionData {
            sector_index_hint: array_from_slice::<CLOSE_INSTRUCTION_DATA_LEN>(bytes),
        }
    }
}

} // verus!

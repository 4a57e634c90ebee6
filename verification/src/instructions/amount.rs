//! See [`AmountInstructionData`].
use vstd::prelude::*;

use crate::le_bytes::{
    array_from_slice, le_u32_value, le_u64_value, lemma_le_at_zero, lemma_le_u32_at_bytes,
    lemma_le_u64_at_bytes, read_bytes_at, u32_from_le, u32_le_bytes, u32_to_le, u64_from_le,
    u64_le_bytes, u64_to_le,
};
use crate::pack::Pack;
use crate::state::sector::{LeSectorIndex, SectorIndex, NIL};
use crate::state::transmutable::Transmutable;
use crate::state::LeU64;

verus! {

/// The size in bytes of [`AmountInstructionData`].
pub const AMOUNT_INSTRUCTION_DATA_LEN: usize = 12;

/// The data of a deposit or a withdrawal: an amount and a hint of the user's seat sector.
#[derive(Clone, Copy, Debug)]
pub struct AmountInstructionData {
    /// The amount to deposit or withdraw, as LE bytes.
    amount: LeU64,
    /// A hint as to which sector the calling user's seat is in. `NIL` means no hint, which avoids
    /// the need for an optional type in the layout.
    sector_index_hint: LeSectorIndex,
}

/// The decoded contents of [`AmountInstructionData`].
pub struct AmountView {
    pub amount: u64,
    /// The raw hint; `NIL` for none.
    pub hint: SectorIndex,
}

impl View for AmountInstructionData {
    type V = AmountView;

    closed spec fn view(&self) -> AmountView {
        AmountView {
            amount: le_u64_value(self.amount),
            hint: le_u32_value(self.sector_index_hint),
        }
    }
}

/// The raw hint that stands for an optional hint: `NIL` for none.
pub open spec fn raw_hint(hint: Option<SectorIndex>) -> SectorIndex {
    match hint {
        Some(i) => i,
        None => NIL,
    }
}

/// The optional hint that a raw hint stands for: none for `NIL`.
pub open spec fn hint_of_raw(raw: SectorIndex) -> Option<SectorIndex> {
    if raw == NIL {
        None
    } else {
        Some(raw)
    }
}

/// A hint survives its raw encoding, except `Some(NIL)`, which reads back as no hint.
pub proof fn lemma_hint_roundtrip(hint: Option<SectorIndex>)
    ensures
        hint != Some(NIL) ==> hint_of_raw(raw_hint(hint)) == hint,
        hint == Some(NIL) ==> hint_of_raw(raw_hint(hint)) is None,
{
}

impl AmountInstructionData {
    pub fn new(amount: u64, sector_index_hint: Option<SectorIndex>) -> (r: Self)
        ensures
            r@.amount == amount,
            r@.hint == raw_hint(sector_index_hint),
    {
        let hint = match sector_index_hint {
            Some(i) => i,
            None => NIL,
        };
        AmountInstructionData { amount: u64_to_le(amount), sector_index_hint: u32_to_le(hint) }
    }

    #[inline(always)]
    pub fn amount(&self) -> (r: u64)
        ensures
            r == self@.amount,
    {
        u64_from_le(self.amount)
    }

    /// The hint, or `None` if the hint bytes are `NIL`.
    #[inline(always)]
    pub fn sector_index_hint(&self) -> (r: Option<SectorIndex>)
        ensures
            r == hint_of_raw(self@.hint),
    {
        let index = u32_from_le(self.sector_index_hint);
        if index != NIL {
            Some(index)
        } else {
            None
        }
    }
}

impl AmountInstructionData {
    /// The packed data is the amount and then the raw hint, as little-endian bytes.
    pub proof fn lemma_packed(&self)
        ensures
            self.packed() == u64_le_bytes(self@.amount) + u32_le_bytes(self@.hint),
    {
        lemma_le_at_zero(self.sector_index_hint, self.amount);
        lemma_le_u64_at_bytes(self.amount@, 0);
        lemma_le_u32_at_bytes(self.sector_index_hint@, 0);
        assert(self.amount@.subrange(0, 8) =~= self.amount@);
        assert(self.sector_index_hint@.subrange(0, 4) =~= self.sector_index_hint@);
    }
}

impl Pack<AMOUNT_INSTRUCTION_DATA_LEN> for AmountInstructionData {
    /// The amount's bytes, then the hint's bytes.
    closed spec fn packed(&self) -> Seq<u8> {
        self.amount@ + self.sector_index_hint@
    }

    fn pack_into_slice(&self, dst: &mut [u8; AMOUNT_INSTRUCTION_DATA_LEN]) {
        let a = self.amount;
        let h = self.sector_index_hint;
        *dst = [a[0], a[1], a[2], a[3], a[4], a[5], a[6], a[7], h[0], h[1], h[2], h[3]];
        assert(dst@ =~= self.packed());
    }
}

impl Transmutable for AmountInstructionData {
    open spec fn byte_len() -> nat {
        AMOUNT_INSTRUCTION_DATA_LEN as nat
    }

    fn len() -> (r: usize) {
        AMOUNT_INSTRUCTION_DATA_LEN
    }

    /// The amount's bytes, then the hint's bytes.
    closed spec fn byte_repr(&self) -> Seq<u8> {
        self.amount@ + self.sector_index_hint@
    }

    fn load_unchecked(bytes: &[u8]) -> (r: Self) {
        let b = array_from_slice::<AMOUNT_INSTRUCTION_DATA_LEN>(bytes);
        let r = AmountInstructionData {
            amount: read_bytes_at::<AMOUNT_INSTRUCTION_DATA_LEN, 8>(&b, 0),
            sector_index_hint: read_bytes_at::<AMOUNT_INSTRUCTION_DATA_LEN, 4>(&b, 8),
        };
        assert(r.byte_repr() =~= bytes@);
        r
    }
}

} // verus!

//! Defines the size and sentinel constants for fixed-size storage sectors used to organize and
//! index market data in account memory, and the [`Sector`] type: previous/next sector indices and
//! an opaque payload.
use vstd::prelude::*;

use crate::error::{DropsetError, DropsetResult};
use crate::le_bytes::{
    array_from_slice, le_u32_at, le_u32_value, lemma_le_u32_at_array, read_bytes_at, u32_from_le,
    u32_to_le,
};
use crate::state::transmutable::Transmutable;

verus! {

/// The size in bytes of one sector: two little-endian sector indices and the payload.
pub const SECTOR_SIZE: usize = 136;

/// The size in bytes of a sector's payload; the size of the largest payload type (a market seat).
pub const PAYLOAD_SIZE: usize = 128;

/// A sentinel value that marks 1-past the last valid sector index.
///
/// This value never appears naturally: even at a sector size of 1 byte, the maximum account size
/// of 10 MB keeps every sector index far below `u32::MAX`.
pub const NIL: SectorIndex = 0xFFFF_FFFFu32;

/// The little-endian byte representation of [`NIL`].
pub const LE_NIL: LeSectorIndex = [0xFFu8, 0xFF, 0xFF, 0xFF];

/// A sector index stored as little-endian bytes.
pub type LeSectorIndex = [u8; 4];

/// A stride-based index into an array of sectors.
pub type SectorIndex = u32;

/// `LE_NIL` is the only four-byte encoding of `NIL`.
pub proof fn lemma_le_nil(b: LeSectorIndex)
    ensures
        le_u32_value(LE_NIL) == NIL,
        (le_u32_value(b) == NIL) <==> (b@ == LE_NIL@),
{
    if le_u32_value(b) == NIL {
        crate::le_bytes::lemma_le_u32_injective(b, LE_NIL);
    }
    if b@ == LE_NIL@ {
        assert(b[0] == 0xFF && b[1] == 0xFF && b[2] == 0xFF && b[3] == 0xFF);
    }
}

/// A sector index that is known not to be [`NIL`].
#[derive(Clone, Copy, Debug, PartialEq, Eq, Structural)]
pub struct NonNilSectorIndex(SectorIndex);

impl View for NonNilSectorIndex {
    type V = SectorIndex;

    closed spec fn view(&self) -> SectorIndex {
        self.0
    }
}

impl NonNilSectorIndex {
    #[verifier::type_invariant]
    spec fn not_nil(self) -> bool {
        self.0 != NIL
    }

    /// `index` as a non-nil sector index, or `InvalidSectorIndex` if it is `NIL`.
    #[inline(always)]
    pub fn new(index: SectorIndex) -> (r: Result<Self, DropsetError>)
        ensures
            index != NIL ==> (r matches Ok(v) && v@ == index),
            index == NIL ==> r == Err::<Self, DropsetError>(DropsetError::InvalidSectorIndex),
    {
        if index == NIL {
            Err(DropsetError::InvalidSectorIndex)
        } else {
            Ok(NonNilSectorIndex(index))
        }
    }

    /// The sector index.
    #[inline(always)]
    pub fn get(&self) -> (r: SectorIndex)
        ensures
            r == self@,
            r != NIL,
    {
        proof {
            use_type_invariant(self);
        }
        self.0
    }
}

/// A type that a sector's payload bytes can hold, read and written as exactly
/// [`PAYLOAD_SIZE`] bytes.
pub trait Payload: Sized {
    /// The payload bytes of a value.
    spec fn payload_bytes(&self) -> Seq<u8>;

    /// The value that `bytes` hold.
    fn load_from_payload(bytes: &[u8; PAYLOAD_SIZE]) -> (r: Self)
        ensures
            r.payload_bytes() == bytes@,
    ;

    /// The bytes of the value.
    fn store_to_payload(&self) -> (r: [u8; PAYLOAD_SIZE])
        ensures
            r@ == self.payload_bytes(),
    ;
}

/// Marker trait for payload types that are valid for every bit pattern, so reading one from
/// arbitrary bytes needs no check.
pub trait AllBitPatternsValid {}

/// A single sector stored in a market's sectors region: the indices of the `next` and `prev`
/// sectors and a fixed-size payload buffer. Links are logical (by index), not physical adjacency.
///
/// Higher-level structures (free stacks, seat lists, order lists) interpret the payload as their
/// own logical type.
#[derive(Clone, Copy, Debug)]
pub struct Sector {
    /// The little endian bytes of the index of the `next` sector.
    next: LeSectorIndex,
    /// The little endian bytes of the index of the `prev` sector. Unused by the free stack.
    prev: LeSectorIndex,
    /// The raw payload bytes.
    payload: [u8; PAYLOAD_SIZE],
}

/// The meaning of a [`Sector`]: its decoded links and its payload bytes.
pub struct SectorView {
    pub next: SectorIndex,
    pub prev: SectorIndex,
    pub payload: Seq<u8>,
}

impl View for Sector {
    type V = SectorView;

    closed spec fn view(&self) -> SectorView {
        SectorView {
            next: le_u32_value(self.next),
            prev: le_u32_value(self.prev),
            payload: self.payload@,
        }
    }
}

/// The payload of a freshly zeroed sector.
pub open spec fn zeroed_payload() -> Seq<u8> {
    Seq::new(PAYLOAD_SIZE as nat, |i: int| 0u8)
}

impl Sector {
    /// A sector with the given links and payload.
    pub fn new(next: SectorIndex, prev: SectorIndex, payload: [u8; PAYLOAD_SIZE]) -> (s: Self)
        ensures
            s@.next == next,
            s@.prev == prev,
            s@.payload == payload@,
    {
        Sector { next: u32_to_le(next), prev: u32_to_le(prev), payload }
    }

    /// A sector whose bytes are all zero.
    pub fn zeroed() -> (s: Self)
        ensures
            s@.next == 0,
            s@.prev == 0,
            s@.payload == zeroed_payload(),
    {
        let s = Sector { next: [0u8; 4], prev: [0u8; 4], payload: [0u8; PAYLOAD_SIZE] };
        assert(s.payload@ =~= zeroed_payload());
        s
    }

    #[inline(always)]
    pub fn prev(&self) -> (r: SectorIndex)
        ensures
            r == self@.prev,
    {
        u32_from_le(self.prev)
    }

    #[inline(always)]
    pub fn set_prev(&mut self, index: SectorIndex)
        ensures
            final(self)@ == (SectorView { prev: index, ..old(self)@ }),
    {
        self.prev = u32_to_le(index);
    }

    #[inline(always)]
    pub fn next(&self) -> (r: SectorIndex)
        ensures
            r == self@.next,
    {
        u32_from_le(self.next)
    }

    #[inline(always)]
    pub fn set_next(&mut self, index: SectorIndex)
        ensures
            final(self)@ == (SectorView { next: index, ..old(self)@ }),
    {
        self.next = u32_to_le(index);
    }

    /// Copies `payload` into this sector's payload.
    #[inline(always)]
    pub fn set_payload(&mut self, payload: &[u8; PAYLOAD_SIZE])
        ensures
            final(self)@ == (SectorView { payload: payload@, ..old(self)@ }),
    {
        self.payload = *payload;
    }

    /// Sets every payload byte to zero.
    #[inline(always)]
    pub fn zero_out_payload(&mut self)
        ensures
            final(self)@ == (SectorView { payload: zeroed_payload(), ..old(self)@ }),
    {
        self.payload = [0u8; PAYLOAD_SIZE];
        assert(self.payload@ =~= zeroed_payload());
    }

    /// The payload read as a `T`.
    #[inline(always)]
    pub fn load_payload<T: Payload + AllBitPatternsValid>(&self) -> (r: T)
        ensures
            r.payload_bytes() == self@.payload,
    {
        T::load_from_payload(&self.payload)
    }

    /// Writes `value` into the payload.
    #[inline(always)]
    pub fn store_payload<T: Payload + AllBitPatternsValid>(&mut self, value: &T)
        ensures
            final(self)@ == (SectorView { payload: value.payload_bytes(), ..old(self)@ }),
    {
        self.payload = value.store_to_payload();
    }

    /// The raw payload bytes.
    #[inline(always)]
    pub fn payload(&self) -> (r: &[u8; PAYLOAD_SIZE])
        ensures
            r@ == self@.payload,
    {
        &self.payload
    }

    /// Checks that `index` is in-bounds of the passed sectors.
    #[inline(always)]
    pub fn check_in_bounds(sectors: &Vec<Sector>, index: SectorIndex) -> (r: DropsetResult)
        ensures
            r is Ok <==> index < sectors@.len() as u32,
            r matches Err(e) ==> e == DropsetError::IndexOutOfBounds,
    {
        let max_num_sectors = sectors.len() as u32;
        if index >= max_num_sectors {
            return Err(DropsetError::IndexOutOfBounds);
        }
        Ok(())
    }

    /// The sector at `index`.
    #[inline(always)]
    pub fn from_sector_index(sectors: &Vec<Sector>, index: SectorIndex) -> (r: &Sector)
        requires
            (index as int) < sectors@.len(),
        ensures
            *r == sectors@[index as int],
    {
        &sectors[index as usize]
    }

    /// The sector at `index`, to modify.
    #[inline(always)]
    pub fn from_sector_index_mut(sectors: &mut Vec<Sector>, index: SectorIndex) -> (r: &mut Sector)
        requires
            (index as int) < old(sectors)@.len(),
        ensures
            *r == old(sectors)@[index as int],
            final(sectors)@ == old(sectors)@.update(index as int, *final(r)),
    {
        &mut sectors[index as usize]
    }
}

impl Transmutable for Sector {
    open spec fn byte_len() -> nat {
        SECTOR_SIZE as nat
    }

    fn len() -> (r: usize) {
        SECTOR_SIZE
    }

    /// The `next` bytes, the `prev` bytes, then the payload.
    closed spec fn byte_repr(&self) -> Seq<u8> {
        self.next@ + self.prev@ + self.payload@
    }

    fn load_unchecked(bytes: &[u8]) -> (r: Self) {
        let b = array_from_slice::<SECTOR_SIZE>(bytes);
        let r = Sector {
            next: read_bytes_at::<SECTOR_SIZE, 4>(&b, 0),
            prev: read_bytes_at::<SECTOR_SIZE, 4>(&b, 4),
            payload: read_bytes_at::<SECTOR_SIZE, PAYLOAD_SIZE>(&b, 8),
        };
        assert(r.byte_repr() =~= bytes@);
        r
    }
}

/// A sector's bytes are its `next` index at 0, its `prev` index at 4 (both little-endian) and its
/// payload at 8, so reading a sector from bytes decodes each part from its own offset.
pub proof fn lemma_sector_layout(sector: Sector)
    ensures
        sector.byte_repr().len() == SECTOR_SIZE,
        sector@.next == le_u32_at(sector.byte_repr(), 0),
        sector@.prev == le_u32_at(sector.byte_repr(), 4),
        sector@.payload == sector.byte_repr().subrange(8, SECTOR_SIZE as int),
{
    let b = sector.byte_repr();
    assert(b.subrange(0, 4) =~= sector.next@);
    assert(b.subrange(4, 8) =~= sector.prev@);
    assert(b.subrange(8, SECTOR_SIZE as int) =~= sector.payload@);
    lemma_le_u32_at_array(b, 0, sector.next);
    lemma_le_u32_at_array(b, 4, sector.prev);
}

} // verus!

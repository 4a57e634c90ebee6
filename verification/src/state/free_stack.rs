//! See [`Stack`].
use vstd::prelude::*;

use crate::error::{DropsetError, DropsetResult};
use crate::state::market::{chains_of, lemma_chains_of, realizes, structures_wf, Chains};
use crate::state::market_header::{HeaderView, MarketHeader};
use crate::le_bytes::array_from_slice;
use crate::state::sector::{
    zeroed_payload, AllBitPatternsValid, Payload, Sector, SectorIndex, SectorView, NIL, PAYLOAD_SIZE,
};
use crate::state::transmutable::Transmutable;

verus! {

/// A stack allocator over a market's sectors that hands out freed sectors for reuse.
///
/// The stack is linked through the sectors' `next` fields; its top is the header's
/// `free_stack_top`.
pub struct Stack {
    /// See [`MarketHeader`].
    header: MarketHeader,
    /// The sectors, each of which is either in use by some structure or free.
    sectors: Vec<Sector>,
}

/// The unused payload of a free sector. A free sector only reads its `next` field, so its payload
/// bytes are garbage data.
pub struct FreePayload(pub [u8; PAYLOAD_SIZE]);

impl Transmutable for FreePayload {
    open spec fn byte_len() -> nat {
        PAYLOAD_SIZE as nat
    }

    fn len() -> (r: usize) {
        PAYLOAD_SIZE
    }

    open spec fn byte_repr(&self) -> Seq<u8> {
        self.0@
    }

    fn load_unchecked(bytes: &[u8]) -> (r: Self) {
        FreePayload(array_from_slice::<PAYLOAD_SIZE>(bytes))
    }
}

impl Payload for FreePayload {
    open spec fn payload_bytes(&self) -> Seq<u8> {
        self.0@
    }

    fn load_from_payload(bytes: &[u8; PAYLOAD_SIZE]) -> (r: Self) {
        FreePayload(*bytes)
    }

    fn store_to_payload(&self) -> (r: [u8; PAYLOAD_SIZE]) {
        self.0
    }
}

impl AllBitPatternsValid for FreePayload {}

/// Removes the top sector of the free stack, returning its index.
///
/// The header's `free_stack_top` becomes the popped sector's `next`; the number of free sectors
/// is decremented (wrapping). The popped sector's data is left as it was.
pub fn pop_free_sector_from(header: &mut MarketHeader, sectors: &Vec<Sector>) -> (r: Result<
    SectorIndex,
    DropsetError,
>)
    ensures
        old(header)@.free_stack_top == NIL ==> r == Err::<SectorIndex, DropsetError>(
            DropsetError::NoFreeSectorsRemaining,
        ) && final(header)@ == old(header)@,
        old(header)@.free_stack_top != NIL && old(header)@.free_stack_top >= sectors@.len() as u32
            ==> r == Err::<SectorIndex, DropsetError>(DropsetError::IndexOutOfBounds) && final(header)@ == old(header)@,
        old(header)@.free_stack_top != NIL && old(header)@.free_stack_top < sectors@.len() as u32
            ==> r == Ok::<SectorIndex, DropsetError>(old(header)@.free_stack_top) && final(header)@
            == (HeaderView {
            free_stack_top: sectors@[old(header)@.free_stack_top as int]@.next,
            num_free_sectors: old(header)@.num_free_sectors.wrapping_sub(1),
            ..old(header)@
        }),
        structures_wf(old(header)@, sectors@) ==> {
            let c = chains_of(old(header)@, sectors@);
            &&& structures_wf(final(header)@, sectors@)
            &&& (r is Ok <==> c.free.len() > 0)
            &&& r is Ok ==> r == Ok::<SectorIndex, DropsetError>(c.free[0]) && chains_of(final(header)@, sectors@) == (Chains { free: c.free.drop_first(), ..c })
            &&& r is Err ==> r == Err::<SectorIndex, DropsetError>(
                DropsetError::NoFreeSectorsRemaining,
            )
        },
{
    let free_index = header.free_stack_top();
    if free_index == NIL {
        proof {
            if structures_wf(old(header)@, sectors@) {
                let c = chains_of(old(header)@, sectors@);
                assert(realizes(c, old(header)@, sectors@));
            }
        }
        return Err(DropsetError::NoFreeSectorsRemaining);
    }
    if Sector::check_in_bounds(sectors, free_index).is_err() {
        proof {
            if structures_wf(old(header)@, sectors@) {
                let c = chains_of(old(header)@, sectors@);
                assert(realizes(c, old(header)@, sectors@));
                assert((c.free[0] as int) < sectors@.len());
            }
        }
        return Err(DropsetError::IndexOutOfBounds);
    }
    let sector_being_freed = Sector::from_sector_index(sectors, free_index);
    let new_top = sector_being_freed.next();
    header.set_free_stack_top(new_top);
    header.decrement_num_free_sectors();
    proof {
        if structures_wf(old(header)@, sectors@) {
            let c = chains_of(old(header)@, sectors@);
            assert(realizes(c, old(header)@, sectors@));
            let c2 = Chains { free: c.free.drop_first(), ..c };
            let s = sectors@;
            assert(s[c.free[0] as int]@.next == (if 1 < c.free.len() { c.free[1] } else { NIL }));
            assert forall|i: int| 0 <= i < c2.free.len() implies (#[trigger] s[c2.free[i] as int])@.next
                == (if i + 1 < c2.free.len() { c2.free[i + 1] } else { NIL }) by {
                assert(c2.free[i] == c.free[i + 1]);
                assert(s[c.free[i + 1] as int]@.next == (if i + 2 < c.free.len() {
                    c.free[i + 2]
                } else {
                    NIL
                }));
            }
            assert forall|i: int| 0 <= i < c2.free.len() implies (#[trigger] c2.free[i] as int)
                < s.len() by {
                assert(c2.free[i] == c.free[i + 1]);
            }
            assert(c2.disjoint());
            assert(realizes(c2, header@, s));
            lemma_chains_of(c2, header@, s);
        }
    }
    Ok(free_index)
}

/// Pushes the sector at `index` onto the free stack: its payload is zeroed, its `next` becomes the
/// current top, the top becomes `index`, and the number of free sectors is incremented (wrapping).
pub fn push_free_sector_to(header: &mut MarketHeader, sectors: &mut Vec<Sector>, index: SectorIndex)
    requires
        (index as int) < old(sectors)@.len(),
    ensures
        final(sectors)@.len() == old(sectors)@.len(),
        final(sectors)@[index as int]@ == (SectorView {
            next: old(header)@.free_stack_top,
            payload: zeroed_payload(),
            ..old(sectors)@[index as int]@
        }),
        forall|i: int|
            0 <= i < old(sectors)@.len() && i != index ==> final(sectors)@[i] == old(sectors)@[i],
        final(header)@ == (HeaderView {
            free_stack_top: index,
            num_free_sectors: old(header)@.num_free_sectors.wrapping_add(1),
            ..old(header)@
        }),
        structures_wf(old(header)@, old(sectors)@) && !chains_of(old(header)@, old(sectors)@).holds(index) ==> {
            let c = chains_of(old(header)@, old(sectors)@);
            &&& structures_wf(final(header)@, final(sectors)@)
            &&& chains_of(final(header)@, final(sectors)@) == (Chains {
                free: seq![index].add(c.free),
                ..c
            })
        },
{
    let curr_top = header.free_stack_top();
    sectors[index as usize].zero_out_payload();
    sectors[index as usize].set_next(curr_top);
    header.set_free_stack_top(index);
    header.increment_num_free_sectors();
    proof {
        if structures_wf(old(header)@, old(sectors)@) && !chains_of(old(header)@, old(sectors)@).holds(index) {
            let c = chains_of(old(header)@, old(sectors)@);
            let s0 = old(sectors)@;
            let s = sectors@;
            assert(realizes(c, old(header)@, s0));
            let c2 = Chains { free: seq![index].add(c.free), ..c };
            lemma_unchanged_lists(c, old(header)@, header@, s0, s, index);
            assert forall|i: int| 0 <= i < c2.free.len() implies (#[trigger] s[c2.free[i] as int])@.next
                == (if i + 1 < c2.free.len() { c2.free[i + 1] } else { NIL }) by {
                if i > 0 {
                    assert(c2.free[i] == c.free[i - 1]);
                    assert(c.free[i - 1] != index);
                    assert(s[c.free[i - 1] as int] == s0[c.free[i - 1] as int]);
                }
            }
            assert forall|i: int| 0 <= i < c2.free.len() implies (#[trigger] c2.free[i] as int)
                < s.len() by {
                if i > 0 {
                    assert(c2.free[i] == c.free[i - 1]);
                }
            }
            assert(c2.disjoint());
            assert(realizes(c2, header@, s));
            lemma_chains_of(c2, header@, s);
        }
    }
}

/// If only the sector at `index` changed, `index` is in no list, and the list fields of the header
/// are unchanged, then the lists are still linked.
pub proof fn lemma_unchanged_lists(
    c: Chains,
    h0: HeaderView,
    h: HeaderView,
    s0: Seq<Sector>,
    s: Seq<Sector>,
    index: SectorIndex,
)
    requires
        realizes(c, h0, s0),
        s.len() == s0.len(),
        forall|i: int| 0 <= i < s0.len() && i != index ==> s[i] == s0[i],
        !c.seats.contains(index),
        !c.bids.contains(index),
        !c.asks.contains(index),
        h.seats_dll_head == h0.seats_dll_head && h.seats_dll_tail == h0.seats_dll_tail && h.num_seats
            == h0.num_seats,
        h.bids_dll_head == h0.bids_dll_head && h.bids_dll_tail == h0.bids_dll_tail && h.num_bids
            == h0.num_bids,
        h.asks_dll_head == h0.asks_dll_head && h.asks_dll_tail == h0.asks_dll_tail && h.num_asks
            == h0.num_asks,
    ensures
        crate::state::market::dll_ok(s, c.seats, h.seats_dll_head, h.seats_dll_tail, h.num_seats),
        crate::state::market::dll_ok(s, c.bids, h.bids_dll_head, h.bids_dll_tail, h.num_bids),
        crate::state::market::dll_ok(s, c.asks, h.asks_dll_head, h.asks_dll_tail, h.num_asks),
{
    assert forall|i: int| 0 <= i < c.seats.len() implies s[c.seats[i] as int] == s0[c.seats[i] as int] by {
        assert(c.seats[i] != index);
    }
    assert forall|i: int| 0 <= i < c.bids.len() implies s[c.bids[i] as int] == s0[c.bids[i] as int] by {
        assert(c.bids[i] != index);
    }
    assert forall|i: int| 0 <= i < c.asks.len() implies s[c.asks[i] as int] == s0[c.asks[i] as int] by {
        assert(c.asks[i] != index);
    }
}

/// The sector indices `start, start + 1, ..., end - 1`.
pub open spec fn index_range(start: SectorIndex, end: SectorIndex) -> Seq<SectorIndex> {
    Seq::new((end - start) as nat, |i: int| (start + i) as SectorIndex)
}

/// Links the zeroed sectors `start..end` into the free stack, lowest index on top, and adds their
/// number to the count of free sectors (wrapping).
///
/// This is meant to be called directly after growing the account data, whose new bytes are zero.
#[verifier::spinoff_prover]
#[verifier::rlimit(40)]
pub fn convert_zeroed_sectors_to_free(
    header: &mut MarketHeader,
    sectors: &mut Vec<Sector>,
    start: SectorIndex,
    end: SectorIndex,
)
    requires
        start < end,
        (end as int) <= old(sectors)@.len(),
        forall|i: int| start <= i < end ==> (#[trigger] old(sectors)@[i])@.payload == zeroed_payload(),
    ensures
        final(sectors)@.len() == old(sectors)@.len(),
        forall|i: int|
            start <= i < end ==> (#[trigger] final(sectors)@[i])@ == (SectorView {
                next: if i + 1 < end {
                    (i + 1) as SectorIndex
                } else {
                    old(header)@.free_stack_top
                },
                ..old(sectors)@[i]@
            }),
        forall|i: int|
            0 <= i < old(sectors)@.len() && !(start <= i < end) ==> final(sectors)@[i] == old(sectors)@[i],
        final(header)@ == (HeaderView {
            free_stack_top: start,
            num_free_sectors: ((old(header)@.num_free_sectors as int + (end - start)) % 0x1_0000_0000) as u32,
            ..old(header)@
        }),
        structures_wf(old(header)@, old(sectors)@) && (forall|x: SectorIndex|
            start <= x < end ==> !(#[trigger] chains_of(old(header)@, old(sectors)@).holds(x))) ==> {
            let c = chains_of(old(header)@, old(sectors)@);
            &&& structures_wf(final(header)@, final(sectors)@)
            &&& chains_of(final(header)@, final(sectors)@) == (Chains {
                free: index_range(start, end).add(c.free),
                ..c
            })
        },
{
    let ghost h0 = header@;
    let ghost s0 = sectors@;
    let mut index = end;
    while index > start
        invariant
            start <= index <= end,
            (end as int) <= s0.len(),
            sectors@.len() == s0.len(),
            forall|i: int|
                index <= i < end ==> (#[trigger] sectors@[i])@ == (SectorView {
                    next: if i + 1 < end {
                        (i + 1) as SectorIndex
                    } else {
                        h0.free_stack_top
                    },
                    ..s0[i]@
                }),
            forall|i: int| 0 <= i < s0.len() && !(index <= i < end) ==> sectors@[i] == s0[i],
            header@ == (HeaderView {
                free_stack_top: if index == end {
                    h0.free_stack_top
                } else {
                    index
                },
                num_free_sectors: ((h0.num_free_sectors as int + (end - index)) % 0x1_0000_0000) as u32,
                ..h0
            }),
        decreases index,
    {
        index = index - 1;
        let curr_top = header.free_stack_top();
        sectors[index as usize].set_next(curr_top);
        header.set_free_stack_top(index);
        let ghost before = header@.num_free_sectors;
        header.increment_num_free_sectors();
        proof {
            assert(before == ((h0.num_free_sectors as int + (end - (index + 1))) % 0x1_0000_0000) as u32);
            assert(header@.num_free_sectors as int == (h0.num_free_sectors as int + (end - index))
                % 0x1_0000_0000) by (nonlinear_arith)
                requires
                    before as int == (h0.num_free_sectors as int + (end - (index + 1))) % 0x1_0000_0000,
                    header@.num_free_sectors == before.wrapping_add(1),
            {
            }
        }
    }
    proof {
        if structures_wf(h0, s0) && (forall|x: SectorIndex|
            start <= x < end ==> !(#[trigger] chains_of(h0, s0).holds(x))) {
            let c = chains_of(h0, s0);
            assert(realizes(c, h0, s0));
            let h = header@;
            let s = sectors@;
            let r = index_range(start, end);
            let f2 = r.add(c.free);
            let c2 = Chains { free: f2, ..c };
            assert forall|i: int| 0 <= i < c.seats.len() implies s[#[trigger] c.seats[i] as int] == s0[c.seats[i] as int] by {
                let x = c.seats[i];
                if start <= x < end {
                    assert(c.holds(x));
                }
            }
            assert forall|i: int| 0 <= i < c.bids.len() implies s[#[trigger] c.bids[i] as int] == s0[c.bids[i] as int] by {
                let x = c.bids[i];
                if start <= x < end {
                    assert(c.holds(x));
                }
            }
            assert forall|i: int| 0 <= i < c.asks.len() implies s[#[trigger] c.asks[i] as int] == s0[c.asks[i] as int] by {
                let x = c.asks[i];
                if start <= x < end {
                    assert(c.holds(x));
                }
            }
            assert forall|i: int| 0 <= i < c.free.len() implies s[#[trigger] c.free[i] as int] == s0[c.free[i] as int] by {
                let x = c.free[i];
                if start <= x < end {
                    assert(c.holds(x));
                }
            }
            crate::state::market::lemma_dll_frame(s0, s, c.seats, h0.seats_dll_head, h0.seats_dll_tail, h0.num_seats);
            crate::state::market::lemma_dll_frame(s0, s, c.bids, h0.bids_dll_head, h0.bids_dll_tail, h0.num_bids);
            crate::state::market::lemma_dll_frame(s0, s, c.asks, h0.asks_dll_head, h0.asks_dll_tail, h0.num_asks);
            assert(r.len() == end - start);
            assert forall|i: int| 0 <= i < f2.len() implies (#[trigger] f2[i] as int) < s.len() by {
                if i >= r.len() {
                    assert(f2[i] == c.free[i - r.len()]);
                }
            }
            assert forall|i: int| 0 <= i < f2.len() implies (#[trigger] s[f2[i] as int])@.next == (if i
                + 1 < f2.len() {
                f2[i + 1]
            } else {
                NIL
            }) by {
                if i < r.len() {
                    assert(f2[i] == start + i);
                    if i + 1 < r.len() {
                        assert(f2[i + 1] == start + i + 1);
                    } else if c.free.len() > 0 {
                        assert(f2[i + 1] == c.free[0]);
                    }
                } else {
                    let j = i - r.len();
                    assert(f2[i] == c.free[j]);
                    assert(s0[c.free[j] as int]@.next == (if j + 1 < c.free.len() {
                        c.free[j + 1]
                    } else {
                        NIL
                    }));
                }
            }
            assert(h.free_stack_top == f2[0]);
            assert forall|a: int, b: int| 0 <= a < f2.len() && 0 <= b < f2.len() && a != b implies f2[a]
                != f2[b] by {
                if a >= r.len() && b < r.len() {
                    assert(c.holds(f2[a]));
                } else if a < r.len() && b >= r.len() {
                    assert(c.holds(f2[b]));
                }
            }
            assert forall|a: int, b: int| 0 <= a < c.seats.len() && 0 <= b < f2.len() implies c.seats[a]
                != f2[b] by {
                if b < r.len() {
                    assert(c.holds(c.seats[a]));
                }
            }
            assert forall|a: int, b: int| 0 <= a < c.bids.len() && 0 <= b < f2.len() implies c.bids[a]
                != f2[b] by {
                if b < r.len() {
                    assert(c.holds(c.bids[a]));
                }
            }
            assert forall|a: int, b: int| 0 <= a < c.asks.len() && 0 <= b < f2.len() implies c.asks[a]
                != f2[b] by {
                if b < r.len() {
                    assert(c.holds(c.asks[a]));
                }
            }
            assert(c2.disjoint());
            assert(realizes(c2, h, s));
            lemma_chains_of(c2, h, s);
        }
    }
}

impl Stack {
    /// The header this stack operates on.
    pub closed spec fn header_view(self) -> MarketHeader {
        self.header
    }

    /// The sectors this stack operates on.
    pub closed spec fn sectors_view(self) -> Vec<Sector> {
        self.sectors
    }

    /// The stack over the given header and sectors.
    pub fn new_from_parts(header: MarketHeader, sectors: Vec<Sector>) -> (r: Self)
        ensures
            r.header_view() == header,
            r.sectors_view() == sectors,
    {
        Stack { header, sectors }
    }

    /// The header and sectors back.
    pub fn into_parts(self) -> (r: (MarketHeader, Vec<Sector>))
        ensures
            r.0 == self.header_view(),
            r.1 == self.sectors_view(),
    {
        (self.header, self.sectors)
    }

    /// Pushes the sector at `index` onto the stack; see [`push_free_sector_to`].
    pub fn push_free_sector(&mut self, index: SectorIndex)
        requires
            (index as int) < old(self).sectors_view()@.len(),
        ensures
            final(self).sectors_view()@.len() == old(self).sectors_view()@.len(),
            final(self).sectors_view()@[index as int]@ == (SectorView {
                next: old(self).header_view()@.free_stack_top,
                payload: zeroed_payload(),
                ..old(self).sectors_view()@[index as int]@
            }),
            forall|i: int|
                0 <= i < old(self).sectors_view()@.len() && i != index ==> final(self).sectors_view()@[i]
                    == old(self).sectors_view()@[i],
            final(self).header_view()@ == (HeaderView {
                free_stack_top: index,
                num_free_sectors: old(self).header_view()@.num_free_sectors.wrapping_add(1),
                ..old(self).header_view()@
            }),
    {
        push_free_sector_to(&mut self.header, &mut self.sectors, index);
    }

    /// Links the zeroed sectors `start..end` into the stack; see
    /// [`convert_zeroed_sectors_to_free`]. Always succeeds.
    pub fn convert_zeroed_bytes_to_free_sectors(&mut self, start: u32, end: u32) -> (r: DropsetResult)
        requires
            start < end,
            (end as int) <= old(self).sectors_view()@.len(),
            forall|i: int|
                start <= i < end ==> (#[trigger] old(self).sectors_view()@[i])@.payload
                    == zeroed_payload(),
        ensures
            r is Ok,
            final(self).sectors_view()@.len() == old(self).sectors_view()@.len(),
            forall|i: int|
                start <= i < end ==> (#[trigger] final(self).sectors_view()@[i])@ == (SectorView {
                    next: if i + 1 < end {
                        (i + 1) as SectorIndex
                    } else {
                        old(self).header_view()@.free_stack_top
                    },
                    ..old(self).sectors_view()@[i]@
                }),
            forall|i: int|
                0 <= i < old(self).sectors_view()@.len() && !(start <= i < end) ==> final(self).sectors_view()@[i]
                    == old(self).sectors_view()@[i],
            final(self).header_view()@ == (HeaderView {
                free_stack_top: start,
                num_free_sectors: ((old(self).header_view()@.num_free_sectors as int + (end - start))
                    % 0x1_0000_0000) as u32,
                ..old(self).header_view()@
            }),
    {
        convert_zeroed_sectors_to_free(&mut self.header, &mut self.sectors, start, end);
        Ok(())
    }

    /// Removes the top free sector and returns its index; see [`pop_free_sector_from`].
    pub fn pop_free_sector(&mut self) -> (r: Result<SectorIndex, DropsetError>)
        ensures
            final(self).sectors_view() == old(self).sectors_view(),
            old(self).header_view()@.free_stack_top == NIL ==> r == Err::<SectorIndex, DropsetError>(
                DropsetError::NoFreeSectorsRemaining,
            ) && final(self).header_view()@ == old(self).header_view()@,
            old(self).header_view()@.free_stack_top != NIL && old(self).header_view()@.free_stack_top
                >= old(self).sectors_view()@.len() as u32 ==> r == Err::<SectorIndex, DropsetError>(
                DropsetError::IndexOutOfBounds,
            ) && final(self).header_view()@ == old(self).header_view()@,
            old(self).header_view()@.free_stack_top != NIL && old(self).header_view()@.free_stack_top
                < old(self).sectors_view()@.len() as u32 ==> r == Ok::<SectorIndex, DropsetError>(
                old(self).header_view()@.free_stack_top,
            ) && final(self).header_view()@ == (HeaderView {
                free_stack_top: old(self).sectors_view()@[old(self).header_view()@.free_stack_top as int]@.next,
                num_free_sectors: old(self).header_view()@.num_free_sectors.wrapping_sub(1),
                ..old(self).header_view()@
            }),
    {
        pop_free_sector_from(&mut self.header, &self.sectors)
    }

    /// The index of the top free sector, or `NIL` when the stack is empty.
    #[inline(always)]
    pub fn top(&self) -> (r: SectorIndex)
        ensures
            r == self.header_view()@.free_stack_top,
    {
        self.header.free_stack_top()
    }

    /// Sets the index of the top free sector.
    #[inline(always)]
    pub fn set_top(&mut self, index: SectorIndex)
        ensures
            final(self).sectors_view() == old(self).sectors_view(),
            final(self).header_view()@ == (HeaderView {
                free_stack_top: index,
                ..old(self).header_view()@
            }),
    {
        self.header.set_free_stack_top(index);
    }
}

} // verus!

//! A doubly linked list of sectors within a market's sectors, parameterized by which of the
//! header's lists it is.
use vstd::prelude::*;

use core::marker::PhantomData;

use crate::error::DropsetError;
use crate::state::free_stack::{pop_free_sector_from, push_free_sector_to};
use crate::state::market::{
    chains_of, lemma_chains_of, lemma_disjoint_replace, lemma_distinct_bounded, lemma_dll_frame,
    lemma_lists_disjoint, lemma_next_linked_frame, lemma_next_linked_unique, lemma_realizes_by_parts, list_ok, next_linked,
    realizes, structures_wf, Chains, ListKind,
};
use crate::state::market_header::{HeaderView, MarketHeader};
use crate::state::sector::{zeroed_payload, Sector, SectorIndex, NIL, PAYLOAD_SIZE};

verus! {

/// The header operations of one kind of list: its head, its tail and its element counter.
pub trait LinkedListHeaderOperations {
    /// Which of the header's lists this is.
    spec fn kind() -> ListKind;

    fn head(header: &MarketHeader) -> (r: SectorIndex)
        ensures
            r == header@.head_of(Self::kind()),
    ;

    fn set_head(header: &mut MarketHeader, new_index: SectorIndex)
        ensures
            final(header)@ == old(header)@.with_head(Self::kind(), new_index),
    ;

    fn tail(header: &MarketHeader) -> (r: SectorIndex)
        ensures
            r == header@.tail_of(Self::kind()),
    ;

    fn set_tail(header: &mut MarketHeader, new_index: SectorIndex)
        ensures
            final(header)@ == old(header)@.with_tail(Self::kind(), new_index),
    ;

    fn increment_num_elements(header: &mut MarketHeader)
        ensures
            final(header)@ == old(header)@.with_count(
                Self::kind(),
                old(header)@.count_of(Self::kind()).wrapping_add(1),
            ),
    ;

    fn decrement_num_elements(header: &mut MarketHeader)
        ensures
            final(header)@ == old(header)@.with_count(
                Self::kind(),
                old(header)@.count_of(Self::kind()).wrapping_sub(1),
            ),
    ;
}

/// An iterator over the sectors linked through `next` from `curr`.
pub struct LinkedListIter<'a> {
    pub curr: SectorIndex,
    pub sectors: &'a Vec<Sector>,
}

impl<'a> LinkedListIter<'a> {
    /// From `curr`, the `next` links run through in-bounds sectors and end with `NIL`.
    pub open spec fn valid(&self) -> bool {
        &&& self.sectors@.len() < NIL
        &&& exists|l: Seq<SectorIndex>| #[trigger] next_linked(self.sectors@, l, self.curr)
    }

    /// The sector indices that the iterator has yet to return.
    pub open spec fn remaining(&self) -> Seq<SectorIndex> {
        choose|l: Seq<SectorIndex>| #[trigger] next_linked(self.sectors@, l, self.curr)
    }

    /// The remaining indices of a valid iterator are linked from `curr`.
    pub proof fn lemma_remaining(&self)
        requires
            self.valid(),
        ensures
            next_linked(self.sectors@, self.remaining(), self.curr),
    {
    }

    /// Returns the current sector and its index and moves to its `next`, or returns `None` once
    /// the current index is `NIL`.
    pub fn next(&mut self) -> (r: Option<(SectorIndex, &'a Sector)>)
        requires
            old(self).curr == NIL || (old(self).curr as int) < old(self).sectors@.len(),
        ensures
            final(self).sectors == old(self).sectors,
            old(self).curr == NIL ==> r is None && final(self).curr == NIL,
            old(self).curr != NIL ==> (r matches Some((i, sector)) && i == old(self).curr && *sector
                == old(self).sectors@[i as int] && final(self).curr == sector@.next),
            old(self).valid() ==> {
                &&& final(self).valid()
                &&& old(self).curr == NIL ==> old(self).remaining().len() == 0
                &&& old(self).curr != NIL ==> old(self).remaining().len() > 0
                    && old(self).remaining()[0] == old(self).curr && final(self).remaining()
                    == old(self).remaining().drop_first()
            },
    {
        if self.curr == NIL {
            proof {
                if old(self).valid() {
                    let l = old(self).remaining();
                    assert(next_linked(old(self).sectors@, l, old(self).curr));
                    if l.len() > 0 {
                        assert((l[0] as int) < old(self).sectors@.len());
                    }
                }
            }
            return None;
        }
        let sectors: &'a Vec<Sector> = self.sectors;
        let i = self.curr;
        let sector: &'a Sector = Sector::from_sector_index(sectors, i);
        self.curr = sector.next();
        proof {
            if old(self).valid() {
                let s = sectors@;
                let l = old(self).remaining();
                assert(next_linked(s, l, i));
                assert(l.len() > 0);
                let l2 = l.drop_first();
                assert(s[l[0] as int]@.next == (if 1 < l.len() { l[1] } else { NIL }));
                assert forall|k: int| 0 <= k < l2.len() implies (#[trigger] s[l2[k] as int])@.next == (
                if k + 1 < l2.len() {
                    l2[k + 1]
                } else {
                    NIL
                }) by {
                    assert(s[l[k + 1] as int]@.next == (if k + 2 < l.len() { l[k + 2] } else { NIL }));
                }
                assert forall|k: int| 0 <= k < l2.len() implies (#[trigger] l2[k] as int) < s.len() by {
                    assert(l2[k] == l[k + 1]);
                }
                assert(next_linked(s, l2, self.curr));
                lemma_next_linked_unique(s, self.remaining(), l2, self.curr);
            }
        }
        Some((i, sector))
    }
}

/// A doubly linked list of sectors containing payloads of [`PAYLOAD_SIZE`] bytes.
///
/// Each sector is a union of the list's payload type and a free sector.
pub struct LinkedList<T: LinkedListHeaderOperations> {
    pub header: MarketHeader,
    pub sectors: Vec<Sector>,
    pub _list_type: PhantomData<T>,
}

impl<T: LinkedListHeaderOperations> LinkedList<T> {
    /// The list over the given header and sectors.
    pub fn new_from_parts(header: MarketHeader, sectors: Vec<Sector>) -> (r: Self)
        ensures
            r.header == header,
            r.sectors == sectors,
    {
        Self { header, sectors, _list_type: PhantomData }
    }

    /// The header and sectors back.
    pub fn into_parts(self) -> (r: (MarketHeader, Vec<Sector>))
        ensures
            r.0 == self.header,
            r.1 == self.sectors,
    {
        (self.header, self.sectors)
    }

    /// The well-formedness of the structures held in the header and sectors.
    pub open spec fn wf(&self) -> bool {
        structures_wf(self.header@, self.sectors@)
    }

    /// The chains held in the header and sectors.
    pub open spec fn chains(&self) -> Chains {
        chains_of(self.header@, self.sectors@)
    }

    /// The sector indices of this list, from head to tail.
    pub open spec fn indices(&self) -> Seq<SectorIndex> {
        self.chains().list(T::kind())
    }

    /// An iterator over the list from its head.
    pub fn iter(&self) -> (r: LinkedListIter<'_>)
        ensures
            r.curr == self.header@.head_of(T::kind()),
            *r.sectors == self.sectors,
            self.wf() ==> r.valid() && r.remaining() == self.indices(),
    {
        let r = LinkedListIter { curr: T::head(&self.header), sectors: &self.sectors };
        proof {
            if self.wf() {
                let c = self.chains();
                assert(realizes(c, self.header@, self.sectors@));
                lemma_realizes_by_parts(c, self.header@, self.sectors@);
                assert(next_linked(self.sectors@, c.list(T::kind()), r.curr));
                lemma_next_linked_unique(self.sectors@, r.remaining(), c.list(T::kind()), r.curr);
            }
        }
        r
    }

    /// An iterator over the sectors linked from `start`.
    pub fn iter_from(&self, start: SectorIndex) -> (r: LinkedListIter<'_>)
        ensures
            r.curr == start,
            *r.sectors == self.sectors,
    {
        LinkedListIter { curr: start, sectors: &self.sectors }
    }

    /// Pops a sector from the free stack. An `Ok` index is in-bounds and non-NIL; the sector's
    /// data is not zeroed.
    #[inline(always)]
    fn acquire_free_sector(&mut self) -> (r: Result<SectorIndex, DropsetError>)
        requires
            old(self).wf(),
        ensures
            final(self).sectors == old(self).sectors,
            final(self).wf(),
            (r is Ok <==> old(self).chains().free.len() > 0),
            r is Ok ==> r == Ok::<SectorIndex, DropsetError>(old(self).chains().free[0])
                && final(self).chains() == (Chains {
                free: old(self).chains().free.drop_first(),
                ..old(self).chains()
            }) && final(self).header@ == (HeaderView {
                free_stack_top: final(self).header@.free_stack_top,
                num_free_sectors: old(self).header@.num_free_sectors.wrapping_sub(1),
                ..old(self).header@
            }),
            r is Err ==> r == Err::<SectorIndex, DropsetError>(
                DropsetError::NoFreeSectorsRemaining,
            ) && final(self).header@ == old(self).header@,
    {
        let r = pop_free_sector_from(&mut self.header, &self.sectors);
        proof {
            let c = chains_of(old(self).header@, old(self).sectors@);
            assert(realizes(c, old(self).header@, old(self).sectors@));
        }
        r
    }

    /// Inserts a new sector holding `payload` at the front of the list, taking it from the free
    /// stack. Returns the new sector's index.
    #[verifier::rlimit(40)]
    #[verifier::spinoff_prover]
    pub fn push_front(&mut self, payload: &[u8; PAYLOAD_SIZE]) -> (r: Result<
        SectorIndex,
        DropsetError,
    >)
        requires
            old(self).wf(),
        ensures
            final(self).wf(),
            final(self).sectors@.len() == old(self).sectors@.len(),
            final(self).header@.same_metadata(old(self).header@),
            old(self).chains().free.len() == 0 ==> r == Err::<SectorIndex, DropsetError>(
                DropsetError::NoFreeSectorsRemaining,
            ) && final(self).header@ == old(self).header@ && final(self).sectors@
                == old(self).sectors@,
            old(self).chains().free.len() > 0 ==> {
                let c = old(self).chains();
                let n = c.free[0];
                &&& r == Ok::<SectorIndex, DropsetError>(n)
                &&& final(self).chains() == chains_after_insert(
                    c,
                    T::kind(),
                    seq![n].add(c.list(T::kind())),
                )
                &&& final(self).sectors@[n as int]@.payload == payload@
                &&& forall|i: int|
                    0 <= i < old(self).sectors@.len() && i != n ==> (#[trigger] final(self).sectors@[i])@.payload == old(self).sectors@[i]@.payload
                &&& final(self).header@.num_free_sectors
                    == old(self).header@.num_free_sectors.wrapping_sub(1)
            },
    {
        let ghost h0 = self.header@;
        let ghost s0 = self.sectors@;
        let ghost c = chains_of(h0, s0);
        let ghost k = T::kind();
        proof {
            assert(realizes(c, h0, s0));
            lemma_realizes_by_parts(c, h0, s0);
        }
        let new_index = match self.acquire_free_sector() {
            Ok(i) => i,
            Err(e) => {
                return Err(e);
            },
        };
        let ghost h1 = self.header@;
        let ghost l = c.list(k);
        let head_index = T::head(&self.header);
        proof {
            assert(c.free.contains(new_index));
            lemma_lists_disjoint(c, k, k);
            assert(!l.contains(new_index));
            assert(head_index == h0.head_of(k));
        }
        self.sectors[new_index as usize].set_payload(payload);
        self.sectors[new_index as usize].set_prev(NIL);
        self.sectors[new_index as usize].set_next(head_index);
        if head_index == NIL {
            T::set_tail(&mut self.header, new_index);
        } else {
            self.sectors[head_index as usize].set_prev(new_index);
        }
        T::set_head(&mut self.header, new_index);
        T::increment_num_elements(&mut self.header);
        proof {
            let h = self.header@;
            let s = self.sectors@;
            let l2 = seq![new_index].add(l);
            let free2 = c.free.drop_first();
            let c2 = (Chains { free: free2, ..c }).with_list(k, l2);
            // The counter does not wrap: the list and the new sector are distinct sectors.
            assert forall|i: int| 0 <= i < l2.len() implies (#[trigger] l2[i] as nat)
                < s0.len() by {
                if i > 0 {
                    assert(l2[i] == l[i - 1]);
                }
            }
            assert(l2.no_duplicates());
            lemma_distinct_bounded(l2, s0.len());
            assert(h.count_of(k) == l2.len());
            // The list of kind `k` is relinked.
            assert forall|i: int| 0 <= i < l2.len() implies (#[trigger] s[l2[i] as int])@.next == (
            if i + 1 < l2.len() {
                l2[i + 1]
            } else {
                NIL
            }) && s[l2[i] as int]@.prev == (if i > 0 {
                l2[i - 1]
            } else {
                NIL
            }) by {
                if i > 0 {
                    assert(l2[i] == l[i - 1]);
                    assert(s0[l[i - 1] as int]@.next == (if i < l.len() {
                        l[i]
                    } else {
                        NIL
                    }));
                    assert(s0[l[i - 1] as int]@.prev == (if i > 1 {
                        l[i - 2]
                    } else {
                        NIL
                    }));
                }
            }
            assert(list_ok(c2, h, s, k));
            // The other lists and the free stack do not hold the changed sectors.
            assert forall|j: ListKind| j != k implies list_ok(c2, h, s, j) by {
                lemma_lists_disjoint(c, j, k);
                let lj = c.list(j);
                assert forall|i: int| 0 <= i < lj.len() implies s[#[trigger] lj[i] as int] == s0[lj[i] as int] by {
                    assert(lj[i] != new_index);
                    if l.len() > 0 {
                        assert(lj[i] != l[0]);
                    }
                }
                lemma_dll_frame(s0, s, lj, h0.head_of(j), h0.tail_of(j), h0.count_of(j));
            }
            assert forall|i: int| 0 <= i < free2.len() implies s[#[trigger] free2[i] as int]
                == s0[free2[i] as int] by {
                assert(free2[i] == c.free[i + 1]);
                if l.len() > 0 {
                    assert(free2[i] != l[0]);
                }
            }
            assert(next_linked(s0, free2, h1.free_stack_top));
            lemma_next_linked_frame(s0, s, free2, h1.free_stack_top);
            assert forall|j: ListKind| j != k implies l2.disjoint(#[trigger] c.list(j)) by {
                lemma_lists_disjoint(c, j, k);
            }
            assert forall|j: ListKind| j != k implies free2.disjoint(#[trigger] c.list(j)) by {
                lemma_lists_disjoint(c, j, k);
            }
            lemma_disjoint_replace(c, k, l2, free2);
            lemma_realizes_by_parts(c2, h, s);
            lemma_chains_of(c2, h, s);
        }
        Ok(new_index)
    }

    /// Inserts a new sector holding `payload` at the back of the list, taking it from the free
    /// stack. Returns the new sector's index.
    #[verifier::rlimit(40)]
    #[verifier::spinoff_prover]
    pub fn push_back(&mut self, payload: &[u8; PAYLOAD_SIZE]) -> (r: Result<
        SectorIndex,
        DropsetError,
    >)
        requires
            old(self).wf(),
        ensures
            final(self).wf(),
            final(self).sectors@.len() == old(self).sectors@.len(),
            final(self).header@.same_metadata(old(self).header@),
            old(self).chains().free.len() == 0 ==> r == Err::<SectorIndex, DropsetError>(
                DropsetError::NoFreeSectorsRemaining,
            ) && final(self).header@ == old(self).header@ && final(self).sectors@
                == old(self).sectors@,
            old(self).chains().free.len() > 0 ==> {
                let c = old(self).chains();
                let n = c.free[0];
                &&& r == Ok::<SectorIndex, DropsetError>(n)
                &&& final(self).chains() == chains_after_insert(c, T::kind(), c.list(T::kind()).push(n))
                &&& final(self).sectors@[n as int]@.payload == payload@
                &&& forall|i: int|
                    0 <= i < old(self).sectors@.len() && i != n ==> (#[trigger] final(self).sectors@[i])@.payload == old(self).sectors@[i]@.payload
                &&& final(self).header@.num_free_sectors
                    == old(self).header@.num_free_sectors.wrapping_sub(1)
            },
    {
        let ghost h0 = self.header@;
        let ghost s0 = self.sectors@;
        let ghost c = chains_of(h0, s0);
        let ghost k = T::kind();
        proof {
            assert(realizes(c, h0, s0));
            lemma_realizes_by_parts(c, h0, s0);
        }
        let new_index = match self.acquire_free_sector() {
            Ok(i) => i,
            Err(e) => {
                return Err(e);
            },
        };
        let ghost h1 = self.header@;
        let ghost l = c.list(k);
        let tail_index = T::tail(&self.header);
        proof {
            assert(c.free.contains(new_index));
            lemma_lists_disjoint(c, k, k);
            assert(!l.contains(new_index));
        }
        self.sectors[new_index as usize].set_payload(payload);
        self.sectors[new_index as usize].set_prev(tail_index);
        self.sectors[new_index as usize].set_next(NIL);
        if tail_index == NIL {
            T::set_head(&mut self.header, new_index);
        } else {
            self.sectors[tail_index as usize].set_next(new_index);
        }
        T::set_tail(&mut self.header, new_index);
        T::increment_num_elements(&mut self.header);
        proof {
            let h = self.header@;
            let s = self.sectors@;
            let l2 = l.push(new_index);
            let free2 = c.free.drop_first();
            let c2 = (Chains { free: free2, ..c }).with_list(k, l2);
            assert forall|i: int| 0 <= i < l2.len() implies (#[trigger] l2[i] as nat)
                < s0.len() by {
                if i < l.len() {
                    assert(l2[i] == l[i]);
                }
            }
            assert(l2.no_duplicates());
            lemma_distinct_bounded(l2, s0.len());
            assert(h.count_of(k) == l2.len());
            assert forall|i: int| 0 <= i < l2.len() implies (#[trigger] s[l2[i] as int])@.next == (
            if i + 1 < l2.len() {
                l2[i + 1]
            } else {
                NIL
            }) && s[l2[i] as int]@.prev == (if i > 0 {
                l2[i - 1]
            } else {
                NIL
            }) by {
                if i < l.len() {
                    assert(l2[i] == l[i]);
                    assert(s0[l[i] as int]@.next == (if i + 1 < l.len() {
                        l[i + 1]
                    } else {
                        NIL
                    }));
                    assert(s0[l[i] as int]@.prev == (if i > 0 {
                        l[i - 1]
                    } else {
                        NIL
                    }));
                }
            }
            assert(list_ok(c2, h, s, k));
            assert forall|j: ListKind| j != k implies list_ok(c2, h, s, j) by {
                lemma_lists_disjoint(c, j, k);
                let lj = c.list(j);
                assert forall|i: int| 0 <= i < lj.len() implies s[#[trigger] lj[i] as int] == s0[lj[i] as int] by {
                    assert(lj[i] != new_index);
                    if l.len() > 0 {
                        assert(lj[i] != l[l.len() - 1]);
                    }
                }
                lemma_dll_frame(s0, s, lj, h0.head_of(j), h0.tail_of(j), h0.count_of(j));
            }
            assert forall|i: int| 0 <= i < free2.len() implies s[#[trigger] free2[i] as int]
                == s0[free2[i] as int] by {
                assert(free2[i] == c.free[i + 1]);
                if l.len() > 0 {
                    assert(free2[i] != l[l.len() - 1]);
                }
            }
            assert(next_linked(s0, free2, h1.free_stack_top));
            lemma_next_linked_frame(s0, s, free2, h1.free_stack_top);
            assert forall|j: ListKind| j != k implies l2.disjoint(#[trigger] c.list(j)) by {
                lemma_lists_disjoint(c, j, k);
            }
            assert forall|j: ListKind| j != k implies free2.disjoint(#[trigger] c.list(j)) by {
                lemma_lists_disjoint(c, j, k);
            }
            lemma_disjoint_replace(c, k, l2, free2);
            lemma_realizes_by_parts(c2, h, s);
            lemma_chains_of(c2, h, s);
        }
        Ok(new_index)
    }

    /// Inserts a new sector holding `payload` directly before the list element `next_index`,
    /// taking it from the free stack. Returns the new sector's index.
    #[verifier::rlimit(60)]
    #[verifier::spinoff_prover]
    pub fn insert_before(&mut self, next_index: SectorIndex, payload: &[u8; PAYLOAD_SIZE]) -> (r:
        Result<SectorIndex, DropsetError>)
        requires
            old(self).wf(),
            old(self).indices().contains(next_index),
        ensures
            final(self).wf(),
            final(self).sectors@.len() == old(self).sectors@.len(),
            final(self).header@.same_metadata(old(self).header@),
            old(self).chains().free.len() == 0 ==> r == Err::<SectorIndex, DropsetError>(
                DropsetError::NoFreeSectorsRemaining,
            ) && final(self).header@ == old(self).header@ && final(self).sectors@
                == old(self).sectors@,
            old(self).chains().free.len() > 0 ==> {
                let c = old(self).chains();
                let n = c.free[0];
                let l = c.list(T::kind());
                &&& r == Ok::<SectorIndex, DropsetError>(n)
                &&& final(self).chains() == chains_after_insert(
                    c,
                    T::kind(),
                    l.insert(l.index_of(next_index), n),
                )
                &&& final(self).sectors@[n as int]@.payload == payload@
                &&& forall|i: int|
                    0 <= i < old(self).sectors@.len() && i != n ==> (#[trigger] final(self).sectors@[i])@.payload == old(self).sectors@[i]@.payload
                &&& final(self).header@.num_free_sectors
                    == old(self).header@.num_free_sectors.wrapping_sub(1)
            },
    {
        let ghost h0 = self.header@;
        let ghost s0 = self.sectors@;
        let ghost c = chains_of(h0, s0);
        let ghost k = T::kind();
        let ghost l = c.list(k);
        let ghost pos = l.index_of(next_index);
        proof {
            assert(realizes(c, h0, s0));
            lemma_realizes_by_parts(c, h0, s0);
            lemma_lists_disjoint(c, k, k);
            assert(l[pos] == next_index);
        }
        let new_index = match self.acquire_free_sector() {
            Ok(i) => i,
            Err(e) => {
                return Err(e);
            },
        };
        let ghost h1 = self.header@;
        proof {
            assert(c.free.contains(new_index));
            assert(!l.contains(new_index));
            assert(s0[l[pos] as int]@.prev == (if pos > 0 { l[pos - 1] } else { NIL }));
        }
        let prev_index = self.sectors[next_index as usize].prev();
        self.sectors[next_index as usize].set_prev(new_index);
        self.sectors[new_index as usize].set_prev(prev_index);
        self.sectors[new_index as usize].set_next(next_index);
        self.sectors[new_index as usize].set_payload(payload);
        if prev_index == NIL {
            T::set_head(&mut self.header, new_index);
        } else {
            self.sectors[prev_index as usize].set_next(new_index);
        }
        T::increment_num_elements(&mut self.header);
        proof {
            let h = self.header@;
            let s = self.sectors@;
            let l2 = l.insert(pos, new_index);
            let free2 = c.free.drop_first();
            let c2 = (Chains { free: free2, ..c }).with_list(k, l2);
            assert(l2.len() == l.len() + 1);
            assert forall|i: int| 0 <= i < l2.len() implies l2[i] == (if i < pos {
                l[i]
            } else if i == pos {
                new_index
            } else {
                l[i - 1]
            }) by {}
            assert forall|i: int| 0 <= i < l2.len() implies (#[trigger] l2[i] as nat)
                < s0.len() by {}
            assert(l2.no_duplicates()) by {
                assert forall|a: int, b: int| 0 <= a < l2.len() && 0 <= b < l2.len() && a != b implies l2[a]
                    != l2[b] by {
                    if a != pos && b != pos {
                        let a0 = if a < pos { a } else { a - 1 };
                        let b0 = if b < pos { b } else { b - 1 };
                        assert(l2[a] == l[a0]);
                        assert(l2[b] == l[b0]);
                    }
                }
            }
            lemma_distinct_bounded(l2, s0.len());
            assert(h.count_of(k) == l2.len());
            if pos > 0 {
                assert(h.head_of(k) == h0.head_of(k));
            }
            assert forall|i: int| 0 <= i < l2.len() implies (#[trigger] s[l2[i] as int])@.next == (
            if i + 1 < l2.len() {
                l2[i + 1]
            } else {
                NIL
            }) && s[l2[i] as int]@.prev == (if i > 0 {
                l2[i - 1]
            } else {
                NIL
            }) by {
                if i < pos {
                    assert(s0[l[i] as int]@.next == (if i + 1 < l.len() {
                        l[i + 1]
                    } else {
                        NIL
                    }));
                    assert(s0[l[i] as int]@.prev == (if i > 0 {
                        l[i - 1]
                    } else {
                        NIL
                    }));
                } else if i > pos {
                    assert(s0[l[i - 1] as int]@.next == (if i < l.len() {
                        l[i]
                    } else {
                        NIL
                    }));
                    assert(s0[l[i - 1] as int]@.prev == (if i > 1 {
                        l[i - 2]
                    } else {
                        NIL
                    }));
                }
            }
            assert(list_ok(c2, h, s, k));
            assert forall|j: ListKind| j != k implies list_ok(c2, h, s, j) by {
                lemma_lists_disjoint(c, j, k);
                let lj = c.list(j);
                assert forall|i: int| 0 <= i < lj.len() implies s[#[trigger] lj[i] as int] == s0[lj[i] as int] by {
                    assert(lj[i] != new_index);
                    assert(lj[i] != l[pos]);
                    if pos > 0 {
                        assert(lj[i] != l[pos - 1]);
                    }
                }
                lemma_dll_frame(s0, s, lj, h0.head_of(j), h0.tail_of(j), h0.count_of(j));
            }
            assert forall|i: int| 0 <= i < free2.len() implies s[#[trigger] free2[i] as int]
                == s0[free2[i] as int] by {
                assert(free2[i] == c.free[i + 1]);
                assert(free2[i] != l[pos]);
                if pos > 0 {
                    assert(free2[i] != l[pos - 1]);
                }
            }
            assert(next_linked(s0, free2, h1.free_stack_top));
            lemma_next_linked_frame(s0, s, free2, h1.free_stack_top);
            assert forall|j: ListKind| j != k implies l2.disjoint(#[trigger] c.list(j)) by {
                lemma_lists_disjoint(c, j, k);
                let lj = c.list(j);
                assert forall|a: int, b: int| 0 <= a < l2.len() && 0 <= b < lj.len() implies l2[a]
                    != lj[b] by {
                    if a != pos {
                        let a0 = if a < pos { a } else { a - 1 };
                        assert(l2[a] == l[a0]);
                    }
                }
            }
            assert forall|j: ListKind| j != k implies free2.disjoint(#[trigger] c.list(j)) by {
                lemma_lists_disjoint(c, j, k);
            }
            assert(l2.disjoint(free2)) by {
                assert forall|a: int, b: int| 0 <= a < l2.len() && 0 <= b < free2.len() implies l2[a]
                    != free2[b] by {
                    assert(free2[b] == c.free[b + 1]);
                    if a != pos {
                        let a0 = if a < pos { a } else { a - 1 };
                        assert(l2[a] == l[a0]);
                    }
                }
            }
            lemma_disjoint_replace(c, k, l2, free2);
            lemma_realizes_by_parts(c2, h, s);
            lemma_chains_of(c2, h, s);
        }
        Ok(new_index)
    }

    /// Removes the list element at `index`, relinking its neighbors, and pushes its sector onto
    /// the free stack with a zeroed payload.
    #[verifier::rlimit(60)]
    #[verifier::spinoff_prover]
    pub fn remove_at(&mut self, index: SectorIndex)
        requires
            old(self).wf(),
            old(self).indices().contains(index),
        ensures
            final(self).wf(),
            final(self).sectors@.len() == old(self).sectors@.len(),
            final(self).header@.same_metadata(old(self).header@),
            final(self).header@.num_free_sectors == old(self).header@.num_free_sectors.wrapping_add(1),
            final(self).chains() == chains_after_removal(old(self).chains(), T::kind(), index),
            final(self).sectors@[index as int]@.payload == zeroed_payload(),
            forall|i: int|
                0 <= i < old(self).sectors@.len() && i != index ==> (#[trigger] final(self).sectors@[i])@.payload == old(self).sectors@[i]@.payload,
    {
        let ghost h0 = self.header@;
        let ghost s0 = self.sectors@;
        let ghost c = chains_of(h0, s0);
        let ghost k = T::kind();
        let ghost l = c.list(k);
        let ghost pos = l.index_of(index);
        proof {
            assert(realizes(c, h0, s0));
            lemma_realizes_by_parts(c, h0, s0);
            lemma_lists_disjoint(c, k, k);
            assert(l[pos] == index);
            assert(s0[l[pos] as int]@.prev == (if pos > 0 { l[pos - 1] } else { NIL }));
            assert(s0[l[pos] as int]@.next == (if pos + 1 < l.len() { l[pos + 1] } else { NIL }));
        }
        let prev_index = self.sectors[index as usize].prev();
        let next_index = self.sectors[index as usize].next();
        if prev_index == NIL {
            T::set_head(&mut self.header, next_index);
        } else {
            self.sectors[prev_index as usize].set_next(next_index);
        }
        if next_index == NIL {
            T::set_tail(&mut self.header, prev_index);
        } else {
            self.sectors[next_index as usize].set_prev(prev_index);
        }
        T::decrement_num_elements(&mut self.header);
        proof {
            let h = self.header@;
            let s = self.sectors@;
            let l2 = l.remove(pos);
            let c2 = c.with_list(k, l2);
            assert(l2.len() == l.len() - 1);
            assert forall|i: int| 0 <= i < l2.len() implies l2[i] == (if i < pos {
                l[i]
            } else {
                l[i + 1]
            }) by {}
            assert forall|i: int| 0 <= i < l2.len() implies (#[trigger] l2[i] as int) < s0.len() by {}
            assert(l2.no_duplicates()) by {
                assert forall|a: int, b: int| 0 <= a < l2.len() && 0 <= b < l2.len() && a != b implies l2[a]
                    != l2[b] by {
                    let a0 = if a < pos { a } else { a + 1 };
                    let b0 = if b < pos { b } else { b + 1 };
                    assert(l2[a] == l[a0]);
                    assert(l2[b] == l[b0]);
                }
            }
            assert(h.count_of(k) == l2.len());
            assert forall|i: int| 0 <= i < l2.len() implies (#[trigger] s[l2[i] as int])@.next == (
            if i + 1 < l2.len() {
                l2[i + 1]
            } else {
                NIL
            }) && s[l2[i] as int]@.prev == (if i > 0 {
                l2[i - 1]
            } else {
                NIL
            }) by {
                if i < pos {
                    assert(s0[l[i] as int]@.next == (if i + 1 < l.len() {
                        l[i + 1]
                    } else {
                        NIL
                    }));
                    assert(s0[l[i] as int]@.prev == (if i > 0 {
                        l[i - 1]
                    } else {
                        NIL
                    }));
                } else {
                    assert(s0[l[i + 1] as int]@.next == (if i + 2 < l.len() {
                        l[i + 2]
                    } else {
                        NIL
                    }));
                    assert(s0[l[i + 1] as int]@.prev == l[i]);
                }
            }
            assert(list_ok(c2, h, s, k));
            assert forall|j: ListKind| j != k implies list_ok(c2, h, s, j) by {
                lemma_lists_disjoint(c, j, k);
                let lj = c.list(j);
                assert forall|i: int| 0 <= i < lj.len() implies s[#[trigger] lj[i] as int] == s0[lj[i] as int] by {
                    if pos > 0 {
                        assert(lj[i] != l[pos - 1]);
                    }
                    if pos + 1 < l.len() {
                        assert(lj[i] != l[pos + 1]);
                    }
                }
                lemma_dll_frame(s0, s, lj, h0.head_of(j), h0.tail_of(j), h0.count_of(j));
            }
            assert forall|i: int| 0 <= i < c.free.len() implies s[#[trigger] c.free[i] as int]
                == s0[c.free[i] as int] by {
                if pos > 0 {
                    assert(c.free[i] != l[pos - 1]);
                }
                if pos + 1 < l.len() {
                    assert(c.free[i] != l[pos + 1]);
                }
            }
            lemma_next_linked_frame(s0, s, c.free, h0.free_stack_top);
            assert forall|j: ListKind| j != k implies l2.disjoint(#[trigger] c.list(j)) by {
                lemma_lists_disjoint(c, j, k);
                let lj = c.list(j);
                assert forall|a: int, b: int| 0 <= a < l2.len() && 0 <= b < lj.len() implies l2[a]
                    != lj[b] by {
                    let a0 = if a < pos { a } else { a + 1 };
                    assert(l2[a] == l[a0]);
                }
            }
            assert forall|j: ListKind| j != k implies c.free.disjoint(#[trigger] c.list(j)) by {
                lemma_lists_disjoint(c, j, k);
            }
            assert(l2.disjoint(c.free)) by {
                assert forall|a: int, b: int| 0 <= a < l2.len() && 0 <= b < c.free.len() implies l2[a]
                    != c.free[b] by {
                    let a0 = if a < pos { a } else { a + 1 };
                    assert(l2[a] == l[a0]);
                }
            }
            lemma_disjoint_replace(c, k, l2, c.free);
            assert((Chains { free: c.free, ..c }) == c);
            lemma_realizes_by_parts(c2, h, s);
            lemma_chains_of(c2, h, s);
            // The removed sector is held by no chain now.
            assert forall|j: ListKind| j != k implies !(#[trigger] c.list(j)).contains(index) by {
                lemma_lists_disjoint(c, j, k);
            }
            assert(!l2.contains(index)) by {
                if l2.contains(index) {
                    let a = choose|a: int| 0 <= a < l2.len() && l2[a] == index;
                    let a0 = if a < pos { a } else { a + 1 };
                    assert(l2[a] == l[a0]);
                }
            }
            assert(!c.free.contains(index));
            assert(c2.list(ListKind::Seats) == c2.seats);
            assert(c2.list(ListKind::Bids) == c2.bids);
            assert(c2.list(ListKind::Asks) == c2.asks);
            assert(!c2.holds(index));
        }
        push_free_sector_to(&mut self.header, &mut self.sectors, index);
    }
}

/// The chains after an insertion into list `k` that took the sector on top of the free stack and
/// left the list as `l`.
pub open spec fn chains_after_insert(c: Chains, k: ListKind, l: Seq<SectorIndex>) -> Chains {
    (Chains { free: c.free.drop_first(), ..c }).with_list(k, l)
}

/// The chains after removing sector `x` from list `k` and pushing it onto the free stack.
pub open spec fn chains_after_removal(c: Chains, k: ListKind, x: SectorIndex) -> Chains {
    let l = c.list(k);
    (Chains { free: seq![x].add(c.free), ..c }).with_list(k, l.remove(l.index_of(x)))
}

/// Removing the sector that an insertion placed gives back the chains from before the insertion,
/// its list and the free stack alike, wherever the insertion put it: at the front, at the back or
/// before any element.
pub proof fn lemma_remove_undoes_insert(c: Chains, k: ListKind)
    requires
        c.disjoint(),
        c.free.len() > 0,
    ensures
        forall|p: int|
            0 <= p <= c.list(k).len() ==> chains_after_removal(
                chains_after_insert(c, k, #[trigger] c.list(k).insert(p, c.free[0])),
                k,
                c.free[0],
            ) == c,
        chains_after_removal(chains_after_insert(c, k, seq![c.free[0]].add(c.list(k))), k, c.free[0])
            == c,
        chains_after_removal(chains_after_insert(c, k, c.list(k).push(c.free[0])), k, c.free[0])
            == c,
{
    let n = c.free[0];
    let l = c.list(k);
    lemma_lists_disjoint(c, k, k);
    assert(!l.contains(n)) by {
        if l.contains(n) {
            let j = choose|j: int| 0 <= j < l.len() && l[j] == n;
            match k {
                ListKind::Seats => assert(!c.free.contains(l[j])),
                ListKind::Bids => assert(!c.free.contains(l[j])),
                ListKind::Asks => assert(!c.free.contains(l[j])),
            }
            assert(c.free[0] == n);
        }
    }
    assert forall|p: int| 0 <= p <= l.len() implies chains_after_removal(
        chains_after_insert(c, k, #[trigger] l.insert(p, n)),
        k,
        n,
    ) == c by {
        let l1 = l.insert(p, n);
        let c1 = chains_after_insert(c, k, l1);
        assert(c1.list(k) == l1);
        assert(l1[p] == n);
        assert forall|j: int| 0 <= j < l1.len() && j != p implies l1[j] != n by {
            if j < p {
                assert(l1[j] == l[j]);
            } else {
                assert(l1[j] == l[j - 1]);
            }
        }
        assert(l1.index_of(n) == p) by {
            assert(l1.contains(n));
            let q = l1.index_of(n);
            assert(l1[q] == n);
        }
        assert(l1.remove(p) =~= l);
        assert(seq![n].add(c.free.drop_first()) =~= c.free);
    }
    assert(seq![n].add(l) =~= l.insert(0, n));
    assert(l.push(n) =~= l.insert(l.len() as int, n));
}

/// The free sector counter keeps counting the free stack: when a well-formed market's counter
/// equals the length of its free stack, an insertion (which takes the top sector and decrements the
/// counter) and a removal (which pushes the sector and increments the counter) leave them equal.
pub proof fn lemma_free_count_tracks(c: Chains, h: HeaderView, s: Seq<Sector>, k: ListKind, x: SectorIndex, l: Seq<SectorIndex>)
    requires
        realizes(c, h, s),
        h.num_free_sectors == c.free.len(),
    ensures
        c.free.len() > 0 ==> h.num_free_sectors.wrapping_sub(1) == chains_after_insert(c, k, l).free.len(),
        h.num_free_sectors.wrapping_add(1) == chains_after_removal(c, k, x).free.len(),
{
    lemma_distinct_bounded(c.free, s.len());
    assert(chains_after_insert(c, k, l).free == c.free.drop_first()) by {
        match k {
            ListKind::Seats => {},
            ListKind::Bids => {},
            ListKind::Asks => {},
        }
    }
    assert(chains_after_removal(c, k, x).free == seq![x].add(c.free)) by {
        match k {
            ListKind::Seats => {},
            ListKind::Bids => {},
            ListKind::Asks => {},
        }
    }
}

} // verus!
//! A market's account data: its [`MarketHeader`] followed by its sectors, and the structural
//! model that relates the two: the seat, bid and ask lists and the free stack.
use vstd::prelude::*;

use crate::state::linked_list::LinkedListIter;
use crate::state::free_stack::Stack;
use crate::le_bytes::{le_u32_at, le_u64_at, lemma_le_u32_at_subrange};
use crate::state::market_header::{
    lemma_header_layout, HeaderView, MarketHeader, MARKET_ACCOUNT_DISCRIMINANT, MARKET_HEADER_SIZE,
};
use crate::state::seats_dll::SeatsLinkedList;
use crate::state::sector::{lemma_sector_layout, Sector, SectorIndex, NIL, SECTOR_SIZE};
use crate::state::transmutable::Transmutable;
use crate::state::linked_list::LinkedList;

verus! {

/// The three doubly linked lists kept in a market's sectors.
#[derive(Clone, Copy, Debug, PartialEq, Eq, Structural)]
pub enum ListKind {
    Seats,
    Bids,
    Asks,
}

impl HeaderView {
    /// The head of the list of kind `k`.
    pub open spec fn head_of(self, k: ListKind) -> SectorIndex {
        match k {
            ListKind::Seats => self.seats_dll_head,
            ListKind::Bids => self.bids_dll_head,
            ListKind::Asks => self.asks_dll_head,
        }
    }

    /// The tail of the list of kind `k`.
    pub open spec fn tail_of(self, k: ListKind) -> SectorIndex {
        match k {
            ListKind::Seats => self.seats_dll_tail,
            ListKind::Bids => self.bids_dll_tail,
            ListKind::Asks => self.asks_dll_tail,
        }
    }

    /// The element counter of the list of kind `k`.
    pub open spec fn count_of(self, k: ListKind) -> u32 {
        match k {
            ListKind::Seats => self.num_seats,
            ListKind::Bids => self.num_bids,
            ListKind::Asks => self.num_asks,
        }
    }

    /// This header with the head of list `k` replaced.
    pub open spec fn with_head(self, k: ListKind, i: SectorIndex) -> HeaderView {
        match k {
            ListKind::Seats => HeaderView { seats_dll_head: i, ..self },
            ListKind::Bids => HeaderView { bids_dll_head: i, ..self },
            ListKind::Asks => HeaderView { asks_dll_head: i, ..self },
        }
    }

    /// This header with the tail of list `k` replaced.
    pub open spec fn with_tail(self, k: ListKind, i: SectorIndex) -> HeaderView {
        match k {
            ListKind::Seats => HeaderView { seats_dll_tail: i, ..self },
            ListKind::Bids => HeaderView { bids_dll_tail: i, ..self },
            ListKind::Asks => HeaderView { asks_dll_tail: i, ..self },
        }
    }

    /// This header with the counter of list `k` replaced.
    pub open spec fn with_count(self, k: ListKind, n: u32) -> HeaderView {
        match k {
            ListKind::Seats => HeaderView { num_seats: n, ..self },
            ListKind::Bids => HeaderView { num_bids: n, ..self },
            ListKind::Asks => HeaderView { num_asks: n, ..self },
        }
    }

    /// The header fields that no list or free stack operation touches are those of `other`.
    pub open spec fn same_metadata(self, other: HeaderView) -> bool {
        &&& self.discriminant == other.discriminant
        &&& self.base_mint == other.base_mint
        &&& self.quote_mint == other.quote_mint
        &&& self.market_bump == other.market_bump
        &&& self.num_events == other.num_events
    }
}

/// The sector indices of each linked structure, in link order: each list from head to tail and
/// the free stack from top to bottom.
pub struct Chains {
    pub seats: Seq<SectorIndex>,
    pub bids: Seq<SectorIndex>,
    pub asks: Seq<SectorIndex>,
    pub free: Seq<SectorIndex>,
}

impl Chains {
    /// The list of kind `k`.
    pub open spec fn list(self, k: ListKind) -> Seq<SectorIndex> {
        match k {
            ListKind::Seats => self.seats,
            ListKind::Bids => self.bids,
            ListKind::Asks => self.asks,
        }
    }

    /// These chains with list `k` replaced.
    pub open spec fn with_list(self, k: ListKind, l: Seq<SectorIndex>) -> Chains {
        match k {
            ListKind::Seats => Chains { seats: l, ..self },
            ListKind::Bids => Chains { bids: l, ..self },
            ListKind::Asks => Chains { asks: l, ..self },
        }
    }

    /// Whether `x` is an element of any chain.
    pub open spec fn holds(self, x: SectorIndex) -> bool {
        self.seats.contains(x) || self.bids.contains(x) || self.asks.contains(x)
            || self.free.contains(x)
    }

    /// No sector index occurs twice, within one chain or across chains.
    pub open spec fn disjoint(self) -> bool {
        &&& self.seats.no_duplicates()
        &&& self.bids.no_duplicates()
        &&& self.asks.no_duplicates()
        &&& self.free.no_duplicates()
        &&& self.seats.disjoint(self.bids)
        &&& self.seats.disjoint(self.asks)
        &&& self.seats.disjoint(self.free)
        &&& self.bids.disjoint(self.asks)
        &&& self.bids.disjoint(self.free)
        &&& self.asks.disjoint(self.free)
    }
}

/// Every element of `l` indexes a sector of `s`.
pub open spec fn in_bounds(s: Seq<Sector>, l: Seq<SectorIndex>) -> bool {
    forall|i: int| 0 <= i < l.len() ==> (#[trigger] l[i] as int) < s.len()
}

/// `l` is linked through the `next` fields of `s`, starting at `head` and ending with `NIL`.
pub open spec fn next_linked(s: Seq<Sector>, l: Seq<SectorIndex>, head: SectorIndex) -> bool {
    &&& in_bounds(s, l)
    &&& head == (if l.len() == 0 { NIL } else { l[0] })
    &&& forall|i: int|
        0 <= i < l.len() ==> (#[trigger] s[l[i] as int])@.next == (if i + 1 < l.len() {
            l[i + 1]
        } else {
            NIL
        })
}

/// `l` is linked through the `prev` fields of `s`, ending at `tail` and starting with `NIL`.
pub open spec fn prev_linked(s: Seq<Sector>, l: Seq<SectorIndex>, tail: SectorIndex) -> bool {
    &&& tail == (if l.len() == 0 { NIL } else { l[l.len() - 1] })
    &&& forall|i: int|
        0 <= i < l.len() ==> (#[trigger] s[l[i] as int])@.prev == (if i > 0 {
            l[i - 1]
        } else {
            NIL
        })
}

/// `l` is a doubly linked list of `s` with the given head, tail and element counter.
pub open spec fn dll_ok(
    s: Seq<Sector>,
    l: Seq<SectorIndex>,
    head: SectorIndex,
    tail: SectorIndex,
    count: u32,
) -> bool {
    &&& next_linked(s, l, head)
    &&& prev_linked(s, l, tail)
    &&& count == l.len()
}

/// `c` describes the structures that `h` and `s` hold: three doubly linked lists and the free
/// stack, all disjoint, in a sector array small enough that `NIL` indexes no sector.
pub open spec fn realizes(c: Chains, h: HeaderView, s: Seq<Sector>) -> bool {
    &&& s.len() < NIL
    &&& dll_ok(s, c.seats, h.seats_dll_head, h.seats_dll_tail, h.num_seats)
    &&& dll_ok(s, c.bids, h.bids_dll_head, h.bids_dll_tail, h.num_bids)
    &&& dll_ok(s, c.asks, h.asks_dll_head, h.asks_dll_tail, h.num_asks)
    &&& next_linked(s, c.free, h.free_stack_top)
    &&& c.disjoint()
}

/// The header and sectors hold well-formed lists and a well-formed free stack.
pub open spec fn structures_wf(h: HeaderView, s: Seq<Sector>) -> bool {
    exists|c: Chains| #[trigger] realizes(c, h, s)
}

/// The lists and free stack that a well-formed header and sectors hold.
pub open spec fn chains_of(h: HeaderView, s: Seq<Sector>) -> Chains {
    choose|c: Chains| #[trigger] realizes(c, h, s)
}

/// Two chains linked from the same head through the same sectors are equal.
pub proof fn lemma_next_linked_unique(
    s: Seq<Sector>,
    l1: Seq<SectorIndex>,
    l2: Seq<SectorIndex>,
    head: SectorIndex,
)
    requires
        s.len() < NIL,
        next_linked(s, l1, head),
        next_linked(s, l2, head),
    ensures
        l1 == l2,
{
    let n = if l1.len() < l2.len() { l1.len() } else { l2.len() };
    assert forall|i: int| 0 <= i < n implies l1[i] == l2[i] by {
        lemma_next_linked_prefix(s, l1, l2, head, i);
    }
    if l1.len() < l2.len() {
        if l1.len() == 0 {
            assert(l2[0] == NIL);
            assert((l2[0] as int) < s.len());
        } else {
            let k = l1.len() - 1;
            assert(l1[k] == l2[k]);
            assert(s[l1[k] as int]@.next == NIL);
            assert(s[l2[k] as int]@.next == l2[k + 1]);
            assert((l2[k + 1] as int) < s.len());
        }
    } else if l2.len() < l1.len() {
        if l2.len() == 0 {
            assert(l1[0] == NIL);
            assert((l1[0] as int) < s.len());
        } else {
            let k = l2.len() - 1;
            assert(l1[k] == l2[k]);
            assert(s[l2[k] as int]@.next == NIL);
            assert(s[l1[k] as int]@.next == l1[k + 1]);
            assert((l1[k + 1] as int) < s.len());
        }
    }
    assert(l1 =~= l2);
}

proof fn lemma_next_linked_prefix(
    s: Seq<Sector>,
    l1: Seq<SectorIndex>,
    l2: Seq<SectorIndex>,
    head: SectorIndex,
    i: int,
)
    requires
        s.len() < NIL,
        next_linked(s, l1, head),
        next_linked(s, l2, head),
        0 <= i < l1.len(),
        i < l2.len(),
    ensures
        l1[i] == l2[i],
    decreases i,
{
    if i > 0 {
        lemma_next_linked_prefix(s, l1, l2, head, i - 1);
        assert(s[l1[i - 1] as int]@.next == l1[i]);
        assert(s[l2[i - 1] as int]@.next == l2[i]);
    }
}

/// The chains that a header and sectors realize are unique.
pub proof fn lemma_chains_unique(c1: Chains, c2: Chains, h: HeaderView, s: Seq<Sector>)
    requires
        realizes(c1, h, s),
        realizes(c2, h, s),
    ensures
        c1 == c2,
{
    lemma_next_linked_unique(s, c1.seats, c2.seats, h.seats_dll_head);
    lemma_next_linked_unique(s, c1.bids, c2.bids, h.bids_dll_head);
    lemma_next_linked_unique(s, c1.asks, c2.asks, h.asks_dll_head);
    lemma_next_linked_unique(s, c1.free, c2.free, h.free_stack_top);
}

/// Once chains are shown to be realized, they are the chains of the header and sectors.
pub proof fn lemma_chains_of(c: Chains, h: HeaderView, s: Seq<Sector>)
    requires
        realizes(c, h, s),
    ensures
        structures_wf(h, s),
        chains_of(h, s) == c,
{
    let d = chains_of(h, s);
    lemma_chains_unique(c, d, h, s);
}

/// The list of kind `k` is a doubly linked list of `s` described by the fields of `h`.
pub open spec fn list_ok(c: Chains, h: HeaderView, s: Seq<Sector>, k: ListKind) -> bool {
    dll_ok(s, c.list(k), h.head_of(k), h.tail_of(k), h.count_of(k))
}

/// `realizes` holds exactly when each of its parts holds, with the lists taken by kind.
pub proof fn lemma_realizes_by_parts(c: Chains, h: HeaderView, s: Seq<Sector>)
    ensures
        realizes(c, h, s) <==> {
            &&& s.len() < NIL
            &&& list_ok(c, h, s, ListKind::Seats)
            &&& list_ok(c, h, s, ListKind::Bids)
            &&& list_ok(c, h, s, ListKind::Asks)
            &&& next_linked(s, c.free, h.free_stack_top)
            &&& c.disjoint()
        },
{
}

/// The sectors at the elements of `l` are the same in `s` and `s2`.
pub open spec fn unchanged_on(s: Seq<Sector>, s2: Seq<Sector>, l: Seq<SectorIndex>) -> bool {
    &&& s2.len() == s.len()
    &&& forall|i: int| 0 <= i < l.len() ==> s2[#[trigger] l[i] as int] == s[l[i] as int]
}

/// A `next` chain stays linked when none of its sectors changes.
pub proof fn lemma_next_linked_frame(
    s: Seq<Sector>,
    s2: Seq<Sector>,
    l: Seq<SectorIndex>,
    head: SectorIndex,
)
    requires
        next_linked(s, l, head),
        unchanged_on(s, s2, l),
    ensures
        next_linked(s2, l, head),
{
    assert forall|i: int| 0 <= i < l.len() implies (#[trigger] s2[l[i] as int])@.next == (if i + 1
        < l.len() {
        l[i + 1]
    } else {
        NIL
    }) by {
        assert(s2[l[i] as int] == s[l[i] as int]);
    }
}

/// A doubly linked list stays linked when none of its sectors changes.
pub proof fn lemma_dll_frame(
    s: Seq<Sector>,
    s2: Seq<Sector>,
    l: Seq<SectorIndex>,
    head: SectorIndex,
    tail: SectorIndex,
    count: u32,
)
    requires
        dll_ok(s, l, head, tail, count),
        unchanged_on(s, s2, l),
    ensures
        dll_ok(s2, l, head, tail, count),
{
    lemma_next_linked_frame(s, s2, l, head);
    assert forall|i: int| 0 <= i < l.len() implies (#[trigger] s2[l[i] as int])@.prev == (if i
        > 0 {
        l[i - 1]
    } else {
        NIL
    }) by {
        assert(s2[l[i] as int] == s[l[i] as int]);
    }
}

/// The facts about two distinct lists that disjoint chains give.
pub proof fn lemma_lists_disjoint(c: Chains, j: ListKind, k: ListKind)
    requires
        c.disjoint(),
    ensures
        c.list(j).no_duplicates(),
        c.list(j).disjoint(c.free),
        j != k ==> c.list(j).disjoint(c.list(k)),
{
    match (j, k) {
        (ListKind::Bids, ListKind::Seats) => {
            assert(c.seats.disjoint(c.bids));
        },
        (ListKind::Asks, ListKind::Seats) => {
            assert(c.seats.disjoint(c.asks));
        },
        (ListKind::Asks, ListKind::Bids) => {
            assert(c.bids.disjoint(c.asks));
        },
        _ => {},
    }
}

/// Replacing list `k` by `l2` and the free stack by `free2` keeps the chains disjoint when the new
/// sequences have no duplicates and are disjoint from each other and from the other lists.
pub proof fn lemma_disjoint_replace(
    c: Chains,
    k: ListKind,
    l2: Seq<SectorIndex>,
    free2: Seq<SectorIndex>,
)
    requires
        c.disjoint(),
        l2.no_duplicates(),
        free2.no_duplicates(),
        l2.disjoint(free2),
        forall|j: ListKind| j != k ==> l2.disjoint(#[trigger] c.list(j)),
        forall|j: ListKind| j != k ==> free2.disjoint(#[trigger] c.list(j)),
    ensures
        (Chains { free: free2, ..c }).with_list(k, l2).disjoint(),
{
    let c2 = (Chains { free: free2, ..c }).with_list(k, l2);
    assert(c.list(ListKind::Seats) == c.seats);
    assert(c.list(ListKind::Bids) == c.bids);
    assert(c.list(ListKind::Asks) == c.asks);
    match k {
        ListKind::Seats => {
            assert(l2.disjoint(c.bids));
            assert(l2.disjoint(c.asks));
            assert(free2.disjoint(c.bids));
            assert(free2.disjoint(c.asks));
        },
        ListKind::Bids => {
            assert(l2.disjoint(c.seats));
            assert(l2.disjoint(c.asks));
            assert(free2.disjoint(c.seats));
            assert(free2.disjoint(c.asks));
        },
        ListKind::Asks => {
            assert(l2.disjoint(c.seats));
            assert(l2.disjoint(c.bids));
            assert(free2.disjoint(c.seats));
            assert(free2.disjoint(c.bids));
        },
    }
}

/// A sequence of distinct indices, each below `n`, has at most `n` elements.
pub proof fn lemma_distinct_bounded(l: Seq<SectorIndex>, n: nat)
    requires
        l.no_duplicates(),
        forall|i: int| 0 <= i < l.len() ==> (#[trigger] l[i] as nat) < n,
    ensures
        l.len() <= n,
    decreases n,
{
    if n == 0 {
        if l.len() > 0 {
            assert((l[0] as nat) < 0);
        }
    } else if l.contains((n - 1) as SectorIndex) {
        let j = choose|j: int| 0 <= j < l.len() && l[j] == (n - 1) as SectorIndex;
        let l2 = l.remove(j);
        assert forall|i: int| 0 <= i < l2.len() implies (#[trigger] l2[i] as nat) < (n - 1) as nat by {
            if i < j {
                assert(l2[i] == l[i]);
            } else {
                assert(l2[i] == l[i + 1]);
            }
        }
        assert(l2.no_duplicates()) by {
            assert forall|a: int, b: int| 0 <= a < l2.len() && 0 <= b < l2.len() && a != b implies l2[a]
                != l2[b] by {
                let a0 = if a < j { a } else { a + 1 };
                let b0 = if b < j { b } else { b + 1 };
                assert(l2[a] == l[a0]);
                assert(l2[b] == l[b0]);
            }
        }
        lemma_distinct_bounded(l2, (n - 1) as nat);
    } else {
        assert forall|i: int| 0 <= i < l.len() implies (#[trigger] l[i] as nat) < (n - 1) as nat by {
            assert(l[i] != (n - 1) as SectorIndex);
        }
        lemma_distinct_bounded(l, (n - 1) as nat);
    }
}

/// A market's header and its sectors.
pub struct Market {
    pub header: MarketHeader,
    pub sectors: Vec<Sector>,
}

impl Market {
    /// The header and sectors hold well-formed lists and a well-formed free stack.
    pub open spec fn wf(&self) -> bool {
        structures_wf(self.header@, self.sectors@)
    }

    /// The lists and free stack of a well-formed market.
    pub open spec fn chains(&self) -> Chains {
        chains_of(self.header@, self.sectors@)
    }

    /// An iterator over the list of kind `k` from its head.
    fn iter_list(&self, k: ListKind) -> (r: LinkedListIter<'_>)
        ensures
            r.curr == self.header@.head_of(k),
            *r.sectors == self.sectors,
            self.wf() ==> r.valid() && r.remaining() == self.chains().list(k),
    {
        let head = match k {
            ListKind::Seats => self.header.seats_dll_head(),
            ListKind::Bids => self.header.bids_dll_head(),
            ListKind::Asks => self.header.asks_dll_head(),
        };
        let r = LinkedListIter { curr: head, sectors: &self.sectors };
        proof {
            if self.wf() {
                let c = self.chains();
                assert(realizes(c, self.header@, self.sectors@));
                lemma_realizes_by_parts(c, self.header@, self.sectors@);
                assert(next_linked(self.sectors@, c.list(k), r.curr));
                lemma_next_linked_unique(self.sectors@, r.remaining(), c.list(k), r.curr);
            }
        }
        r
    }

    /// An iterator over the seats from the head of the seat list.
    #[inline(always)]
    pub fn iter_seats(&self) -> (r: LinkedListIter<'_>)
        ensures
            r.curr == self.header@.seats_dll_head,
            *r.sectors == self.sectors,
            self.wf() ==> r.valid() && r.remaining() == self.chains().seats,
    {
        self.iter_list(ListKind::Seats)
    }

    /// An iterator over the bids from the top of the book.
    #[inline(always)]
    pub fn iter_bids(&self) -> (r: LinkedListIter<'_>)
        ensures
            r.curr == self.header@.bids_dll_head,
            *r.sectors == self.sectors,
            self.wf() ==> r.valid() && r.remaining() == self.chains().bids,
    {
        self.iter_list(ListKind::Bids)
    }

    /// An iterator over the asks from the top of the book.
    #[inline(always)]
    pub fn iter_asks(&self) -> (r: LinkedListIter<'_>)
        ensures
            r.curr == self.header@.asks_dll_head,
            *r.sectors == self.sectors,
            self.wf() ==> r.valid() && r.remaining() == self.chains().asks,
    {
        self.iter_list(ListKind::Asks)
    }

    /// Reads a market from its account data: the header from the first
    /// [`MARKET_HEADER_SIZE`] bytes, then one sector from each following [`SECTOR_SIZE`] bytes.
    /// Trailing bytes too few for a sector are not read. Checking that the data belongs to an
    /// initialized market account is left to the caller.
    pub fn from_bytes(data: &[u8]) -> (r: Market)
        requires
            MARKET_HEADER_SIZE <= data@.len(),
        ensures
            r.header.byte_repr() == data@.subrange(0, MARKET_HEADER_SIZE as int),
            r.sectors@.len() == (data@.len() - MARKET_HEADER_SIZE) / (SECTOR_SIZE as int),
            forall|i: int|
                0 <= i < r.sectors@.len() ==> (#[trigger] r.sectors@[i]).byte_repr()
                    == data@.subrange(
                    MARKET_HEADER_SIZE + SECTOR_SIZE * i,
                    MARKET_HEADER_SIZE + SECTOR_SIZE * i + SECTOR_SIZE,
                ),
            r.header@.discriminant == le_u64_at(data@, 0),
            r.header@.num_free_sectors == le_u32_at(data@, 20),
            r.header@.free_stack_top == le_u32_at(data@, 24),
            r.header@.seats_dll_head == le_u32_at(data@, 28),
            r.header@.seats_dll_tail == le_u32_at(data@, 32),
            r.header@.bids_dll_head == le_u32_at(data@, 36),
            r.header@.bids_dll_tail == le_u32_at(data@, 40),
            r.header@.asks_dll_head == le_u32_at(data@, 44),
            r.header@.asks_dll_tail == le_u32_at(data@, 48),
            forall|i: int|
                0 <= i < r.sectors@.len() ==> {
                    let at = MARKET_HEADER_SIZE + SECTOR_SIZE * i;
                    &&& (#[trigger] r.sectors@[i])@.next == le_u32_at(data@, at)
                    &&& r.sectors@[i]@.prev == le_u32_at(data@, at + 4)
                    &&& r.sectors@[i]@.payload == data@.subrange(at + 8, at + SECTOR_SIZE)
                },
    {
        let hb = &data[0..MARKET_HEADER_SIZE];
        assert(hb@ == data@.subrange(0, MARKET_HEADER_SIZE as int));
        let header = MarketHeader::load_unchecked(hb);
        let len = data.len();
        let n = (len - MARKET_HEADER_SIZE) / SECTOR_SIZE;
        let mut sectors: Vec<Sector> = Vec::new();
        let mut i: usize = 0;
        while i < n
            invariant
                0 <= i <= n,
                n == (data@.len() - MARKET_HEADER_SIZE) / (SECTOR_SIZE as int),
                MARKET_HEADER_SIZE <= data@.len(),
                len == data@.len(),
                sectors@.len() == i,
                forall|k: int|
                    0 <= k < i ==> (#[trigger] sectors@[k]).byte_repr() == data@.subrange(
                        MARKET_HEADER_SIZE + SECTOR_SIZE * k,
                        MARKET_HEADER_SIZE + SECTOR_SIZE * k + SECTOR_SIZE,
                    ),
            decreases n - i,
        {
            assert(MARKET_HEADER_SIZE + SECTOR_SIZE * i + SECTOR_SIZE <= data@.len()) by (
            nonlinear_arith)
                requires
                    i < n,
                    n == (data@.len() - MARKET_HEADER_SIZE) / (SECTOR_SIZE as int),
                    MARKET_HEADER_SIZE <= data@.len(),
            ;
            let start = MARKET_HEADER_SIZE + SECTOR_SIZE * i;
            let sector = Sector::load_unchecked(&data[start..start + SECTOR_SIZE]);
            sectors.push(sector);
            i = i + 1;
        }
        proof {
            let d = data@;
            let hr = header.byte_repr();
            lemma_header_layout(header);
            assert forall|k: int| 0 <= k < MARKET_HEADER_SIZE implies hr[k] == d[k] by {}
            assert(le_u64_at(hr, 0) == le_u64_at(d, 0));
            assert forall|o: int| 20 <= o <= 48 implies #[trigger] le_u32_at(hr, o) == le_u32_at(d, o) by {
                lemma_le_u32_at_subrange(d, 0, MARKET_HEADER_SIZE as int, o);
            }
            assert(le_u32_at(hr, 20) == le_u32_at(d, 20));
            assert(le_u32_at(hr, 24) == le_u32_at(d, 24));
            assert(le_u32_at(hr, 28) == le_u32_at(d, 28));
            assert(le_u32_at(hr, 32) == le_u32_at(d, 32));
            assert(le_u32_at(hr, 36) == le_u32_at(d, 36));
            assert(le_u32_at(hr, 40) == le_u32_at(d, 40));
            assert(le_u32_at(hr, 44) == le_u32_at(d, 44));
            assert(le_u32_at(hr, 48) == le_u32_at(d, 48));
            assert forall|i: int| 0 <= i < sectors@.len() implies {
                let at = MARKET_HEADER_SIZE + SECTOR_SIZE * i;
                &&& (#[trigger] sectors@[i])@.next == le_u32_at(d, at)
                &&& sectors@[i]@.prev == le_u32_at(d, at + 4)
                &&& sectors@[i]@.payload == d.subrange(at + 8, at + SECTOR_SIZE)
            } by {
                let at = MARKET_HEADER_SIZE + SECTOR_SIZE * i;
                lemma_sector_layout(sectors@[i]);
                assert(at + SECTOR_SIZE <= d.len()) by (nonlinear_arith)
                    requires
                        0 <= i < sectors@.len(),
                        sectors@.len() == (d.len() - MARKET_HEADER_SIZE) / (SECTOR_SIZE as int),
                        at == MARKET_HEADER_SIZE + SECTOR_SIZE * i,
                        MARKET_HEADER_SIZE <= d.len(),
                ;
                lemma_le_u32_at_subrange(d, at, at + SECTOR_SIZE, 0);
                lemma_le_u32_at_subrange(d, at, at + SECTOR_SIZE, 4);
                assert(d.subrange(at, at + SECTOR_SIZE).subrange(8, SECTOR_SIZE as int) =~= d.subrange(
                    at + 8,
                    at + SECTOR_SIZE,
                ));
            }
        }
        Market { header, sectors }
    }

    /// The free stack over this market's header and sectors.
    #[inline(always)]
    pub fn free_stack(self) -> (r: Stack)
        ensures
            r.header_view() == self.header,
            r.sectors_view() == self.sectors,
    {
        Stack::new_from_parts(self.header, self.sectors)
    }

    /// The seat list over this market's header and sectors.
    #[inline(always)]
    pub fn seat_list(self) -> (r: SeatsLinkedList)
        ensures
            r.header == self.header,
            r.sectors == self.sectors,
    {
        LinkedList::new_from_parts(self.header, self.sectors)
    }

    /// The number of sectors.
    #[inline(always)]
    pub fn get_capacity(&self) -> (r: u32)
        ensures
            r == self.sectors@.len() as u32,
    {
        self.sectors.len() as u32
    }

    /// Whether the header holds the market account discriminant.
    #[inline(always)]
    pub fn is_initialized(&self) -> (r: bool)
        ensures
            r == (self.header@.discriminant == MARKET_ACCOUNT_DISCRIMINANT),
    {
        self.header.discriminant() == MARKET_ACCOUNT_DISCRIMINANT
    }
}

} // verus!

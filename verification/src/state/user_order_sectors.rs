//! The per-user map from the prices of a user's bids and asks to the sector indices of the
//! corresponding orders.
use vstd::prelude::*;

use crate::error::{DropsetError, DropsetResult};
use crate::le_bytes::{
    array_from_slice, le_u32_value, lemma_le_u32_injective, read_bytes_at, u32_from_le, u32_to_le,
};
use crate::state::transmutable::Transmutable;
use crate::price::encoded_price::{EncodedPrice, LeEncodedPrice};
use crate::state::sector::{lemma_le_nil, LeSectorIndex, SectorIndex, LE_NIL, NIL};

verus! {

/// The max number of orders a single user can have in a single market for bids or for asks.
pub const MAX_ORDERS: u8 = 5;

/// [`MAX_ORDERS`] as a usize.
pub const MAX_ORDERS_USIZE: usize = 5;

/// The paired encoded price and sector index of an order.
///
/// An entry whose sector index is [`LE_NIL`] is free; any other entry maps a price to the sector
/// index of an existing order.
#[derive(Clone, Copy, Debug, PartialEq, Eq)]
pub struct PriceToIndexEntry {
    pub encoded_price: LeEncodedPrice,
    pub sector_index: LeSectorIndex,
}

/// The decoded contents of a [`PriceToIndexEntry`].
pub struct EntryView {
    pub price: u32,
    pub index: SectorIndex,
}

impl View for PriceToIndexEntry {
    type V = EntryView;

    open spec fn view(&self) -> EntryView {
        EntryView { price: le_u32_value(self.encoded_price.0), index: le_u32_value(self.sector_index) }
    }
}

/// The view of a free entry: the zero price mapped to `NIL`.
pub open spec fn free_entry() -> EntryView {
    EntryView { price: 0, index: NIL }
}

/// Whether two four-byte arrays are equal, compared byte by byte.
fn bytes4_eq(a: &[u8; 4], b: &[u8; 4]) -> (r: bool)
    ensures
        r == (a@ == b@),
{
    let r = a[0] == b[0] && a[1] == b[1] && a[2] == b[2] && a[3] == b[3];
    proof {
        if r {
            assert(a@ =~= b@);
        }
    }
    r
}

/// Four bytes are equal exactly when their little-endian values are.
proof fn lemma_le_eq(a: [u8; 4], b: [u8; 4])
    ensures
        (a@ == b@) <==> (le_u32_value(a) == le_u32_value(b)),
{
    if le_u32_value(a) == le_u32_value(b) {
        lemma_le_u32_injective(a, b);
    }
    if a@ == b@ {
        assert(a[0] == b[0] && a[1] == b[1] && a[2] == b[2] && a[3] == b[3]);
    }
}

impl PriceToIndexEntry {
    /// A free entry: the zero price mapped to [`LE_NIL`].
    #[inline(always)]
    pub fn new_free() -> (r: Self)
        ensures
            r@ == free_entry(),
            r.sector_index@ == LE_NIL@,
    {
        proof {
            lemma_le_nil(LE_NIL);
        }
        Self { encoded_price: LeEncodedPrice::zero(), sector_index: LE_NIL }
    }

    /// The entry mapping `encoded_price` to `sector_index`.
    #[inline(always)]
    pub fn new(encoded_price: EncodedPrice, sector_index: &SectorIndex) -> (r: Self)
        ensures
            r@ == (EntryView { price: encoded_price@, index: *sector_index }),
    {
        Self {
            encoded_price: LeEncodedPrice::from_encoded(encoded_price),
            sector_index: u32_to_le(*sector_index),
        }
    }

    /// Whether the entry is free: its sector index is [`LE_NIL`].
    #[inline(always)]
    pub fn is_free(&self) -> (r: bool)
        ensures
            r == (self@.index == NIL),
    {
        proof {
            lemma_le_nil(self.sector_index);
        }
        bytes4_eq(&self.sector_index, &LE_NIL)
    }
}

/// Marks an entry as free: the zero price mapped to [`LE_NIL`].
#[inline(always)]
pub fn mark_as_free(entry: &mut PriceToIndexEntry)
    ensures
        final(entry)@ == free_entry(),
{
    proof {
        lemma_le_nil(LE_NIL);
    }
    entry.encoded_price = LeEncodedPrice::zero();
    entry.sector_index = LE_NIL;
}

/// [`MAX_ORDERS`] entries that map unique prices to sector indices.
///
/// By default every entry is free.
#[derive(Clone, Copy, Debug, PartialEq, Eq)]
pub struct OrderSectors(pub [PriceToIndexEntry; MAX_ORDERS_USIZE]);

impl View for OrderSectors {
    type V = Seq<EntryView>;

    open spec fn view(&self) -> Seq<EntryView> {
        self.0@.map_values(|e: PriceToIndexEntry| e@)
    }
}

/// The position of the first entry of `v` with price `p`, if any.
pub open spec fn first_with_price(v: Seq<EntryView>, p: u32) -> Option<int> {
    if exists|i: int| 0 <= i < v.len() && (#[trigger] v[i]).price == p {
        Some(choose|i: int| 0 <= i < v.len() && v[i].price == p && (forall|j: int| 0 <= j < i ==> (#[trigger] v[j]).price != p))
    } else {
        None
    }
}

/// The position of the first free entry of `v`, if any.
pub open spec fn first_free(v: Seq<EntryView>) -> Option<int> {
    if exists|i: int| 0 <= i < v.len() && (#[trigger] v[i]).index == NIL {
        Some(choose|i: int| 0 <= i < v.len() && v[i].index == NIL && (forall|j: int| 0 <= j < i ==> (#[trigger] v[j]).index != NIL))
    } else {
        None
    }
}

/// When some entry has price `p`, the first one exists and is the position chosen.
pub proof fn lemma_first_with_price(v: Seq<EntryView>, p: u32, i: int)
    requires
        0 <= i < v.len(),
        v[i].price == p,
        forall|j: int| 0 <= j < i ==> (#[trigger] v[j]).price != p,
    ensures
        first_with_price(v, p) == Some(i),
{
    let k = choose|k: int| 0 <= k < v.len() && v[k].price == p && (forall|j: int| 0 <= j < k ==> (#[trigger] v[j]).price != p);
    assert(v[i].price == p);
    assert(0 <= k < v.len() && v[k].price == p);
    if k < i {
        assert(v[k].price != p);
    }
    if i < k {
        assert(v[i].price != p);
    }
}

/// When some entry is free, the first one exists and is the position chosen.
pub proof fn lemma_first_free(v: Seq<EntryView>, i: int)
    requires
        0 <= i < v.len(),
        v[i].index == NIL,
        forall|j: int| 0 <= j < i ==> (#[trigger] v[j]).index != NIL,
    ensures
        first_free(v) == Some(i),
{
    let k = choose|k: int| 0 <= k < v.len() && v[k].index == NIL && (forall|j: int| 0 <= j < k ==> (#[trigger] v[j]).index != NIL);
    assert(v[i].index == NIL);
    assert(0 <= k < v.len() && v[k].index == NIL);
    if k < i {
        assert(v[k].index != NIL);
    }
    if i < k {
        assert(v[i].index != NIL);
    }
}

impl OrderSectors {
    /// Every entry free.
    pub fn new_all_free() -> (r: Self)
        ensures
            r@ == Seq::new(MAX_ORDERS as nat, |i: int| free_entry()),
    {
        let e = PriceToIndexEntry::new_free();
        let r = OrderSectors([e, e, e, e, e]);
        assert(r@ =~= Seq::new(MAX_ORDERS as nat, |i: int| free_entry()));
        r
    }

    /// The sector index of the first entry whose price is `target_price`, if any.
    #[inline(always)]
    pub fn get(&self, target_price: &LeEncodedPrice) -> (r: Option<SectorIndex>)
        ensures
            r == (match first_with_price(self@, le_u32_value(target_price.0)) {
                Some(i) => Some(self@[i].index),
                None => None::<SectorIndex>,
            }),
    {
        let ghost p = le_u32_value(target_price.0);
        let mut i: usize = 0;
        while i < MAX_ORDERS_USIZE
            invariant
                0 <= i <= MAX_ORDERS_USIZE,
                self@.len() == MAX_ORDERS_USIZE,
                p == le_u32_value(target_price.0),
                forall|j: int| 0 <= j < i ==> (#[trigger] self@[j]).price != p,
            decreases MAX_ORDERS_USIZE - i,
        {
            let entry = &self.0[i];
            proof {
                lemma_le_eq(entry.encoded_price.0, target_price.0);
                assert(self@[i as int] == self.0@[i as int]@);
                assert(*entry == self.0@[i as int]);
                assert(self@[i as int].price == le_u32_value(entry.encoded_price.0));
            }
            if bytes4_eq(&entry.encoded_price.0, &target_price.0) {
                proof {
                    lemma_first_with_price(self@, p, i as int);
                }
                return Some(u32_from_le(entry.sector_index));
            }
            i = i + 1;
        }
        None
    }

    /// Adds the mapping from `new_price` to `order_index` in the first free entry.
    ///
    /// Fails with `OrderWithPriceAlreadyExists` if an entry already has the price, and with
    /// `UserHasMaxOrders` if no entry is free.
    #[inline(always)]
    pub fn add(&mut self, new_price: &LeEncodedPrice, order_index: &LeSectorIndex) -> (r:
        DropsetResult)
        ensures
            first_with_price(old(self)@, le_u32_value(new_price.0)) is Some ==> r == Err::<
                (),
                DropsetError,
            >(DropsetError::OrderWithPriceAlreadyExists) && final(self)@ == old(self)@,
            first_with_price(old(self)@, le_u32_value(new_price.0)) is None && first_free(
                old(self)@,
            ) is None ==> r == Err::<(), DropsetError>(DropsetError::UserHasMaxOrders) && final(self)@ == old(self)@,
            first_with_price(old(self)@, le_u32_value(new_price.0)) is None && first_free(
                old(self)@,
            ) is Some ==> r is Ok && final(self)@ == old(self)@.update(
                first_free(old(self)@).unwrap(),
                EntryView { price: le_u32_value(new_price.0), index: le_u32_value(*order_index) },
            ),
    {
        let ghost p = le_u32_value(new_price.0);
        let mut i: usize = 0;
        while i < MAX_ORDERS_USIZE
            invariant
                0 <= i <= MAX_ORDERS_USIZE,
                self@.len() == MAX_ORDERS_USIZE,
                self == old(self),
                p == le_u32_value(new_price.0),
                forall|j: int| 0 <= j < i ==> (#[trigger] self@[j]).price != p,
            decreases MAX_ORDERS_USIZE - i,
        {
            proof {
                lemma_le_eq(self.0[i as int].encoded_price.0, new_price.0);
                assert(self@[i as int] == self.0@[i as int]@);
                assert(self@[i as int].price == le_u32_value(self.0@[i as int].encoded_price.0));
            }
            if bytes4_eq(&self.0[i].encoded_price.0, &new_price.0) {
                proof {
                    lemma_first_with_price(self@, p, i as int);
                }
                return Err(DropsetError::OrderWithPriceAlreadyExists);
            }
            i = i + 1;
        }
        let mut i: usize = 0;
        while i < MAX_ORDERS_USIZE
            invariant
                0 <= i <= MAX_ORDERS_USIZE,
                self@.len() == MAX_ORDERS_USIZE,
                self == old(self),
                p == le_u32_value(new_price.0),
                first_with_price(old(self)@, p) is None,
                forall|j: int| 0 <= j < i ==> (#[trigger] self@[j]).index != NIL,
            decreases MAX_ORDERS_USIZE - i,
        {
            proof {
                assert(self@[i as int] == self.0@[i as int]@);
            }
            if self.0[i].is_free() {
                proof {
                    lemma_first_free(self@, i as int);
                }
                let new_entry = PriceToIndexEntry {
                    encoded_price: *new_price,
                    sector_index: *order_index,
                };
                self.0[i] = new_entry;
                proof {
                    assert(self.0@ == old(self).0@.update(i as int, new_entry));
                    assert(self@ =~= old(self)@.update(
                        i as int,
                        EntryView { price: p, index: le_u32_value(*order_index) },
                    ));
                }
                return Ok(());
            }
            i = i + 1;
        }
        Err(DropsetError::UserHasMaxOrders)
    }

    /// Frees the first entry whose price is `encoded_price` and returns its sector index.
    ///
    /// Fails with `OrderNotFound` if no entry has the price.
    #[inline(always)]
    pub fn remove(&mut self, encoded_price: u32) -> (r: Result<LeSectorIndex, DropsetError>)
        ensures
            first_with_price(old(self)@, encoded_price) is None ==> r == Err::<
                LeSectorIndex,
                DropsetError,
            >(DropsetError::OrderNotFound) && final(self)@ == old(self)@,
            first_with_price(old(self)@, encoded_price) matches Some(i) ==> r matches Ok(b)
                && le_u32_value(b) == old(self)@[i].index && final(self)@ == old(self)@.update(
                i,
                free_entry(),
            ),
    {
        let target = u32_to_le(encoded_price);
        let mut i: usize = 0;
        while i < MAX_ORDERS_USIZE
            invariant
                0 <= i <= MAX_ORDERS_USIZE,
                self@.len() == MAX_ORDERS_USIZE,
                self == old(self),
                le_u32_value(target) == encoded_price,
                forall|j: int| 0 <= j < i ==> (#[trigger] self@[j]).price != encoded_price,
            decreases MAX_ORDERS_USIZE - i,
        {
            proof {
                lemma_le_eq(self.0[i as int].encoded_price.0, target);
                assert(self@[i as int] == self.0@[i as int]@);
                assert(self@[i as int].price == le_u32_value(self.0@[i as int].encoded_price.0));
            }
            if bytes4_eq(&self.0[i].encoded_price.0, &target) {
                proof {
                    lemma_first_with_price(self@, encoded_price, i as int);
                }
                let sector_index = self.0[i].sector_index;
                let mut entry = self.0[i];
                mark_as_free(&mut entry);
                self.0[i] = entry;
                proof {
                    assert(self.0@ == old(self).0@.update(i as int, entry));
                    assert(self@ =~= old(self)@.update(i as int, free_entry()));
                }
                return Ok(sector_index);
            }
            i = i + 1;
        }
        Err(DropsetError::OrderNotFound)
    }

    /// The sector indices of all entries, in order.
    #[inline(always)]
    pub fn to_sector_indices(&self) -> (r: [SectorIndex; MAX_ORDERS_USIZE])
        ensures
            forall|i: int| 0 <= i < MAX_ORDERS_USIZE ==> r@[i] == self@[i].index,
    {
        [
            u32_from_le(self.0[0].sector_index),
            u32_from_le(self.0[1].sector_index),
            u32_from_le(self.0[2].sector_index),
            u32_from_le(self.0[3].sector_index),
            u32_from_le(self.0[4].sector_index),
        ]
    }

    /// An iterator over the entries, in order.
    #[inline(always)]
    pub fn iter(&self) -> (r: core::slice::Iter<'_, PriceToIndexEntry>)
        ensures
            vstd::std_specs::slice::into_iter_elts(r) == self.0@,
    {
        broadcast use vstd::std_specs::slice::axiom_spec_slice_iter;

        let r = self.0.as_slice().iter();
        assert(vstd::std_specs::iter::IteratorSpec::remaining(&r).unref() =~= self.0@);
        r
    }

    /// The entries, to modify in place.
    #[inline(always)]
    pub fn iter_mut(&mut self) -> (r: &mut [PriceToIndexEntry; MAX_ORDERS_USIZE])
        ensures
            *r == old(self).0,
            *final(self) == OrderSectors(*final(r)),
    {
        &mut self.0
    }
}

impl OrderSectors {
    /// The bytes of the entries: each entry's price bytes then its sector index bytes.
    pub open spec fn bytes(&self) -> Seq<u8> {
        Seq::new(
            40,
            |i: int|
                if i % 8 < 4 {
                    self.0@[i / 8].encoded_price.0@[i % 8]
                } else {
                    self.0@[i / 8].sector_index@[i % 8 - 4]
                },
        )
    }

    /// The entries' bytes.
    pub fn to_bytes(&self) -> (r: [u8; 40])
        ensures
            r@ == self.bytes(),
    {
        let mut out = [0u8; 40];
        let mut i: usize = 0;
        while i < MAX_ORDERS_USIZE
            invariant
                0 <= i <= MAX_ORDERS_USIZE,
                out@.len() == 40,
                forall|j: int| 0 <= j < 8 * i ==> out@[j] == self.bytes()[j],
            decreases MAX_ORDERS_USIZE - i,
        {
            let e = self.0[i];
            out[8 * i] = e.encoded_price.0[0];
            out[8 * i + 1] = e.encoded_price.0[1];
            out[8 * i + 2] = e.encoded_price.0[2];
            out[8 * i + 3] = e.encoded_price.0[3];
            out[8 * i + 4] = e.sector_index[0];
            out[8 * i + 5] = e.sector_index[1];
            out[8 * i + 6] = e.sector_index[2];
            out[8 * i + 7] = e.sector_index[3];
            proof {
                assert forall|j: int| 0 <= j < 8 * (i + 1) implies out@[j] == self.bytes()[j] by {
                    if j >= 8 * i {
                        assert(j / 8 == i as int);
                        assert(j % 8 == j - 8 * i);
                    }
                }
            }
            i = i + 1;
        }
        assert(out@ =~= self.bytes());
        out
    }

    /// The entries that `bytes` hold.
    pub fn from_bytes(bytes: &[u8; 40]) -> (r: Self)
        ensures
            r.bytes() == bytes@,
    {
        let mut entries = [PriceToIndexEntry::new_free(); MAX_ORDERS_USIZE];
        let mut i: usize = 0;
        while i < MAX_ORDERS_USIZE
            invariant
                0 <= i <= MAX_ORDERS_USIZE,
                entries@.len() == MAX_ORDERS_USIZE,
                forall|j: int| 0 <= j < 8 * i ==> (OrderSectors(entries)).bytes()[j] == bytes@[j],
            decreases MAX_ORDERS_USIZE - i,
        {
            let e = PriceToIndexEntry {
                encoded_price: LeEncodedPrice(
                    [bytes[8 * i], bytes[8 * i + 1], bytes[8 * i + 2], bytes[8 * i + 3]],
                ),
                sector_index: [bytes[8 * i + 4], bytes[8 * i + 5], bytes[8 * i + 6], bytes[8 * i + 7]],
            };
            let ghost before = entries;
            entries[i] = e;
            proof {
                assert forall|j: int| 0 <= j < 8 * (i + 1) implies (OrderSectors(entries)).bytes()[j]
                    == bytes@[j] by {
                    if j >= 8 * i {
                        assert(j / 8 == i as int);
                        assert(j % 8 == j - 8 * i);
                    } else {
                        assert(j / 8 < i);
                        assert(entries@[j / 8] == before@[j / 8]);
                        assert((OrderSectors(before)).bytes()[j] == bytes@[j]);
                    }
                }
            }
            i = i + 1;
        }
        let r = OrderSectors(entries);
        assert(r.bytes() =~= bytes@);
        r
    }
}

impl Default for OrderSectors {
    fn default() -> (r: Self)
        ensures
            r@ == Seq::new(MAX_ORDERS as nat, |i: int| free_entry()),
    {
        Self::new_all_free()
    }
}

/// The maps from the prices of a user's bids and of a user's asks to their order sectors.
#[derive(Clone, Copy, Debug, PartialEq, Eq)]
pub struct UserOrderSectors {
    pub bids: OrderSectors,
    pub asks: OrderSectors,
}

impl Default for UserOrderSectors {
    fn default() -> (r: Self)
        ensures
            r.bids@ == Seq::new(MAX_ORDERS as nat, |i: int| free_entry()),
            r.asks@ == Seq::new(MAX_ORDERS as nat, |i: int| free_entry()),
    {
        UserOrderSectors { bids: OrderSectors::new_all_free(), asks: OrderSectors::new_all_free() }
    }
}

/// What the first entry with a price is.
pub proof fn lemma_first_with_price_props(v: Seq<EntryView>, p: u32)
    ensures
        first_with_price(v, p) matches Some(i) ==> 0 <= i < v.len() && v[i].price == p && (forall|
            j: int,
        | 0 <= j < i ==> (#[trigger] v[j]).price != p),
        first_with_price(v, p) is None ==> forall|i: int| 0 <= i < v.len() ==> (#[trigger] v[i]).price != p,
{
    if exists|i: int| 0 <= i < v.len() && (#[trigger] v[i]).price == p {
        let i = choose|i: int| 0 <= i < v.len() && (#[trigger] v[i]).price == p;
        lemma_least_with_price(v, p, i);
    }
}

proof fn lemma_least_with_price(v: Seq<EntryView>, p: u32, i: int)
    requires
        0 <= i < v.len(),
        v[i].price == p,
    ensures
        exists|k: int| 0 <= k < v.len() && v[k].price == p && (forall|j: int| 0 <= j < k ==> (#[trigger] v[j]).price != p),
    decreases i,
{
    if exists|j: int| 0 <= j < i && (#[trigger] v[j]).price == p {
        let j = choose|j: int| 0 <= j < i && (#[trigger] v[j]).price == p;
        lemma_least_with_price(v, p, j);
    } else {
        assert(forall|j: int| 0 <= j < i ==> (#[trigger] v[j]).price != p);
    }
}

/// What the first free entry is.
pub proof fn lemma_first_free_props(v: Seq<EntryView>)
    ensures
        first_free(v) matches Some(i) ==> 0 <= i < v.len() && v[i].index == NIL && (forall|j: int|
            0 <= j < i ==> (#[trigger] v[j]).index != NIL),
        first_free(v) is None ==> forall|i: int| 0 <= i < v.len() ==> (#[trigger] v[i]).index != NIL,
{
    if exists|i: int| 0 <= i < v.len() && (#[trigger] v[i]).index == NIL {
        let i = choose|i: int| 0 <= i < v.len() && (#[trigger] v[i]).index == NIL;
        lemma_least_free(v, i);
    }
}

proof fn lemma_least_free(v: Seq<EntryView>, i: int)
    requires
        0 <= i < v.len(),
        v[i].index == NIL,
    ensures
        exists|k: int| 0 <= k < v.len() && v[k].index == NIL && (forall|j: int| 0 <= j < k ==> (#[trigger] v[j]).index != NIL),
    decreases i,
{
    if exists|j: int| 0 <= j < i && (#[trigger] v[j]).index == NIL {
        let j = choose|j: int| 0 <= j < i && (#[trigger] v[j]).index == NIL;
        lemma_least_free(v, j);
    } else {
        assert(forall|j: int| 0 <= j < i ==> (#[trigger] v[j]).index != NIL);
    }
}

/// Free entries hold the zero price, and no two entries in use share a price.
pub open spec fn entries_wf(v: Seq<EntryView>) -> bool {
    &&& forall|i: int| 0 <= i < v.len() && (#[trigger] v[i]).index == NIL ==> v[i].price == 0
    &&& forall|i: int, j: int|
        0 <= i < v.len() && 0 <= j < v.len() && i != j && v[i].index != NIL && v[j].index != NIL
            ==> (#[trigger] v[i]).price != (#[trigger] v[j]).price
}

/// The entries after a successful `add` of `p` mapped to `idx`.
pub open spec fn added(v: Seq<EntryView>, p: u32, idx: SectorIndex) -> Seq<EntryView> {
    v.update(first_free(v).unwrap(), EntryView { price: p, index: idx })
}

/// Looking up a price right after adding it gives the sector index it was added with.
pub proof fn lemma_get_after_add(v: Seq<EntryView>, p: u32, idx: SectorIndex)
    requires
        first_with_price(v, p) is None,
        first_free(v) is Some,
    ensures
        ({
            let v2 = added(v, p, idx);
            &&& first_with_price(v2, p) == Some(first_free(v).unwrap())
            &&& v2[first_free(v).unwrap()].index == idx
        }),
{
    lemma_first_free_props(v);
    lemma_first_with_price_props(v, p);
    let f = first_free(v).unwrap();
    let v2 = added(v, p, idx);
    assert forall|j: int| 0 <= j < f implies (#[trigger] v2[j]).price != p by {
        assert(v2[j] == v[j]);
        if v[j].price == p {
            assert(0 <= j < v.len() && v[j].price == p);
        }
    }
    lemma_first_with_price(v2, p, f);
}

/// Adding a price to well-formed entries with a non-NIL index keeps them well-formed; the price
/// added is then not zero.
pub proof fn lemma_add_keeps_wf(v: Seq<EntryView>, p: u32, idx: SectorIndex)
    requires
        entries_wf(v),
        first_with_price(v, p) is None,
        first_free(v) is Some,
        idx != NIL,
    ensures
        p != 0,
        entries_wf(added(v, p, idx)),
{
    lemma_first_free_props(v);
    lemma_first_with_price_props(v, p);
    let f = first_free(v).unwrap();
    let v2 = added(v, p, idx);
    assert(v[f].index == NIL);
    assert(v[f].price == 0);
    if p == 0 {
        assert(0 <= f < v.len() && v[f].price == p);
    }
    assert forall|i: int, j: int|
        0 <= i < v2.len() && 0 <= j < v2.len() && i != j && v2[i].index != NIL && v2[j].index
            != NIL implies (#[trigger] v2[i]).price != (#[trigger] v2[j]).price by {
        if i == f {
            assert(v2[j] == v[j]);
            if v[j].price == p {
                assert(0 <= j < v.len() && v[j].price == p);
            }
        } else if j == f {
            assert(v2[i] == v[i]);
            if v[i].price == p {
                assert(0 <= i < v.len() && v[i].price == p);
            }
        } else {
            assert(v2[i] == v[i] && v2[j] == v[j]);
        }
    }
}

/// Removing a price right after adding it to well-formed entries returns the index it was added
/// with and restores the entries.
pub proof fn lemma_remove_after_add(v: Seq<EntryView>, p: u32, idx: SectorIndex)
    requires
        entries_wf(v),
        first_with_price(v, p) is None,
        first_free(v) is Some,
        idx != NIL,
    ensures
        ({
            let v2 = added(v, p, idx);
            let f = first_free(v).unwrap();
            &&& first_with_price(v2, p) == Some(f)
            &&& v2[f].index == idx
            &&& v2.update(f, free_entry()) == v
        }),
{
    lemma_first_free_props(v);
    lemma_get_after_add(v, p, idx);
    let f = first_free(v).unwrap();
    let v2 = added(v, p, idx);
    assert(v[f].index == NIL && v[f].price == 0);
    assert(v2.update(f, free_entry()) =~= v);
}

/// Once a nonzero price is removed from well-formed entries, looking it up finds nothing, and the
/// entries stay well-formed.
pub proof fn lemma_get_after_remove(v: Seq<EntryView>, p: u32)
    requires
        entries_wf(v),
        p != 0,
        first_with_price(v, p) is Some,
    ensures
        ({
            let v2 = v.update(first_with_price(v, p).unwrap(), free_entry());
            &&& first_with_price(v2, p) is None
            &&& entries_wf(v2)
        }),
{
    lemma_first_with_price_props(v, p);
    let i = first_with_price(v, p).unwrap();
    let v2 = v.update(i, free_entry());
    assert(v[i].price == p);
    assert(v[i].index != NIL);
    if exists|j: int| 0 <= j < v2.len() && (#[trigger] v2[j]).price == p {
        let j = choose|j: int| 0 <= j < v2.len() && (#[trigger] v2[j]).price == p;
        assert(j != i);
        assert(v2[j] == v[j]);
        if v[j].index == NIL {
            assert(v[j].price == 0);
        } else {
            assert(v[i].price != v[j].price);
        }
    }
    assert forall|a: int, b: int|
        0 <= a < v2.len() && 0 <= b < v2.len() && a != b && v2[a].index != NIL && v2[b].index
            != NIL implies (#[trigger] v2[a]).price != (#[trigger] v2[b]).price by {
        assert(a != i && b != i);
        assert(v2[a] == v[a] && v2[b] == v[b]);
    }
}

impl Transmutable for PriceToIndexEntry {
    open spec fn byte_len() -> nat {
        8 as nat
    }

    fn len() -> (r: usize) {
        8
    }

    /// The price bytes then the sector index bytes.
    open spec fn byte_repr(&self) -> Seq<u8> {
        self.encoded_price.0@ + self.sector_index@
    }

    fn load_unchecked(bytes: &[u8]) -> (r: Self) {
        let b = array_from_slice::<8>(bytes);
        let r = PriceToIndexEntry {
            encoded_price: LeEncodedPrice(read_bytes_at::<8, 4>(&b, 0)),
            sector_index: read_bytes_at::<8, 4>(&b, 4),
        };
        assert(r.byte_repr() =~= bytes@);
        r
    }
}

impl Transmutable for OrderSectors {
    open spec fn byte_len() -> nat {
        40 as nat
    }

    fn len() -> (r: usize) {
        40
    }

    open spec fn byte_repr(&self) -> Seq<u8> {
        self.bytes()
    }

    fn load_unchecked(bytes: &[u8]) -> (r: Self) {
        OrderSectors::from_bytes(&array_from_slice::<40>(bytes))
    }
}

impl Transmutable for UserOrderSectors {
    open spec fn byte_len() -> nat {
        80 as nat
    }

    fn len() -> (r: usize) {
        80
    }

    /// The bid entries' bytes then the ask entries' bytes.
    open spec fn byte_repr(&self) -> Seq<u8> {
        self.bids.bytes() + self.asks.bytes()
    }

    fn load_unchecked(bytes: &[u8]) -> (r: Self) {
        let b = array_from_slice::<80>(bytes);
        let bids = OrderSectors::from_bytes(&read_bytes_at::<80, 40>(&b, 0));
        let asks = OrderSectors::from_bytes(&read_bytes_at::<80, 40>(&b, 40));
        let r = UserOrderSectors { bids, asks };
        assert(r.byte_repr() =~= bytes@);
        r
    }
}

} // verus!

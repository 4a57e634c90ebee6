//! The value-level logic behind generating an instruction enum's `try_from_u8`: assigning each
//! variant its discriminant, and grouping the sorted discriminants into the contiguous ranges
//! that the generated match arms accept.
use vstd::prelude::*;

use itertools::Itertools;

verus! {

/// The discriminant of variant `i`, given each variant's explicit discriminant if it has one: an
/// implicit discriminant is one more than the previous variant's, and the first is zero.
pub open spec fn assigned_discriminant(explicit: Seq<Option<u8>>, i: int) -> int
    decreases i + 1,
{
    if i < 0 {
        -1
    } else {
        match explicit[i] {
            Some(d) => d as int,
            None => assigned_discriminant(explicit, i - 1) + 1,
        }
    }
}

/// Whether every variant's assigned discriminant is below 255, as [`assign_discriminants`]
/// requires.
pub fn discriminants_fit(explicit: &Vec<Option<u8>>) -> (r: bool)
    ensures
        r == forall|i: int| 0 <= i < explicit@.len() ==> assigned_discriminant(explicit@, i) < 255,
{
    let mut implicit: u16 = 0;
    let mut i: usize = 0;
    while i < explicit.len()
        invariant
            0 <= i <= explicit@.len(),
            implicit == assigned_discriminant(explicit@, i - 1) + 1,
            forall|k: int| 0 <= k < i ==> assigned_discriminant(explicit@, k) < 255,
        decreases explicit@.len() - i,
    {
        let d: u16 = match explicit[i] {
            Some(d) => d as u16,
            None => implicit,
        };
        if d >= 255 {
            assert(assigned_discriminant(explicit@, i as int) >= 255);
            return false;
        }
        implicit = d + 1;
        i = i + 1;
    }
    true
}

/// Assigns every variant its discriminant.
///
/// Computing the implicit discriminant that would follow a variant at 255 overflows, so every
/// assigned discriminant must be below 255.
pub fn assign_discriminants(explicit: &Vec<Option<u8>>) -> (r: Vec<u8>)
    requires
        forall|i: int| 0 <= i < explicit@.len() ==> assigned_discriminant(explicit@, i) < 255,
    ensures
        r@.len() == explicit@.len(),
        forall|i: int| 0 <= i < r@.len() ==> r@[i] == assigned_discriminant(explicit@, i),
{
    let mut r: Vec<u8> = Vec::new();
    let mut implicit: u8 = 0;
    let mut i: usize = 0;
    while i < explicit.len()
        invariant
            0 <= i <= explicit@.len(),
            r@.len() == i,
            forall|k: int| 0 <= k < i ==> r@[k] == assigned_discriminant(explicit@, k),
            implicit == assigned_discriminant(explicit@, i - 1) + 1,
            forall|k: int| 0 <= k < explicit@.len() ==> assigned_discriminant(explicit@, k) < 255,
        decreases explicit@.len() - i,
    {
        let d = match explicit[i] {
            Some(d) => d,
            None => implicit,
        };
        assert(d == assigned_discriminant(explicit@, i as int));
        r.push(d);
        implicit = d + 1;
        i = i + 1;
    }
    r
}

/// `s` is in ascending order.
pub open spec fn ascending(s: Seq<u8>) -> bool {
    forall|i: int, j: int| 0 <= i <= j < s.len() ==> s[i] <= s[j]
}

/// The runs of consecutive values in `s`, each as its first and last value: a value one more than
/// the one before it extends the current run, and any other value starts a new run.
pub open spec fn contiguous_runs(s: Seq<u8>) -> Seq<(u8, u8)>
    decreases s.len(),
{
    if s.len() == 0 {
        seq![]
    } else {
        let prev = contiguous_runs(s.drop_last());
        let x = s.last();
        if prev.len() > 0 && prev.last().1 + 1 == x {
            prev.update(prev.len() - 1, (prev.last().0, x))
        } else {
            prev.push((x, x))
        }
    }
}

/// Whether one of the ranges `runs` holds `x`.
pub open spec fn covered(runs: Seq<(u8, u8)>, x: u8) -> bool {
    exists|k: int| 0 <= k < runs.len() && (#[trigger] runs[k]).0 <= x <= runs[k].1
}

/// The runs of an ascending sequence hold exactly its values: every value of a run is in the
/// sequence, and every value of the sequence is in a run.
pub proof fn lemma_runs_cover(s: Seq<u8>)
    requires
        ascending(s),
    ensures
        forall|x: u8| #[trigger] covered(contiguous_runs(s), x) <==> s.contains(x),
        s.len() > 0 ==> contiguous_runs(s).len() > 0 && contiguous_runs(s).last().1 == s.last(),
        forall|k: int|
            0 <= k < contiguous_runs(s).len() ==> (#[trigger] contiguous_runs(s)[k]).0
                <= contiguous_runs(s)[k].1,
    decreases s.len(),
{
    if s.len() > 0 {
        let t = s.drop_last();
        assert(ascending(t));
        lemma_runs_cover(t);
        let prev = contiguous_runs(t);
        let runs = contiguous_runs(s);
        let x = s.last();
        assert forall|y: u8| #[trigger] covered(runs, y) <==> s.contains(y) by {
            if covered(runs, y) {
                let k = choose|k: int| 0 <= k < runs.len() && (#[trigger] runs[k]).0 <= y <= runs[k].1;
                if prev.len() > 0 && prev.last().1 + 1 == x {
                    if k == prev.len() - 1 {
                        if y == x {
                            assert(s[s.len() - 1] == y);
                        } else {
                            assert(prev[k].0 <= y <= prev[k].1);
                            assert(covered(prev, y));
                            assert(t.contains(y));
                            let j = choose|j: int| 0 <= j < t.len() && #[trigger] t[j] == y;
                            assert(s[j] == y);
                        }
                    } else {
                        assert(prev[k] == runs[k]);
                        assert(covered(prev, y));
                        let j = choose|j: int| 0 <= j < t.len() && #[trigger] t[j] == y;
                        assert(s[j] == y);
                    }
                } else {
                    if k == prev.len() {
                        assert(s[s.len() - 1] == y);
                    } else {
                        assert(prev[k] == runs[k]);
                        assert(covered(prev, y));
                        let j = choose|j: int| 0 <= j < t.len() && #[trigger] t[j] == y;
                        assert(s[j] == y);
                    }
                }
            }
            if s.contains(y) {
                let j = choose|j: int| 0 <= j < s.len() && #[trigger] s[j] == y;
                if j == s.len() - 1 {
                    assert(runs.last().0 <= y <= runs.last().1);
                } else {
                    assert(t[j] == y);
                    assert(t.contains(y));
                    assert(covered(prev, y));
                    let k = choose|k: int| 0 <= k < prev.len() && (#[trigger] prev[k]).0 <= y <= prev[k].1;
                    assert(runs[k].0 <= y <= runs[k].1);
                }
            }
        }
    }
}

/// `itertools`' `sorted` on the discriminants, collected back into a `Vec`: the same values,
/// with the same multiplicities, in ascending order.
#[verifier::external_body]
fn sorted_discriminants(v: Vec<u8>) -> (r: Vec<u8>)
    ensures
        r@.to_multiset() == v@.to_multiset(),
        ascending(r@),
{
    v.into_iter().sorted().collect_vec()
}

/// The runs of consecutive values of an ascending sequence.
pub fn contiguous_ranges(sorted: &Vec<u8>) -> (r: Vec<(u8, u8)>)
    ensures
        r@ == contiguous_runs(sorted@),
{
    let mut r: Vec<(u8, u8)> = Vec::new();
    let mut i: usize = 0;
    while i < sorted.len()
        invariant
            0 <= i <= sorted@.len(),
            r@ == contiguous_runs(sorted@.take(i as int)),
        decreases sorted@.len() - i,
    {
        let x = sorted[i];
        let ghost t = sorted@.take(i as int);
        assert(sorted@.take(i + 1).drop_last() =~= t);
        assert(sorted@.take(i + 1).last() == x);
        let n = r.len();
        if n > 0 && (r[n - 1].1 as u16) + 1 == x as u16 {
            let first = r[n - 1].0;
            r.set(n - 1, (first, x));
        } else {
            r.push((x, x));
        }
        i = i + 1;
    }
    assert(sorted@.take(sorted@.len() as int) =~= sorted@);
    r
}

/// The ranges of discriminants that an instruction enum's generated `try_from_u8` accepts: the
/// discriminants sorted, then grouped into the maximal runs of consecutive values.
pub fn discriminant_ranges(discriminants: Vec<u8>) -> (r: Vec<(u8, u8)>)
    ensures
        exists|s: Seq<u8>|
            ascending(s) && #[trigger] s.to_multiset() == discriminants@.to_multiset() && r@
                == contiguous_runs(s),
        forall|s: Seq<u8>|
            ascending(s) && #[trigger] s.to_multiset() == discriminants@.to_multiset() ==> r@
                == contiguous_runs(s),
        forall|x: u8| #[trigger] covered(r@, x) <==> discriminants@.contains(x),
        forall|k: int| 0 <= k < r@.len() ==> (#[trigger] r@[k]).0 <= r@[k].1,
{
    let ghost d = discriminants@;
    let sorted = sorted_discriminants(discriminants);
    let r = contiguous_ranges(&sorted);
    proof {
        lemma_runs_cover(sorted@);
        assert forall|x: u8| sorted@.contains(x) <==> d.contains(x) by {
            vstd::seq_lib::to_multiset_contains(sorted@, x);
            vstd::seq_lib::to_multiset_contains(d, x);
        }
        let leq = |a: u8, b: u8| a <= b;
        assert(vstd::relations::total_ordering(leq));
        assert(vstd::relations::sorted_by(sorted@, leq));
        assert forall|s: Seq<u8>|
            ascending(s) && #[trigger] s.to_multiset() == d.to_multiset() implies r@
                == contiguous_runs(s) by {
            assert(vstd::relations::sorted_by(s, leq));
            vstd::seq_lib::lemma_sorted_unique(s, sorted@, leq);
            assert(s == sorted@);
        }
        assert(ascending(sorted@) && sorted@.to_multiset() == d.to_multiset() && r@
            == contiguous_runs(sorted@));
    }
    r
}

/// The primitive integer types that instruction arguments may have.
#[derive(Clone, Copy, Debug, PartialEq, Eq, Structural)]
pub enum PrimitiveArg {
    U8,
    U16,
    U32,
    U64,
    U128,
}

impl PrimitiveArg {
    /// The size in bytes of the type.
    pub fn size(&self) -> (r: usize)
        ensures
            r == match *self {
                PrimitiveArg::U8 => 1usize,
                PrimitiveArg::U16 => 2,
                PrimitiveArg::U32 => 4,
                PrimitiveArg::U64 => 8,
                PrimitiveArg::U128 => 16,
            },
    {
        match self {
            PrimitiveArg::U8 => 1,
            PrimitiveArg::U16 => 2,
            PrimitiveArg::U32 => 4,
            PrimitiveArg::U64 => 8,
            PrimitiveArg::U128 => 16,
        }
    }
}

} // verus!

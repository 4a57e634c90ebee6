//! Packing values into fixed-size instruction data.
use vstd::prelude::*;

verus! {

/// A value with a packed representation of exactly `LEN` bytes.
pub trait Pack<const LEN: usize>: Sized {
    /// The packed bytes of a value.
    spec fn packed(&self) -> Seq<u8>;

    /// Writes the packed bytes into `dst`.
    fn pack_into_slice(&self, dst: &mut [u8; LEN])
        ensures
            final(dst)@ == self.packed(),
    ;

    /// The packed bytes.
    fn pack(&self) -> (r: [u8; LEN])
        ensures
            r@ == self.packed(),
    {
        let mut dst = [0u8; LEN];
        self.pack_into_slice(&mut dst);
        dst
    }
}

/// Copies `src` into the front of `dst`, byte by byte, stopping at the end of the shorter of the
/// two; the rest of `dst` is left as it was.
pub fn write_bytes(dst: &mut [u8], src: &[u8])
    ensures
        final(dst)@.len() == old(dst)@.len(),
        ({
            let n = if old(dst)@.len() < src@.len() { old(dst)@.len() } else { src@.len() };
            final(dst)@ == src@.subrange(0, n as int) + old(dst)@.subrange(
                n as int,
                old(dst)@.len() as int,
            )
        }),
{
    let n = if dst.len() < src.len() { dst.len() } else { src.len() };
    let mut i: usize = 0;
    while i < n
        invariant
            0 <= i <= n,
            n <= dst@.len(),
            n <= src@.len(),
            n == (if old(dst)@.len() < src@.len() { old(dst)@.len() } else { src@.len() }),
            dst@.len() == old(dst)@.len(),
            forall|j: int| 0 <= j < i ==> dst@[j] == src@[j],
            forall|j: int| i <= j < dst@.len() ==> dst@[j] == old(dst)@[j],
        decreases n - i,
    {
        dst[i] = src[i];
        i = i + 1;
    }
    assert(dst@ =~= src@.subrange(0, n as int) + old(dst)@.subrange(n as int, old(dst)@.len() as int));
}

} // verus!

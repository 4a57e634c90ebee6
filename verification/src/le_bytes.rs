//! Little-endian byte encodings of the fixed-width integers stored in market account data.
use vstd::prelude::*;

verus! {

/// The little-endian value of four bytes.
pub open spec fn le_u32_value(b: [u8; 4]) -> u32 {
    (b[0] as int + 256 * b[1] as int + 65536 * b[2] as int + 16777216 * b[3] as int) as u32
}

/// Decodes a little-endian `u32`.
pub fn u32_from_le(b: [u8; 4]) -> (r: u32)
    ensures
        r == le_u32_value(b),
{
    (b[0] as u32) + (b[1] as u32) * 256 + (b[2] as u32) * 65536 + (b[3] as u32) * 16777216
}

/// The little-endian bytes of a `u32`.
pub open spec fn u32_le_bytes(x: u32) -> Seq<u8> {
    seq![(x % 256) as u8, ((x / 256) % 256) as u8, ((x / 65536) % 256) as u8, (x / 16777216) as u8]
}

/// The little-endian bytes of a `u64`: those of its low half, then those of its high half.
pub open spec fn u64_le_bytes(x: u64) -> Seq<u8> {
    u32_le_bytes((x % 0x1_0000_0000) as u32) + u32_le_bytes((x / 0x1_0000_0000) as u32)
}

/// Encodes a `u32` as little-endian bytes.
pub fn u32_to_le(x: u32) -> (b: [u8; 4])
    ensures
        le_u32_value(b) == x,
        b@ == u32_le_bytes(x),
{
    let b0 = (x % 256) as u8;
    let b1 = ((x / 256) % 256) as u8;
    let b2 = ((x / 65536) % 256) as u8;
    let b3 = (x / 16777216) as u8;
    let b = [b0, b1, b2, b3];
    assert(b@ =~= u32_le_bytes(x));
    b
}

/// Two four-byte arrays with the same little-endian value are equal.
pub proof fn lemma_le_u32_injective(b: [u8; 4], c: [u8; 4])
    requires
        le_u32_value(b) == le_u32_value(c),
    ensures
        b@ == c@,
{
    assert(b[0] == c[0] && b[1] == c[1] && b[2] == c[2] && b[3] == c[3]) by (nonlinear_arith)
        requires
            (b[0] as int + 256 * b[1] as int + 65536 * b[2] as int + 16777216 * b[3] as int) as u32
                == (c[0] as int + 256 * c[1] as int + 65536 * c[2] as int + 16777216 * c[3] as int) as u32,
    ;
    assert(b@ =~= c@);
}

/// The little-endian value of eight bytes: the low four bytes plus 2^32 times the high four.
pub open spec fn le_u64_value(b: [u8; 8]) -> u64 {
    (le_u32_value([b[0], b[1], b[2], b[3]]) as int + 0x1_0000_0000 * le_u32_value(
        [b[4], b[5], b[6], b[7]],
    ) as int) as u64
}

/// Decodes a little-endian `u64`.
pub fn u64_from_le(b: [u8; 8]) -> (r: u64)
    ensures
        r == le_u64_value(b),
{
    let lo = u32_from_le([b[0], b[1], b[2], b[3]]);
    let hi = u32_from_le([b[4], b[5], b[6], b[7]]);
    (lo as u64) + (hi as u64) * 0x1_0000_0000
}

/// Encodes a `u64` as little-endian bytes.
pub fn u64_to_le(x: u64) -> (b: [u8; 8])
    ensures
        le_u64_value(b) == x,
        b@ == u64_le_bytes(x),
{
    let lo = u32_to_le((x % 0x1_0000_0000) as u32);
    let hi = u32_to_le((x / 0x1_0000_0000) as u32);
    let b = [lo[0], lo[1], lo[2], lo[3], hi[0], hi[1], hi[2], hi[3]];
    assert([b[0], b[1], b[2], b[3]]@ == lo@);
    assert([b[4], b[5], b[6], b[7]]@ == hi@);
    assert(b@ =~= u64_le_bytes(x));
    b
}

/// The little-endian `u32` held in `s` at `off..off + 4`.
pub open spec fn le_u32_at(s: Seq<u8>, off: int) -> u32 {
    (s[off] as int + 256 * s[off + 1] as int + 65536 * s[off + 2] as int + 16777216 * s[off
        + 3] as int) as u32
}

/// The little-endian `u64` held in `s` at `off..off + 8`.
pub open spec fn le_u64_at(s: Seq<u8>, off: int) -> u64 {
    (le_u32_at(s, off) as int + 0x1_0000_0000 * le_u32_at(s, off + 4) as int) as u64
}

/// The array decodings agree with the sequence decodings at offset zero.
pub proof fn lemma_le_at_zero(b4: [u8; 4], b8: [u8; 8])
    ensures
        le_u32_value(b4) == le_u32_at(b4@, 0),
        le_u64_value(b8) == le_u64_at(b8@, 0),
{
}

/// Copies `src` into `dst` at `off`.
pub fn write_at<const N: usize, const M: usize>(dst: &mut [u8; N], off: usize, src: &[u8; M])
    requires
        off + M <= N,
    ensures
        final(dst)@ == old(dst)@.subrange(0, off as int) + src@ + old(dst)@.subrange(
            off + M,
            N as int,
        ),
{
    let mut i: usize = 0;
    while i < M
        invariant
            0 <= i <= M,
            off + M <= N,
            dst@.len() == N,
            forall|j: int| 0 <= j < off ==> dst@[j] == old(dst)@[j],
            forall|j: int| off <= j < off + i ==> dst@[j] == src@[j - off],
            forall|j: int| off + i <= j < N ==> dst@[j] == old(dst)@[j],
        decreases M - i,
    {
        dst[off + i] = src[i];
        i = i + 1;
    }
    assert(dst@ =~= old(dst)@.subrange(0, off as int) + src@ + old(dst)@.subrange(
        off + M,
        N as int,
    ));
}

/// The `M` bytes of `src` at `off`.
pub fn read_bytes_at<const N: usize, const M: usize>(src: &[u8; N], off: usize) -> (r: [u8; M])
    requires
        off + M <= N,
    ensures
        r@ == src@.subrange(off as int, off + M),
{
    let mut r = [0u8; M];
    let mut i: usize = 0;
    while i < M
        invariant
            0 <= i <= M,
            off + M <= N,
            r@.len() == M,
            forall|j: int| 0 <= j < i ==> r@[j] == src@[off + j],
        decreases M - i,
    {
        r[i] = src[off + i];
        i = i + 1;
    }
    assert(r@ =~= src@.subrange(off as int, off + M));
    r
}

/// The bytes of a slice of exactly `N` bytes as an array.
pub fn array_from_slice<const N: usize>(bytes: &[u8]) -> (r: [u8; N])
    requires
        bytes@.len() == N,
    ensures
        r@ == bytes@,
{
    let mut r = [0u8; N];
    let mut i: usize = 0;
    while i < N
        invariant
            0 <= i <= N,
            r@.len() == N,
            bytes@.len() == N,
            forall|j: int| 0 <= j < i ==> r@[j] == bytes@[j],
        decreases N - i,
    {
        r[i] = bytes[i];
        i = i + 1;
    }
    assert(r@ =~= bytes@);
    r
}

/// The little-endian bytes of a `u32` decode to it.
pub proof fn lemma_u32_le_bytes(x: u32)
    ensures
        u32_le_bytes(x).len() == 4,
        le_u32_at(u32_le_bytes(x), 0) == x,
{
}

/// The little-endian bytes of a `u64` decode to it.
pub proof fn lemma_u64_le_bytes(x: u64)
    ensures
        u64_le_bytes(x).len() == 8,
        le_u64_at(u64_le_bytes(x), 0) == x,
{
    let b = u64_le_bytes(x);
    lemma_u32_le_bytes((x % 0x1_0000_0000) as u32);
    lemma_u32_le_bytes((x / 0x1_0000_0000) as u32);
    assert(le_u32_at(b, 0) == le_u32_at(u32_le_bytes((x % 0x1_0000_0000) as u32), 0));
    assert(le_u32_at(b, 4) == le_u32_at(u32_le_bytes((x / 0x1_0000_0000) as u32), 0));
}

/// The base-256 digits of a four-digit number are its digits.
proof fn lemma_le_digits(b0: u8, b1: u8, b2: u8, b3: u8)
    by (bit_vector)
    ensures
        (b0 as u32 + 256 * (b1 as u32) + 65536 * (b2 as u32) + 16777216 * (b3 as u32)) % 256 == b0,
        ((b0 as u32 + 256 * (b1 as u32) + 65536 * (b2 as u32) + 16777216 * (b3 as u32)) / 256)
            % 256 == b1,
        ((b0 as u32 + 256 * (b1 as u32) + 65536 * (b2 as u32) + 16777216 * (b3 as u32)) / 65536)
            % 256 == b2,
        (b0 as u32 + 256 * (b1 as u32) + 65536 * (b2 as u32) + 16777216 * (b3 as u32)) / 16777216
            == b3,
{
}

/// Four bytes are the little-endian bytes of the value they decode to.
pub proof fn lemma_le_u32_at_bytes(b: Seq<u8>, off: int)
    requires
        0 <= off,
        off + 4 <= b.len(),
    ensures
        u32_le_bytes(le_u32_at(b, off)) == b.subrange(off, off + 4),
{
    let x = le_u32_at(b, off);
    let (b0, b1, b2, b3) = (b[off], b[off + 1], b[off + 2], b[off + 3]);
    lemma_le_digits(b0, b1, b2, b3);
    assert(x == b0 as u32 + 256 * (b1 as u32) + 65536 * (b2 as u32) + 16777216 * (b3 as u32));
    assert(u32_le_bytes(x) =~= b.subrange(off, off + 4));
}

/// Eight bytes are the little-endian bytes of the value they decode to.
pub proof fn lemma_le_u64_at_bytes(b: Seq<u8>, off: int)
    requires
        0 <= off,
        off + 8 <= b.len(),
    ensures
        u64_le_bytes(le_u64_at(b, off)) == b.subrange(off, off + 8),
{
    let x = le_u64_at(b, off);
    let lo = le_u32_at(b, off);
    let hi = le_u32_at(b, off + 4);
    assert(x == lo + 0x1_0000_0000 * hi);
    assert(x % 0x1_0000_0000 == lo && x / 0x1_0000_0000 == hi);
    lemma_le_u32_at_bytes(b, off);
    lemma_le_u32_at_bytes(b, off + 4);
    assert(u64_le_bytes(x) =~= b.subrange(off, off + 8));
}

/// Four bytes of `s` at `off` that are the bytes of `b` decode as `b` does.
pub proof fn lemma_le_u32_at_array(s: Seq<u8>, off: int, b: [u8; 4])
    requires
        0 <= off,
        off + 4 <= s.len(),
        s.subrange(off, off + 4) == b@,
    ensures
        le_u32_at(s, off) == le_u32_value(b),
{
    assert(s[off] == s.subrange(off, off + 4)[0]);
    assert(s[off + 1] == s.subrange(off, off + 4)[1]);
    assert(s[off + 2] == s.subrange(off, off + 4)[2]);
    assert(s[off + 3] == s.subrange(off, off + 4)[3]);
}

/// Eight bytes of `s` at `off` that are the bytes of `b` decode as `b` does.
pub proof fn lemma_le_u64_at_array(s: Seq<u8>, off: int, b: [u8; 8])
    requires
        0 <= off,
        off + 8 <= s.len(),
        s.subrange(off, off + 8) == b@,
    ensures
        le_u64_at(s, off) == le_u64_value(b),
{
    let t = s.subrange(off, off + 8);
    assert forall|i: int| 0 <= i < 8 implies s[off + i] == b@[i] by {
        assert(s[off + i] == t[i]);
    }
    assert(le_u32_value([b[0], b[1], b[2], b[3]]) == le_u32_at(s, off));
    assert(le_u32_value([b[4], b[5], b[6], b[7]]) == le_u32_at(s, off + 4));
}

/// Decoding within a subrange is decoding at the shifted offset of the whole.
pub proof fn lemma_le_u32_at_subrange(s: Seq<u8>, lo: int, hi: int, off: int)
    requires
        0 <= lo <= hi <= s.len(),
        0 <= off,
        off + 4 <= hi - lo,
    ensures
        le_u32_at(s.subrange(lo, hi), off) == le_u32_at(s, lo + off),
{
    let t = s.subrange(lo, hi);
    assert(t[off] == s[lo + off] && t[off + 1] == s[lo + off + 1] && t[off + 2] == s[lo + off + 2]
        && t[off + 3] == s[lo + off + 3]);
}

} // verus!

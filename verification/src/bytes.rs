//! Little-endian views of fixed-width integers and the verified buffer
//! primitives that read and write them at arbitrary byte offsets.
//!
//! Ancillary data reflects the host ABI, not network byte order; this module
//! fixes the little-endian layout used by the supported platforms.

use vstd::prelude::*;

verus! {

/// The four little-endian bytes of a 32-bit unsigned value.
pub open spec fn le32(v: u32) -> Seq<u8> {
    seq![
        (v & 0xff) as u8,
        ((v >> 8) & 0xff) as u8,
        ((v >> 16) & 0xff) as u8,
        ((v >> 24) & 0xff) as u8,
    ]
}

/// The 32-bit unsigned value read little-endian from four bytes.
pub open spec fn le32_val(b: Seq<u8>) -> u32
    recommends
        b.len() == 4,
{
    (b[0] as u32) | ((b[1] as u32) << 8) | ((b[2] as u32) << 16) | ((b[3] as u32) << 24)
}

/// The eight little-endian bytes of a 64-bit unsigned value.
pub open spec fn le64(v: u64) -> Seq<u8> {
    seq![
        (v & 0xff) as u8,
        ((v >> 8) & 0xff) as u8,
        ((v >> 16) & 0xff) as u8,
        ((v >> 24) & 0xff) as u8,
        ((v >> 32) & 0xff) as u8,
        ((v >> 40) & 0xff) as u8,
        ((v >> 48) & 0xff) as u8,
        ((v >> 56) & 0xff) as u8,
    ]
}

/// The 64-bit unsigned value read little-endian from eight bytes.
pub open spec fn le64_val(b: Seq<u8>) -> u64
    recommends
        b.len() == 8,
{
    (b[0] as u64) | ((b[1] as u64) << 8) | ((b[2] as u64) << 16) | ((b[3] as u64) << 24)
        | ((b[4] as u64) << 32) | ((b[5] as u64) << 40) | ((b[6] as u64) << 48)
        | ((b[7] as u64) << 56)
}

/// The four little-endian bytes of a signed 32-bit value, two's complement.
pub open spec fn le32i(v: i32) -> Seq<u8> {
    le32(v as u32)
}

/// The signed 32-bit value read little-endian from four bytes.
pub open spec fn i32_from_le(b: Seq<u8>) -> i32
    recommends
        b.len() == 4,
{
    le32_val(b) as i32
}

pub proof fn lemma_le32_round_trip(v: u32)
    ensures
        le32_val(le32(v)) == v,
{
    assert(((v & 0xff) as u8 as u32) | (((v >> 8) & 0xff) as u8 as u32) << 8
        | (((v >> 16) & 0xff) as u8 as u32) << 16 | (((v >> 24) & 0xff) as u8 as u32) << 24
        == v) by (bit_vector);
}

pub proof fn lemma_le64_round_trip(v: u64)
    ensures
        le64_val(le64(v)) == v,
{
    assert(((v & 0xff) as u8 as u64) | (((v >> 8) & 0xff) as u8 as u64) << 8
        | (((v >> 16) & 0xff) as u8 as u64) << 16 | (((v >> 24) & 0xff) as u8 as u64) << 24
        | (((v >> 32) & 0xff) as u8 as u64) << 32 | (((v >> 40) & 0xff) as u8 as u64) << 40
        | (((v >> 48) & 0xff) as u8 as u64) << 48 | (((v >> 56) & 0xff) as u8 as u64) << 56
        == v) by (bit_vector);
}

pub proof fn lemma_le32i_round_trip(v: i32)
    ensures
        i32_from_le(le32i(v)) == v,
{
    lemma_le32_round_trip(v as u32);
    assert((v as u32) as i32 == v) by (bit_vector);
}

/// The 16-bit unsigned value read little-endian from two bytes.
pub open spec fn le16_val(b: Seq<u8>) -> u16
    recommends
        b.len() == 2,
{
    (b[0] as u16) | ((b[1] as u16) << 8)
}

/// The 16-bit unsigned value read big-endian from two bytes.
pub open spec fn be16_val(b: Seq<u8>) -> u16
    recommends
        b.len() == 2,
{
    ((b[0] as u16) << 8) | (b[1] as u16)
}

/// Reads the 16-bit unsigned little-endian value at `off`.
pub fn read_u16_le(buf: &[u8], off: usize) -> (r: u16)
    requires
        off + 2 <= buf.len(),
    ensures
        r == le16_val(buf@.subrange(off as int, off as int + 2)),
{
    let r = (buf[off] as u16) | ((buf[off + 1] as u16) << 8);
    proof {
        let s = buf@.subrange(off as int, off as int + 2);
        assert(s[0] == buf@[off as int]);
        assert(s[1] == buf@[off as int + 1]);
    }
    r
}

/// Reads the 16-bit unsigned big-endian value at `off`.
pub fn read_u16_be(buf: &[u8], off: usize) -> (r: u16)
    requires
        off + 2 <= buf.len(),
    ensures
        r == be16_val(buf@.subrange(off as int, off as int + 2)),
{
    let r = ((buf[off] as u16) << 8) | (buf[off + 1] as u16);
    proof {
        let s = buf@.subrange(off as int, off as int + 2);
        assert(s[0] == buf@[off as int]);
        assert(s[1] == buf@[off as int + 1]);
    }
    r
}

/// Reads the 32-bit unsigned little-endian value at `off`.
pub fn read_u32_le(buf: &[u8], off: usize) -> (r: u32)
    requires
        off + 4 <= buf.len(),
    ensures
        r == le32_val(buf@.subrange(off as int, off as int + 4)),
{
    let r = (buf[off] as u32) | ((buf[off + 1] as u32) << 8) | ((buf[off + 2] as u32) << 16)
        | ((buf[off + 3] as u32) << 24);
    proof {
        let s = buf@.subrange(off as int, off as int + 4);
        assert(s[0] == buf@[off as int]);
        assert(s[1] == buf@[off as int + 1]);
        assert(s[2] == buf@[off as int + 2]);
        assert(s[3] == buf@[off as int + 3]);
    }
    r
}

/// Reads the 64-bit unsigned little-endian value at `off`.
pub fn read_u64_le(buf: &[u8], off: usize) -> (r: u64)
    requires
        off + 8 <= buf.len(),
    ensures
        r == le64_val(buf@.subrange(off as int, off as int + 8)),
{
    let r = (buf[off] as u64) | ((buf[off + 1] as u64) << 8) | ((buf[off + 2] as u64) << 16)
        | ((buf[off + 3] as u64) << 24) | ((buf[off + 4] as u64) << 32)
        | ((buf[off + 5] as u64) << 40) | ((buf[off + 6] as u64) << 48)
        | ((buf[off + 7] as u64) << 56);
    proof {
        let s = buf@.subrange(off as int, off as int + 8);
        assert forall|j: int| 0 <= j < 8 implies s[j] == buf@[off as int + j] by {}
    }
    r
}

/// Reads the signed 32-bit little-endian value at `off`.
pub fn read_i32_le(buf: &[u8], off: usize) -> (r: i32)
    requires
        off + 4 <= buf.len(),
    ensures
        r == i32_from_le(buf@.subrange(off as int, off as int + 4)),
{
    read_u32_le(buf, off) as i32
}

/// Writes the 32-bit unsigned value little-endian at `off`, leaving every
/// other byte unchanged.
pub fn write_u32_le(buf: &mut Vec<u8>, off: usize, v: u32)
    requires
        off + 4 <= old(buf).len(),
    ensures
        final(buf).len() == old(buf).len(),
        final(buf)@.subrange(off as int, off as int + 4) == le32(v),
        forall|j: int| 0 <= j < final(buf).len() && !(off <= j < off + 4) ==> final(buf)@[j] == old(buf)@[j],
{
    buf.set(off, #[verifier::truncate] ((v & 0xff) as u8));
    buf.set(off + 1, #[verifier::truncate] (((v >> 8) & 0xff) as u8));
    buf.set(off + 2, #[verifier::truncate] (((v >> 16) & 0xff) as u8));
    buf.set(off + 3, #[verifier::truncate] (((v >> 24) & 0xff) as u8));
    proof {
        assert(buf@.subrange(off as int, off as int + 4) =~= le32(v));
    }
}

/// Writes the 64-bit unsigned value little-endian at `off`, leaving every
/// other byte unchanged.
pub fn write_u64_le(buf: &mut Vec<u8>, off: usize, v: u64)
    requires
        off + 8 <= old(buf).len(),
    ensures
        final(buf).len() == old(buf).len(),
        final(buf)@.subrange(off as int, off as int + 8) == le64(v),
        forall|j: int| 0 <= j < final(buf).len() && !(off <= j < off + 8) ==> final(buf)@[j] == old(buf)@[j],
{
    buf.set(off, #[verifier::truncate] ((v & 0xff) as u8));
    buf.set(off + 1, #[verifier::truncate] (((v >> 8) & 0xff) as u8));
    buf.set(off + 2, #[verifier::truncate] (((v >> 16) & 0xff) as u8));
    buf.set(off + 3, #[verifier::truncate] (((v >> 24) & 0xff) as u8));
    buf.set(off + 4, #[verifier::truncate] (((v >> 32) & 0xff) as u8));
    buf.set(off + 5, #[verifier::truncate] (((v >> 40) & 0xff) as u8));
    buf.set(off + 6, #[verifier::truncate] (((v >> 48) & 0xff) as u8));
    buf.set(off + 7, #[verifier::truncate] (((v >> 56) & 0xff) as u8));
    proof {
        assert(buf@.subrange(off as int, off as int + 8) =~= le64(v));
    }
}

/// Writes the signed 32-bit value little-endian at `off`, leaving every
/// other byte unchanged.
pub fn write_i32_le(buf: &mut Vec<u8>, off: usize, v: i32)
    requires
        off + 4 <= old(buf).len(),
    ensures
        final(buf).len() == old(buf).len(),
        final(buf)@.subrange(off as int, off as int + 4) == le32i(v),
        forall|j: int| 0 <= j < final(buf).len() && !(off <= j < off + 4) ==> final(buf)@[j] == old(buf)@[j],
{
    write_u32_le(buf, off, v as u32);
}

/// Copies `src` into `buf` starting at `off`, leaving every other byte
/// unchanged.
pub fn write_bytes(buf: &mut Vec<u8>, off: usize, src: &[u8])
    requires
        off + src.len() <= old(buf).len(),
    ensures
        final(buf).len() == old(buf).len(),
        final(buf)@.subrange(off as int, off as int + src.len()) == src@,
        forall|j: int|
            0 <= j < final(buf).len() && !(off <= j < off + src.len()) ==> final(buf)@[j] == old(buf)@[j],
{
    let n = src.len();
    let mut i: usize = 0;
    while i < n
        invariant
            n == src.len(),
            i <= n,
            off + n <= buf.len(),
            buf.len() == old(buf).len(),
            forall|j: int| 0 <= j < i ==> buf@[off + j] == src@[j],
            forall|j: int| 0 <= j < buf.len() && !(off <= j < off + i) ==> buf@[j] == old(buf)@[j],
        decreases n - i,
    {
        buf.set(off + i, src[i]);
        i = i + 1;
    }
    proof {
        assert(buf@.subrange(off as int, off as int + src.len()) =~= src@);
    }
}

/// Overwrites `n` bytes at `off` with zeroes, leaving every other byte
/// unchanged.
pub fn write_zeroes(buf: &mut Vec<u8>, off: usize, n: usize)
    requires
        off + n <= old(buf).len(),
    ensures
        final(buf).len() == old(buf).len(),
        forall|j: int| off <= j < off + n ==> final(buf)@[j] == 0u8,
        forall|j: int| 0 <= j < final(buf).len() && !(off <= j < off + n) ==> final(buf)@[j] == old(buf)@[j],
{
    let mut i: usize = 0;
    while i < n
        invariant
            i <= n,
            off + n <= buf.len(),
            buf.len() == old(buf).len(),
            forall|j: int| off <= j < off + i ==> buf@[j] == 0u8,
            forall|j: int| 0 <= j < buf.len() && !(off <= j < off + i) ==> buf@[j] == old(buf)@[j],
        decreases n - i,
    {
        buf.set(off + i, 0u8);
        i = i + 1;
    }
}


/// Copies the byte range `[a, b)` of `buf` into a fresh vector.
pub fn copy_range(buf: &[u8], a: usize, b: usize) -> (r: Vec<u8>)
    requires
        a <= b <= buf.len(),
    ensures
        r@ == buf@.subrange(a as int, b as int),
{
    let mut r: Vec<u8> = Vec::new();
    let mut i: usize = a;
    while i < b
        invariant
            a <= i <= b <= buf.len(),
            r.len() == i - a,
            forall|j: int| 0 <= j < r.len() ==> r@[j] == buf@[a + j],
        decreases b - i,
    {
        r.push(buf[i]);
        i = i + 1;
    }
    proof {
        assert(r@ =~= buf@.subrange(a as int, b as int));
    }
    r
}

} // verus!

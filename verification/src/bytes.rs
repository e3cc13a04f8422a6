//! Little-endian integer fields inside byte buffers, as firmware tables and
//! on-disk structures lay them out.

use vstd::prelude::*;

verus! {

/// The 16-bit little-endian value at `off`.
pub open spec fn le16(s: Seq<u8>, off: int) -> int {
    s[off] as int + s[off + 1] as int * 0x100
}

/// The 32-bit little-endian value at `off`.
pub open spec fn le32(s: Seq<u8>, off: int) -> int {
    le16(s, off) + le16(s, off + 2) * 0x1_0000
}

/// The 64-bit little-endian value at `off`.
pub open spec fn le64(s: Seq<u8>, off: int) -> int {
    le32(s, off) + le32(s, off + 4) * 0x1_0000_0000
}

pub fn read_u16(s: &[u8], off: usize) -> (r: u16)
    requires
        off + 2 <= s.len(),
    ensures
        r == le16(s@, off as int),
{
    (s[off] as u16) + (s[off + 1] as u16) * 0x100
}

pub fn read_u32(s: &[u8], off: usize) -> (r: u32)
    requires
        off + 4 <= s.len(),
    ensures
        r == le32(s@, off as int),
{
    let lo = read_u16(s, off) as u32;
    let hi = read_u16(s, off + 2) as u32;
    lo + hi * 0x1_0000
}

pub fn read_u64(s: &[u8], off: usize) -> (r: u64)
    requires
        off + 8 <= s.len(),
    ensures
        r == le64(s@, off as int),
{
    let lo = read_u32(s, off) as u64;
    let hi = read_u32(s, off + 4) as u64;
    lo + hi * 0x1_0000_0000
}

/// The bytes of `v`, least significant first.
pub open spec fn le_bytes16(v: u16) -> Seq<u8> {
    seq![(v % 0x100) as u8, (v / 0x100) as u8]
}

pub open spec fn le_bytes32(v: u32) -> Seq<u8> {
    le_bytes16((v % 0x1_0000) as u16) + le_bytes16((v / 0x1_0000) as u16)
}

pub open spec fn le_bytes64(v: u64) -> Seq<u8> {
    le_bytes32((v % 0x1_0000_0000) as u32) + le_bytes32((v / 0x1_0000_0000) as u32)
}

/// `s` with the bytes of `src` written from `off` on.
pub open spec fn splice(s: Seq<u8>, off: int, src: Seq<u8>) -> Seq<u8> {
    s.subrange(0, off) + src + s.subrange(off + src.len(), s.len() as int)
}

/// Writes `src` into `buf` at `off`.
pub fn write_bytes(buf: &mut Vec<u8>, off: usize, src: &[u8])
    requires
        off + src@.len() <= old(buf).len(),
    ensures
        final(buf)@ == splice(old(buf)@, off as int, src@),
{
    let mut i: usize = 0;
    while i < src.len()
        invariant
            off + src@.len() <= buf.len(),
            buf@.len() == old(buf)@.len(),
            0 <= i <= src@.len(),
            buf@ == splice(old(buf)@, off as int, src@.subrange(0, i as int)),
        decreases src@.len() - i,
    {
        buf.set(off + i, src[i]);
        i = i + 1;
        assert(buf@ =~= splice(old(buf)@, off as int, src@.subrange(0, i as int)));
    }
    assert(src@.subrange(0, src@.len() as int) =~= src@);
}

pub fn u16_le_bytes(v: u16) -> (r: Vec<u8>)
    ensures
        r@ == le_bytes16(v),
{
    let mut r = Vec::new();
    r.push((v % 0x100) as u8);
    r.push((v / 0x100) as u8);
    assert(r@ =~= le_bytes16(v));
    r
}

pub fn u32_le_bytes(v: u32) -> (r: Vec<u8>)
    ensures
        r@ == le_bytes32(v),
{
    let mut r = u16_le_bytes((v % 0x1_0000) as u16);
    let mut hi = u16_le_bytes((v / 0x1_0000) as u16);
    r.append(&mut hi);
    r
}

pub fn u64_le_bytes(v: u64) -> (r: Vec<u8>)
    ensures
        r@ == le_bytes64(v),
{
    let mut r = u32_le_bytes((v % 0x1_0000_0000) as u32);
    let mut hi = u32_le_bytes((v / 0x1_0000_0000) as u32);
    r.append(&mut hi);
    r
}

/// Reading back a 64-bit value from its own bytes gives the value.
pub proof fn lemma_le64_roundtrip(v: u64)
    ensures
        le_bytes64(v).len() == 8,
        le64(le_bytes64(v), 0) == v,
{
    let s = le_bytes64(v);
    assert(s.len() == 8);
}

/// Reading back a 16-bit value from its own bytes gives the value.
pub proof fn lemma_le16_roundtrip(v: u16)
    ensures
        le_bytes16(v).len() == 2,
        le16(le_bytes16(v), 0) == v,
{
}

/// Reading back a 32-bit value from its own bytes gives the value.
pub proof fn lemma_le32_roundtrip(v: u32)
    ensures
        le_bytes32(v).len() == 4,
        le32(le_bytes32(v), 0) == v,
{
}

/// The bytes of `s` as a new vector.
pub fn copy_bytes(s: &[u8]) -> (r: Vec<u8>)
    ensures
        r@ == s@,
{
    let mut r: Vec<u8> = Vec::new();
    let mut i: usize = 0;
    while i < s.len()
        invariant
            0 <= i <= s@.len(),
            r@ == s@.subrange(0, i as int),
        decreases s@.len() - i,
    {
        r.push(s[i]);
        i = i + 1;
        assert(r@ =~= s@.subrange(0, i as int));
    }
    assert(s@.subrange(0, s@.len() as int) =~= s@);
    r
}


/// Appends the bytes of `s` to `out`.
pub fn append_slice(out: &mut Vec<u8>, s: &[u8])
    ensures
        final(out)@ == old(out)@ + s@,
{
    let mut i: usize = 0;
    while i < s.len()
        invariant
            0 <= i <= s@.len(),
            out@ == old(out)@ + s@.subrange(0, i as int),
        decreases s@.len() - i,
    {
        out.push(s[i]);
        assert(s@.subrange(0, i + 1) =~= s@.subrange(0, i as int).push(s@[i as int]));
        i = i + 1;
    }
    assert(s@.subrange(0, s@.len() as int) =~= s@);
}

} // verus!

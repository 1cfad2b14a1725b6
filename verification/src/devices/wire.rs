//! Little-endian encoding and decoding of the integers in 9P messages.

use vstd::prelude::*;

verus! {

/// The two little-endian bytes of `x`.
pub open spec fn le16_seq(x: u16) -> Seq<u8> {
    seq![(x % 0x100) as u8, (x / 0x100) as u8]
}

/// The four little-endian bytes of `x`.
pub open spec fn le32_seq(x: u32) -> Seq<u8> {
    seq![(x % 0x100) as u8, ((x / 0x100) % 0x100) as u8, ((x / 0x1_0000) % 0x100) as u8, (x / 0x100_0000) as u8]
}

/// The eight little-endian bytes of `x`.
pub open spec fn le64_seq(x: u64) -> Seq<u8> {
    le32_seq((x % 0x1_0000_0000) as u32) + le32_seq((x / 0x1_0000_0000) as u32)
}

/// The 16-bit value stored little-endian at `i`.
pub open spec fn le16_at(s: Seq<u8>, i: int) -> u16 {
    (s[i] + s[i + 1] * 0x100) as u16
}

/// The 32-bit value stored little-endian at `i`.
pub open spec fn le32_at(s: Seq<u8>, i: int) -> u32 {
    (s[i] + s[i + 1] * 0x100 + s[i + 2] * 0x1_0000 + s[i + 3] * 0x100_0000) as u32
}

/// The 64-bit value stored little-endian at `i`.
pub open spec fn le64_at(s: Seq<u8>, i: int) -> u64 {
    (le32_at(s, i) + le32_at(s, i + 4) * 0x1_0000_0000) as u64
}

/// Appends `x` in little-endian order.
pub fn push_le16(v: &mut Vec<u8>, x: u16)
    ensures
        final(v)@ == old(v)@ + le16_seq(x),
{
    v.push((x % 0x100) as u8);
    v.push((x / 0x100) as u8);
    assert(final(v)@ =~= old(v)@ + le16_seq(x));
}

/// Appends `x` in little-endian order.
pub fn push_le32(v: &mut Vec<u8>, x: u32)
    ensures
        final(v)@ == old(v)@ + le32_seq(x),
{
    v.push((x % 0x100) as u8);
    v.push(((x / 0x100) % 0x100) as u8);
    v.push(((x / 0x1_0000) % 0x100) as u8);
    v.push((x / 0x100_0000) as u8);
    assert(final(v)@ =~= old(v)@ + le32_seq(x));
}

/// Appends `x` in little-endian order.
pub fn push_le64(v: &mut Vec<u8>, x: u64)
    ensures
        final(v)@ == old(v)@ + le64_seq(x),
{
    push_le32(v, (x % 0x1_0000_0000) as u32);
    push_le32(v, (x / 0x1_0000_0000) as u32);
    assert(final(v)@ =~= old(v)@ + le64_seq(x));
}

/// Appends all of `src`.
pub fn push_all(v: &mut Vec<u8>, src: &[u8])
    ensures
        final(v)@ == old(v)@ + src@,
{
    let mut i: usize = 0;
    while i < src.len()
        invariant
            i <= src.len(),
            v@ == old(v)@ + src@.subrange(0, i as int),
        decreases src.len() - i,
    {
        v.push(src[i]);
        i = i + 1;
        assert(v@ =~= old(v)@ + src@.subrange(0, i as int));
    }
    assert(src@.subrange(0, src@.len() as int) =~= src@);
}

/// The 16-bit value at `i`.
pub fn read_le16(s: &[u8], i: usize) -> (r: u16)
    requires
        i + 2 <= s.len(),
    ensures
        r == le16_at(s@, i as int),
{
    (s[i] as u16) + (s[i + 1] as u16) * 0x100
}

/// The 32-bit value at `i`.
pub fn read_le32(s: &[u8], i: usize) -> (r: u32)
    requires
        i + 4 <= s.len(),
    ensures
        r == le32_at(s@, i as int),
{
    (s[i] as u32) + (s[i + 1] as u32) * 0x100 + (s[i + 2] as u32) * 0x1_0000 + (s[i + 3] as u32) * 0x100_0000
}

/// The 64-bit value at `i`.
pub fn read_le64(s: &[u8], i: usize) -> (r: u64)
    requires
        i + 8 <= s.len(),
    ensures
        r == le64_at(s@, i as int),
{
    (read_le32(s, i) as u64) + (read_le32(s, i + 4) as u64) * 0x1_0000_0000
}

/// Encoding then decoding a 32-bit value gives it back.
pub proof fn lemma_le32_round_trip(x: u32)
    ensures
        le32_at(le32_seq(x), 0) == x,
{
}

/// Encoding then decoding a 16-bit value gives it back.
pub proof fn lemma_le16_round_trip(x: u16)
    ensures
        le16_at(le16_seq(x), 0) == x,
{
}

} // verus!

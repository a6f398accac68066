use vstd::prelude::*;

verus! {

/// The little-endian value of the two bytes of `s` at `off`.
pub open spec fn le_u16(s: Seq<u8>, off: int) -> int {
    s[off] + s[off + 1] * 0x100
}

/// The little-endian value of the four bytes of `s` at `off`.
pub open spec fn le_u32(s: Seq<u8>, off: int) -> int {
    le_u16(s, off) + le_u16(s, off + 2) * 0x1_0000
}

/// The little-endian value of the eight bytes of `s` at `off`.
pub open spec fn le_u64(s: Seq<u8>, off: int) -> int {
    le_u32(s, off) + le_u32(s, off + 4) * 0x1_0000_0000
}

/// Reads a little-endian `u16` at `off`.
pub fn read_u16_le(buf: &[u8], off: usize) -> (r: u16)
    requires
        off + 2 <= buf.len(),
    ensures
        r == le_u16(buf@, off as int),
{
    (buf[off] as u16) + (buf[off + 1] as u16) * 0x100
}

/// Reads a little-endian `u32` at `off`.
pub fn read_u32_le(buf: &[u8], off: usize) -> (r: u32)
    requires
        off + 4 <= buf.len(),
    ensures
        r == le_u32(buf@, off as int),
{
    let lo = read_u16_le(buf, off);
    let hi = read_u16_le(buf, off + 2);
    (lo as u32) + (hi as u32) * 0x1_0000
}

/// Reads a little-endian `u64` at `off`.
pub fn read_u64_le(buf: &[u8], off: usize) -> (r: u64)
    requires
        off + 8 <= buf.len(),
    ensures
        r == le_u64(buf@, off as int),
{
    let lo = read_u32_le(buf, off);
    let hi = read_u32_le(buf, off + 4);
    (lo as u64) + (hi as u64) * 0x1_0000_0000
}

} // verus!

use vstd::prelude::*;

verus! {

/// The big-endian value of the four bytes of `s` from index `i`.
pub open spec fn be_u32_at(s: Seq<u8>, i: int) -> u32 {
    (s[i] * 0x100_0000 + s[i + 1] * 0x1_0000 + s[i + 2] * 0x100 + s[i + 3]) as u32
}

/// The big-endian value of the three bytes of `s` from index `i`.
pub open spec fn be_u24_at(s: Seq<u8>, i: int) -> u32 {
    (s[i] * 0x1_0000 + s[i + 1] * 0x100 + s[i + 2]) as u32
}

/// Reads a big-endian `u32` from four bytes of `s` starting at `i`.
pub fn read_be_u32(s: &[u8], i: usize) -> (r: u32)
    requires
        i + 4 <= s@.len(),
    ensures
        r == be_u32_at(s@, i as int),
{
    (s[i] as u32) * 0x100_0000 + (s[i + 1] as u32) * 0x1_0000 + (s[i + 2] as u32) * 0x100 + (
    s[i + 3] as u32)
}

/// Widens three big-endian bytes to a `u32`.
pub fn u32_from_3_bytes_be(bytes: &[u8; 3]) -> (r: u32)
    ensures
        r == be_u24_at(bytes@, 0),
        r < 0x100_0000,
{
    (bytes[0] as u32) * 0x1_0000 + (bytes[1] as u32) * 0x100 + (bytes[2] as u32)
}

} // verus!

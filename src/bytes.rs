//! Little-endian integers at fixed offsets of a byte buffer.
use vstd::prelude::*;

verus! {

/// The 16-bit little-endian integer at `off`.
pub open spec fn le_u16_at(b: Seq<u8>, off: int) -> u16 {
    (b[off] + 256 * b[off + 1]) as u16
}

/// The 32-bit little-endian integer at `off`.
pub open spec fn le_u32_at(b: Seq<u8>, off: int) -> u32 {
    (le_u16_at(b, off) + 0x1_0000 * le_u16_at(b, off + 2)) as u32
}

/// The 64-bit little-endian integer at `off`.
pub open spec fn le_u64_at(b: Seq<u8>, off: int) -> u64 {
    (le_u32_at(b, off) + 0x1_0000_0000 * le_u32_at(b, off + 4)) as u64
}

pub fn read_u16(b: &[u8], off: usize) -> (r: u16)
    requires
        off + 2 <= b@.len(),
    ensures
        r == le_u16_at(b@, off as int),
{
    b[off] as u16 + 256 * (b[off + 1] as u16)
}

pub fn read_u32(b: &[u8], off: usize) -> (r: u32)
    requires
        off + 4 <= b@.len(),
    ensures
        r == le_u32_at(b@, off as int),
{
    let _ = b.len();
    read_u16(b, off) as u32 + 0x1_0000 * (read_u16(b, off + 2) as u32)
}

pub fn read_u64(b: &[u8], off: usize) -> (r: u64)
    requires
        off + 8 <= b@.len(),
    ensures
        r == le_u64_at(b@, off as int),
{
    let _ = b.len();
    read_u32(b, off) as u64 + 0x1_0000_0000 * (read_u32(b, off + 4) as u64)
}

} // verus!

//! Little-endian integer fields of the binary container.

use vstd::prelude::*;

verus! {

/// The little-endian `u16` stored at `pos`.
pub open spec fn spec_le_u16(s: Seq<u8>, pos: int) -> int {
    s[pos] as int + 256 * s[pos + 1] as int
}

/// The little-endian `u32` stored at `pos`.
pub open spec fn spec_le_u32(s: Seq<u8>, pos: int) -> int {
    spec_le_u16(s, pos) + 65536 * spec_le_u16(s, pos + 2)
}

/// Reads the little-endian `u16` stored at `pos`.
pub fn read_le_u16(s: &[u8], pos: usize) -> (r: u16)
    requires
        pos + 2 <= s@.len(),
    ensures
        r as int == spec_le_u16(s@, pos as int),
{
    s[pos] as u16 + 256 * (s[pos + 1] as u16)
}

/// Reads the little-endian `u32` stored at `pos`.
pub fn read_le_u32(s: &[u8], pos: usize) -> (r: u32)
    requires
        pos + 4 <= s@.len(),
    ensures
        r as int == spec_le_u32(s@, pos as int),
{
    let _n = s.len();
    let lo = read_le_u16(s, pos);
    let hi = read_le_u16(s, pos + 2);
    lo as u32 + 65536 * (hi as u32)
}

} // verus!

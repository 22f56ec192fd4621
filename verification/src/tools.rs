//! Big-endian integer assembly.

use vstd::prelude::*;

verus! {

/// The 32-bit value whose big-endian bytes are `b0 b1 b2 b3`.
pub open spec fn be32(b0: u8, b1: u8, b2: u8, b3: u8) -> int {
    b0 as int * 0x100_0000 + b1 as int * 0x1_0000 + b2 as int * 0x100 + b3 as int
}

/// The 24-bit value whose big-endian bytes are `b0 b1 b2`.
pub open spec fn be24(b0: u8, b1: u8, b2: u8) -> int {
    b0 as int * 0x1_0000 + b1 as int * 0x100 + b2 as int
}

/// The 16-bit value whose big-endian bytes are `b0 b1`.
pub open spec fn be16(b0: u8, b1: u8) -> int {
    b0 as int * 0x100 + b1 as int
}

/// Reads the first four bytes of `a` as a big-endian 32-bit integer.
pub fn make_be32(a: &[u8]) -> (r: u32)
    requires
        a@.len() >= 4,
    ensures
        r as int == be32(a@[0], a@[1], a@[2], a@[3]),
{
    let b0: u32 = a[0] as u32;
    let b1: u32 = a[1] as u32;
    let b2: u32 = a[2] as u32;
    let b3: u32 = a[3] as u32;
    b0 * 0x100_0000 + b1 * 0x1_0000 + b2 * 0x100 + b3
}

/// Reads the first two bytes of `a` as a big-endian 16-bit integer.
pub fn make_be16(a: &[u8]) -> (r: u16)
    requires
        a@.len() >= 2,
    ensures
        r as int == be16(a@[0], a@[1]),
{
    let b0: u16 = a[0] as u16;
    let b1: u16 = a[1] as u16;
    b0 * 0x100 + b1
}

} // verus!

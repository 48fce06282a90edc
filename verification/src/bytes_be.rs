//! Fixed-width big-endian numbers inside a byte string.

use vstd::prelude::*;

verus! {

/// The 16-bit number whose big-endian bytes stand at `at`.
pub open spec fn be16(b: Seq<u8>, at: int) -> int {
    b[at] * 0x100 + b[at + 1]
}

/// The 32-bit number whose big-endian bytes stand at `at`.
pub open spec fn be32(b: Seq<u8>, at: int) -> int {
    be16(b, at) * 0x1_0000 + be16(b, at + 2)
}

/// The 64-bit number whose big-endian bytes stand at `at`.
pub open spec fn be64(b: Seq<u8>, at: int) -> int {
    be32(b, at) * 0x1_0000_0000 + be32(b, at + 4)
}

/// Reads two bytes at `at`.
pub fn read_be16(b: &[u8], at: usize) -> (r: u16)
    requires
        at + 2 <= b.len(),
    ensures
        r == be16(b@, at as int),
{
    (b[at] as u16) * 0x100 + (b[at + 1] as u16)
}

/// Reads four bytes at `at`.
pub fn read_be32(b: &[u8], at: usize) -> (r: u32)
    requires
        at + 4 <= b.len(),
    ensures
        r == be32(b@, at as int),
{
    (read_be16(b, at) as u32) * 0x1_0000 + (read_be16(b, at + 2) as u32)
}

/// Reads eight bytes at `at`.
pub fn read_be64(b: &[u8], at: usize) -> (r: u64)
    requires
        at + 8 <= b.len(),
    ensures
        r == be64(b@, at as int),
{
    (read_be32(b, at) as u64) * 0x1_0000_0000 + (read_be32(b, at + 4) as u64)
}

/// What is read is made of the bytes in order, the first of them the most
/// significant.
pub proof fn numbers_are_read_from_the_highest_byte(b: &[u8], at: usize, r: (u16, u32, u64))
    requires
        at + 8 <= b@.len(),
        call_ensures(read_be16, (b, at), r.0),
        call_ensures(read_be32, (b, at), r.1),
        call_ensures(read_be64, (b, at), r.2),
    ensures
        r.0 == b@[at as int] * 256 + b@[at + 1],
        r.1 == b@[at as int] * 16777216 + b@[at + 1] * 65536 + b@[at + 2] * 256 + b@[at + 3],
        r.2 == r.1 * 4294967296 + b@[at + 4] * 16777216 + b@[at + 5] * 65536 + b@[at + 6] * 256
            + b@[at + 7],
{
}

} // verus!

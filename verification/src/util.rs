//! Little-endian integers in byte strings.

use vstd::prelude::*;

verus! {

/// The unsigned 32-bit integer whose little-endian encoding stands at
/// position `at` of `bytes`: the first byte counts least.
pub open spec fn spec_u32_le_at(bytes: Seq<u8>, at: int) -> u32
    recommends
        0 <= at,
        at + 4 <= bytes.len(),
{
    (bytes[at] + 0x100 * bytes[at + 1] + 0x1_0000 * bytes[at + 2] + 0x100_0000 * bytes[at + 3]) as u32
}

/// The byte of rank `rank` in the little-endian encoding of `x`.
pub open spec fn spec_le_byte(x: u32, rank: int) -> u8
    recommends
        0 <= rank < 4,
{
    if rank == 0 {
        (x % 0x100) as u8
    } else if rank == 1 {
        (x / 0x100 % 0x100) as u8
    } else if rank == 2 {
        (x / 0x1_0000 % 0x100) as u8
    } else {
        (x / 0x100_0000) as u8
    }
}

/// The four bytes that encode `x`, least significant byte first.
pub open spec fn spec_u32_to_le(x: u32) -> Seq<u8> {
    Seq::new(4, |rank: int| spec_le_byte(x, rank))
}

/// Decoding undoes encoding, wherever the four bytes stand.
pub proof fn lemma_u32_le_round_trip(bytes: Seq<u8>, at: int, x: u32)
    requires
        0 <= at,
        at + 4 <= bytes.len(),
        bytes.subrange(at, at + 4) == spec_u32_to_le(x),
    ensures
        spec_u32_le_at(bytes, at) == x,
{
    let word = bytes.subrange(at, at + 4);
    assert(bytes[at] == word[0] && bytes[at + 1] == word[1]);
    assert(bytes[at + 2] == word[2] && bytes[at + 3] == word[3]);
}

/// Reads the little-endian `u32` that starts at `at`.
pub fn u32_le_at(bytes: &[u8], at: usize) -> (r: u32)
    requires
        at + 4 <= bytes@.len(),
    ensures
        r == spec_u32_le_at(bytes@, at as int),
{
    let b0: u32 = bytes[at] as u32;
    let b1: u32 = bytes[at + 1] as u32;
    let b2: u32 = bytes[at + 2] as u32;
    let b3: u32 = bytes[at + 3] as u32;
    b0 + 0x100 * b1 + 0x1_0000 * b2 + 0x100_0000 * b3
}

/// Reads a slice of four bytes as a little-endian `u32`.
pub fn u32_from_slice(s: &[u8]) -> (r: u32)
    requires
        s@.len() == 4,
    ensures
        r == spec_u32_le_at(s@, 0),
{
    u32_le_at(s, 0)
}

} // verus!

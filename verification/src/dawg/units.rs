//! The bit layout of one packed unit.
//!
//! A unit is a plain `u32`. Seen as a trie node it carries, from the low bits
//! up: the label of the edge that leads to it (bits 0 to 7), the flag that a
//! key ends here (bit 8), the flag that the offset is stored in units of 256
//! (bit 9) and the offset itself (bits 10 to 31). Seen as the companion of a
//! node where a key ends it carries the key's value in bits 0 to 30, with
//! bit 31 set. Every `u32` decodes: none of the functions here can fail.

use vstd::prelude::*;

verus! {

/// The mask that confines an index to the address space of the array.
pub const PRECISION_MASK: u32 = 0xFFFF_FFFF;

/// Set in a unit that holds a value.
pub const IS_LEAF_BIT: u32 = 0x8000_0000;

/// Set in a node at which a key ends.
pub const HAS_LEAF_BIT: u32 = 0x0000_0100;

/// Set in a node whose offset is stored divided by 256.
pub const EXTENSION_BIT: u32 = 0x0000_0200;

/// Whether a key ends at the node: bit 8.
pub open spec fn spec_has_leaf(unit: u32) -> bool {
    unit & HAS_LEAF_BIT != 0
}

/// The value that a unit holds: bits 0 to 30.
pub open spec fn spec_value(unit: u32) -> u32 {
    unit & 0x7FFF_FFFF
}

/// The label of a node, together with bit 31. A unit that holds a value has
/// bit 31 set, so its label equals no byte.
pub open spec fn spec_label(unit: u32) -> u32 {
    unit & 0x8000_00FF
}

/// The offset of a node: bits 10 to 31, times 256 where bit 9 is set.
pub open spec fn spec_offset(unit: u32) -> u32 {
    if unit & EXTENSION_BIT != 0 {
        ((unit >> 10) << 8) as u32
    } else {
        unit >> 10
    }
}

/// A unit that holds a value bears no label: whatever byte a walk looks for,
/// it does not take such a unit for a node.
pub proof fn lemma_value_unit_has_no_label(unit: u32, byte: u8)
    requires
        unit & IS_LEAF_BIT != 0,
    ensures
        spec_label(unit) != byte as u32,
{
    assert(unit & 0x8000_0000 != 0 ==> unit & 0x8000_00FF != byte as u32) by (bit_vector);
}

/// Tells whether a key ends at the node.
#[verifier::when_used_as_spec(spec_has_leaf)]
pub fn has_leaf(unit: u32) -> (r: bool)
    ensures
        r == spec_has_leaf(unit),
{
    unit & HAS_LEAF_BIT != 0
}

/// Reads the value out of a unit that holds one.
#[verifier::when_used_as_spec(spec_value)]
pub fn value(unit: u32) -> (r: u32)
    ensures
        r == spec_value(unit),
        r <= 0x7FFF_FFFF,
{
    assert(unit & 0x7FFF_FFFF == unit & !IS_LEAF_BIT & PRECISION_MASK) by (bit_vector);
    assert(unit & 0x7FFF_FFFF <= 0x7FFF_FFFF) by (bit_vector);
    unit & !IS_LEAF_BIT & PRECISION_MASK
}

/// Reads the label of a node.
#[verifier::when_used_as_spec(spec_label)]
pub fn label(unit: u32) -> (r: u32)
    ensures
        r == spec_label(unit),
{
    assert(unit & 0x8000_00FF == unit & (IS_LEAF_BIT | 0xFF)) by (bit_vector);
    unit & (IS_LEAF_BIT | 0xFF)
}

/// Reads the offset of a node.
#[verifier::when_used_as_spec(spec_offset)]
pub fn offset(unit: u32) -> (r: u32)
    ensures
        r == spec_offset(unit),
        r <= 0x3FFF_FF00,
{
    assert(({
        let shift = (unit & EXTENSION_BIT) >> 6;
        let shifted = (unit >> 10) << shift;
        &&& shift < 32
        &&& shifted <= 0x3FFF_FF00
        &&& unit & EXTENSION_BIT != 0 ==> shifted == (unit >> 10) << 8
        &&& unit & EXTENSION_BIT == 0 ==> shifted == unit >> 10
    })) by (bit_vector);
    (unit >> 10) << ((unit & EXTENSION_BIT) >> 6)
}

} // verus!

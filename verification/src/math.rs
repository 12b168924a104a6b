//! Bit rotation on 32-bit words.

use vstd::prelude::*;

verus! {

/// The word `value` rotated to the right by `count` bit positions. Rotating by
/// a multiple of 32 gives the word back, so only `count % 32` matters.
pub open spec fn spec_ror32(value: u32, count: u32) -> u32 {
    let k = count % 32;
    if k == 0 {
        value
    } else {
        (value >> k) | (value << ((32 - k) as u32))
    }
}

/// Rotates `value` to the right by `count` bits.
#[inline(always)]
pub fn ror32(value: u32, count: u32) -> (rotated: u32)
    ensures
        rotated == spec_ror32(value, count),
{
    let k: u32 = count % 32;
    if k == 0 {
        value
    } else {
        (value >> k) | (value << (32 - k))
    }
}

/// A rotation to the right by 31 bits is a rotation to the left by one: every
/// bit moves one place up and the top bit comes back in at the bottom.
pub proof fn lemma_ror32_by_31(value: u32)
    ensures
        spec_ror32(value, 31) == (value as int * 2) % 0x1_0000_0000 + value as int / 0x8000_0000,
{
    assert(31u32 % 32 == 31);
    assert(((value >> 31u32) | (value << 1u32)) == (value * 2) % 0x1_0000_0000 + value
        / 0x8000_0000) by (bit_vector);
}

} // verus!

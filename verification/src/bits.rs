//! Bit rotation.

use vstd::prelude::*;

verus! {

/// `value` turned left by `count` bits, for `count` below 32.
pub open spec fn rotated_left(value: u32, count: u32) -> u32 {
    if count == 0 {
        value
    } else {
        (value << count) | (value >> ((32 - count) as u32))
    }
}

pub fn rotate_left(value: u32, count: u32) -> (turned: u32)
    requires
        count < 32,
    ensures
        turned == rotated_left(value, count),
{
    if count == 0 {
        value
    } else {
        (value << count) | (value >> (32 - count))
    }
}

/// Turning a word and turning it on by the rest of its bits gives it back, and no
/// bit is lost.
pub proof fn words_turn_all_the_way_round(value: u32, count: u32)
    requires
        0 < count < 32,
    ensures
        rotated_left(rotated_left(value, count), (32 - count) as u32) == value,
        rotated_left(value, 0) == value,
        rotated_left(value, 1) & 1 == value >> 31u32,
        rotated_left(value, 1) >> 1u32 == value & 0x7fff_ffff,
{
    let rest = (32 - count) as u32;
    let turned = (value << count) | (value >> rest);
    assert((turned << rest) | (turned >> count) == value) by (bit_vector)
        requires
            0 < count < 32,
            rest == 32 - count,
            turned == (value << count) | (value >> rest),
    ;
    assert(((value << 1u32) | (value >> 31u32)) & 1 == value >> 31u32 && ((value << 1u32) | (value
        >> 31u32)) >> 1u32 == value & 0x7fff_ffff) by (bit_vector);
}

} // verus!

//! Saturating, truncating and shifting integer helpers with exact contracts.

use vstd::prelude::*;

use crate::world::{Vec3I16, Vec3I32};

verus! {

/// `value` moved to the nearest point of `low..=high`.
pub open spec fn clamp_int(value: int, low: int, high: int) -> int {
    if value < low {
        low
    } else if value > high {
        high
    } else {
        value
    }
}

/// The `i32` nearest to `value`.
pub open spec fn sat_i32(value: int) -> int {
    clamp_int(value, i32::MIN as int, i32::MAX as int)
}

/// The `i16` nearest to `value`.
pub open spec fn sat_i16(value: int) -> int {
    clamp_int(value, i16::MIN as int, i16::MAX as int)
}

/// Quotient rounded towards zero, for a positive divisor.
pub open spec fn div_toward_zero(value: int, divisor: int) -> int {
    if value >= 0 {
        value / divisor
    } else {
        -((-value) / divisor)
    }
}

pub fn saturating_add_i32(left: i32, right: i32) -> (sum: i32)
    ensures
        sum == sat_i32(left + right),
{
    let wide: i64 = left as i64 + right as i64;
    clamp_to_i32(wide)
}

pub fn saturating_sub_i32(left: i32, right: i32) -> (difference: i32)
    ensures
        difference == sat_i32(left - right),
{
    let wide: i64 = left as i64 - right as i64;
    clamp_to_i32(wide)
}

pub fn saturating_mul_i32(left: i32, right: i32) -> (product: i32)
    ensures
        product == sat_i32(left * right),
{
    assert(-0x4000_0000_0000_0000 <= left * right <= 0x4000_0000_0000_0000) by (nonlinear_arith)
        requires
            -0x8000_0000 <= left <= 0x7fff_ffff,
            -0x8000_0000 <= right <= 0x7fff_ffff,
    ;
    clamp_to_i32(left as i64 * right as i64)
}

pub fn clamp_to_i32(value: i64) -> (clamped: i32)
    ensures
        clamped == sat_i32(value as int),
{
    if value < i32::MIN as i64 {
        i32::MIN
    } else if value > i32::MAX as i64 {
        i32::MAX
    } else {
        value as i32
    }
}

pub fn clamp_to_i16(value: i32) -> (clamped: i16)
    ensures
        clamped == sat_i16(value as int),
{
    if value < i16::MIN as i32 {
        i16::MIN
    } else if value > i16::MAX as i32 {
        i16::MAX
    } else {
        value as i16
    }
}

pub fn saturating_add_i16(left: i16, right: i16) -> (sum: i16)
    ensures
        sum == sat_i16(left + right),
{
    clamp_to_i16(left as i32 + right as i32)
}

pub fn saturating_sub_i16(left: i16, right: i16) -> (difference: i16)
    ensures
        difference == sat_i16(left - right),
{
    clamp_to_i16(left as i32 - right as i32)
}

pub fn div_i32(value: i32, divisor: i32) -> (quotient: i32)
    requires
        divisor > 0,
    ensures
        quotient == div_toward_zero(value as int, divisor as int),
{
    value / divisor
}

/// Q20.12 to whole units, rounding down.
pub fn whole_units(value: i32) -> (units: i32)
    ensures
        units == value as int / 4096,
        -524288 <= units < 524288,
{
    assert(value >> 12u32 == value as int / 4096 && -524288 <= value >> 12u32 < 524288) by (bit_vector);
    value >> 12u32
}

/// A point in whole units, each axis brought into 16 bits.
pub open spec fn unit_point(point: Vec3I32) -> Vec3I16 {
    Vec3I16 {
        x: sat_i16(point.x as int / 4096) as i16,
        y: sat_i16(point.y as int / 4096) as i16,
        z: sat_i16(point.z as int / 4096) as i16,
    }
}

/// Bring a Q20.12 point into the range that can be projected.
pub fn to_unit_point(point: Vec3I32) -> (units: Vec3I16)
    ensures
        units == unit_point(point),
{
    Vec3I16 {
        x: clamp_to_i16(whole_units(point.x)),
        y: clamp_to_i16(whole_units(point.y)),
        z: clamp_to_i16(whole_units(point.z)),
    }
}

/// Componentwise saturating sum.
pub open spec fn sat_sum(left: Vec3I32, right: Vec3I32) -> Vec3I32 {
    Vec3I32 {
        x: sat_i32(left.x + right.x) as i32,
        y: sat_i32(left.y + right.y) as i32,
        z: sat_i32(left.z + right.z) as i32,
    }
}

/// Componentwise saturating difference.
pub open spec fn sat_difference(left: Vec3I32, right: Vec3I32) -> Vec3I32 {
    Vec3I32 {
        x: sat_i32(left.x - right.x) as i32,
        y: sat_i32(left.y - right.y) as i32,
        z: sat_i32(left.z - right.z) as i32,
    }
}

/// Componentwise saturating multiple.
pub open spec fn sat_multiple(vector: Vec3I32, factor: int) -> Vec3I32 {
    Vec3I32 {
        x: sat_i32(vector.x * factor) as i32,
        y: sat_i32(vector.y * factor) as i32,
        z: sat_i32(vector.z * factor) as i32,
    }
}

pub fn saturating_sum(left: Vec3I32, right: Vec3I32) -> (sum: Vec3I32)
    ensures
        sum == sat_sum(left, right),
{
    Vec3I32 {
        x: saturating_add_i32(left.x, right.x),
        y: saturating_add_i32(left.y, right.y),
        z: saturating_add_i32(left.z, right.z),
    }
}

pub fn saturating_difference(left: Vec3I32, right: Vec3I32) -> (difference: Vec3I32)
    ensures
        difference == sat_difference(left, right),
{
    Vec3I32 {
        x: saturating_sub_i32(left.x, right.x),
        y: saturating_sub_i32(left.y, right.y),
        z: saturating_sub_i32(left.z, right.z),
    }
}

pub fn saturating_multiple(vector: Vec3I32, factor: i32) -> (multiple: Vec3I32)
    ensures
        multiple == sat_multiple(vector, factor as int),
{
    Vec3I32 {
        x: saturating_mul_i32(vector.x, factor),
        y: saturating_mul_i32(vector.y, factor),
        z: saturating_mul_i32(vector.z, factor),
    }
}

/// Every axis is treated alone, and a result that is a 32-bit number is exact.
pub proof fn vectors_are_reckoned_axis_by_axis(left: Vec3I32, right: Vec3I32, factor: int)
    ensures
        i32::MIN <= left.x + right.x <= i32::MAX ==> sat_sum(left, right).x == left.x + right.x,
        i32::MIN <= left.y + right.y <= i32::MAX ==> sat_sum(left, right).y == left.y + right.y,
        i32::MIN <= left.z + right.z <= i32::MAX ==> sat_sum(left, right).z == left.z + right.z,
        i32::MIN <= left.x - right.x <= i32::MAX ==> sat_difference(left, right).x == left.x
            - right.x,
        i32::MIN <= left.y - right.y <= i32::MAX ==> sat_difference(left, right).y == left.y
            - right.y,
        i32::MIN <= left.z - right.z <= i32::MAX ==> sat_difference(left, right).z == left.z
            - right.z,
        i32::MIN <= left.x * factor <= i32::MAX ==> sat_multiple(left, factor).x == left.x
            * factor,
        i32::MIN <= left.y * factor <= i32::MAX ==> sat_multiple(left, factor).y == left.y
            * factor,
        i32::MIN <= left.z * factor <= i32::MAX ==> sat_multiple(left, factor).z == left.z
            * factor,
{
}

/// A result out of range stops at the end of the range on its own side.
pub proof fn saturation_keeps_the_side(value: int)
    ensures
        value > i32::MAX ==> sat_i32(value) == 0x7fff_ffff,
        value < i32::MIN ==> sat_i32(value) == -0x8000_0000,
        value > i16::MAX ==> sat_i16(value) == 0x7fff,
        value < i16::MIN ==> sat_i16(value) == -0x8000,
        -0x8000 <= value <= 0x7fff ==> sat_i16(value) == value,
        -0x8000_0000 <= value <= 0x7fff_ffff ==> sat_i32(value) == value,
{
}

/// Quotients round towards zero: negating the dividend negates them, and a
/// multiple of the divisor divides exactly.
pub proof fn quotients_mirror(value: int, divisor: int, whole: int)
    requires
        divisor > 0,
    ensures
        div_toward_zero(-value, divisor) == -div_toward_zero(value, divisor),
        value >= 0 ==> div_toward_zero(value, divisor) * divisor <= value
            < div_toward_zero(value, divisor) * divisor + divisor,
{
    if value >= 0 {
        assert(value / divisor * divisor <= value < value / divisor * divisor + divisor)
            by (nonlinear_arith)
            requires
                divisor > 0,
        ;
        if value == 0 {
            assert(0int / divisor == 0) by (nonlinear_arith)
                requires
                    divisor > 0,
            ;
        }
    }
}

/// A point in whole units is its own unit point, and so is every point less
/// than a unit beyond it.
pub proof fn whole_points_stay(point: Vec3I16, x: int, y: int, z: int)
    requires
        0 <= x < 4096,
        0 <= y < 4096,
        0 <= z < 4096,
    ensures
        unit_point(
            Vec3I32 {
                x: (4096 * point.x + x) as i32,
                y: (4096 * point.y + y) as i32,
                z: (4096 * point.z + z) as i32,
            },
        ) == point,
{
}

} // verus!

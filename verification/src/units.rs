//! Units of length and time, and the arithmetic that keeps positions inside
//! the coordinate range.

use vstd::prelude::*;

verus! {

/// Units in one pixel.
pub const UNITS_PER_PIXEL: u32 = 1000;

/// Microseconds in one second.
pub const MICROS_PER_SECOND: u32 = 1_000_000;

/// No speed covers more than this many units in one frame, whatever the
/// frame's length.
pub const MAX_TRAVEL: i64 = 9_223_372_036_855;

/// `value` held to the range of a coordinate.
pub open spec fn saturate_spec(value: int) -> int {
    if value < i32::MIN {
        i32::MIN as int
    } else if value > i32::MAX {
        i32::MAX as int
    } else {
        value
    }
}

/// Distance covered at `speed` units per second during `dt_micros`
/// microseconds, rounded toward zero.
pub open spec fn travel_spec(speed: int, dt_micros: int) -> int {
    if speed >= 0 {
        speed * dt_micros / 1_000_000
    } else {
        -((-speed) * dt_micros / 1_000_000)
    }
}

/// A length in whole pixels, rounded to the nearest, halves upward.
pub open spec fn whole_pixels_spec(length: int) -> int {
    (length + 500) / 1000
}

/// `value` held to the range of a coordinate.
pub fn saturate(value: i128) -> (held: i32)
    ensures
        held == saturate_spec(value as int),
{
    if value < i32::MIN as i128 {
        i32::MIN
    } else if value > i32::MAX as i128 {
        i32::MAX
    } else {
        value as i32
    }
}

/// Distance covered at `speed` units per second during `dt_micros`
/// microseconds, rounded toward zero.
pub fn travel(speed: i32, dt_micros: u32) -> (distance: i64)
    ensures
        distance == travel_spec(speed as int, dt_micros as int),
        -MAX_TRAVEL <= distance <= MAX_TRAVEL,
{
    let forward: bool = speed >= 0;
    let pace: u64 = if forward {
        speed as u64
    } else {
        (-(speed as i64)) as u64
    };
    assert(pace * dt_micros <= 0x8000_0000 * 0xffff_ffff) by (nonlinear_arith)
        requires
            0 <= pace <= 0x8000_0000,
            0 <= dt_micros <= 0xffff_ffff,
    ;
    let covered: u64 = pace * (dt_micros as u64) / (MICROS_PER_SECOND as u64);
    if forward {
        covered as i64
    } else {
        -(covered as i64)
    }
}

/// A length in whole pixels, rounded to the nearest, halves upward.
pub fn whole_pixels(length: u32) -> (pixels: u32)
    ensures
        pixels == whole_pixels_spec(length as int),
{
    ((length as u64 + 500) / (UNITS_PER_PIXEL as u64)) as u32
}

} // verus!

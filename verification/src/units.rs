//! Conversion of raw sensor fields to physical units.
//!
//! Every result counts millionths of the target unit, so that each conversion
//! is an exact integer product and never fails.

use vstd::prelude::*;

verus! {

/// Stored units per display unit.
pub const MICRO: i64 = 1_000_000;

/// Millionths of a metre per second squared in one milli-g (g = 9.81 m/s^2).
pub const MICRO_MPS2_PER_MILLI_G: i64 = 9_810;

/// Millionths of a radian per second in one milliradian per second.
pub const MICRO_RAD_PER_MILLI_RAD: i64 = 1_000;

/// Acceleration of `raw` milli-g, in millionths of m/s^2: `raw / 1000 * 9.81`
/// metres per second squared.
pub open spec fn accel_micro_mps2(raw: int) -> int {
    raw * 9_810
}

/// Angular rate of `raw` milliradians per second, in millionths of rad/s:
/// `raw / 1000` radians per second.
pub open spec fn gyro_micro_rad(raw: int) -> int {
    raw * 1_000
}

/// Field strength of `raw` milligauss, in millionths of a milligauss. The
/// reading is shown as it was sent: no calibration is applied.
pub open spec fn mag_micro_mgauss(raw: int) -> int {
    raw * 1_000_000
}

/// Converts an accelerometer reading in milli-g to millionths of m/s^2.
#[allow(non_snake_case)]
pub fn scale_mG_to_mps2(val: i16) -> (out: i64)
    ensures
        out == accel_micro_mps2(val as int),
{
    let wide: i64 = val as i64;
    wide * MICRO_MPS2_PER_MILLI_G
}

/// Converts a gyroscope reading in mrad/s to millionths of rad/s.
pub fn scale_mrad_to_rad(val: i16) -> (out: i64)
    ensures
        out == gyro_micro_rad(val as int),
{
    let wide: i64 = val as i64;
    wide * MICRO_RAD_PER_MILLI_RAD
}

/// Passes a magnetometer reading in milligauss through, in millionths of a
/// milligauss.
pub fn scale_mgauss(val: i16) -> (out: i64)
    ensures
        out == mag_micro_mgauss(val as int),
{
    let wide: i64 = val as i64;
    wide * MICRO
}

/// Each conversion is linear in the reading: zero maps to zero, the sign is
/// kept, and a larger reading gives a larger value.
pub proof fn lemma_scaling_is_monotone(a: int, b: int)
    requires
        a <= b,
    ensures
        accel_micro_mps2(a) <= accel_micro_mps2(b),
        gyro_micro_rad(a) <= gyro_micro_rad(b),
        mag_micro_mgauss(a) <= mag_micro_mgauss(b),
        accel_micro_mps2(0) == 0,
        gyro_micro_rad(0) == 0,
        mag_micro_mgauss(0) == 0,
{
}

} // verus!

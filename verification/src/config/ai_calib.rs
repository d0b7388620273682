//! 4-20 mA calibration of the analogue inputs.

use vstd::prelude::*;

verus! {

/// Full scale of the 12-bit converter.
pub const ADC_MAX: u32 = 4095;

/// 4 mA, in uA.
pub const MA_MIN: u32 = 4000;

/// 20 mA, in uA.
pub const MA_MAX: u32 = 20000;

/// Raw converter value expected at 4 mA.
pub const SENSOR_MIN: u16 = 605;

/// Raw converter value expected at 20 mA.
pub const SENSOR_MAX: u16 = 3016;

/// Length of the start-up calibration window (ms).
pub const CALIB_WINDOW_MS: u64 = 8000;

/// Sampling interval inside the calibration window (ms).
pub const CALIB_SAMPLE_INTERVAL_MS: u64 = 50;

} // verus!

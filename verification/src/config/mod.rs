//! Board, protocol and register-map constants.
//!
//! A board revision changes the values here and nothing else.

use vstd::prelude::*;

pub mod ai_calib;
pub mod ble_mesh;
pub mod hw_f3;
pub mod hw_f4;
pub mod hw_version;
pub mod io_ext;
pub mod modbus;
pub mod pins;
pub mod regs;
pub mod wifi;

verus! {

/// Product name, as AT+VERSION reports it.
pub const APP_NAME: &'static str = "esp32s3-iot-gateway";

/// Firmware version, `major.minor.patch`.
pub const APP_VERSION: &'static str = "2.2.1";

/// Network scheduling period of the main loop (ms).
pub const MAIN_LOOP_PERIOD_MS: u64 = 5;

/// Period of BLE request processing and notification sending (ms).
pub const BLE_PROCESS_PERIOD_MS: u64 = 10;

} // verus!

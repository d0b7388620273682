//! Module numbers in the ring log.

use vstd::prelude::*;

verus! {

pub const MAIN: u8 = 0;
pub const BUS: u8 = 1;
pub const MODBUS: u8 = 2;
pub const BLE: u8 = 3;
pub const ETHERNET: u8 = 4;
pub const IO: u8 = 5;
pub const OTA: u8 = 6;
pub const NVS: u8 = 7;
pub const WATCHDOG: u8 = 8;
pub const RECOVERY: u8 = 9;
pub const RING_LOG: u8 = 10;

} // verus!

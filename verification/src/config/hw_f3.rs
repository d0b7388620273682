//! Point counts of the F3 board: one expander chip of 16 points each way.

use vstd::prelude::*;

verus! {

pub const NAME: &'static str = "F3";

pub const MODEL_CODE: u16 = 0x00F3;

pub const DI_COUNT: usize = 16;

pub const DO_COUNT: usize = 16;

pub const USE_IO_EXT: bool = true;

pub const DI_EXT_CHIPS: usize = 1;

pub const DO_EXT_CHIPS: usize = 1;

pub const AI_COUNT: u16 = 4;

/// I2C addresses of the input expanders.
pub const DI_ADDRS: [u8; 1] = [0x20];

/// I2C addresses of the output expanders.
pub const DO_ADDRS: [u8; 1] = [0x21];

} // verus!

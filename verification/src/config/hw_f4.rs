//! Point counts of the F4 board: three expander chips of 16 points each way.

use vstd::prelude::*;

verus! {

pub const NAME: &'static str = "F4";

pub const MODEL_CODE: u16 = 0x00F4;

pub const DI_COUNT: usize = 48;

pub const DO_COUNT: usize = 48;

pub const USE_IO_EXT: bool = true;

pub const DI_EXT_CHIPS: usize = 3;

pub const DO_EXT_CHIPS: usize = 3;

pub const AI_COUNT: u16 = 8;

/// I2C addresses of the input expanders.
pub const DI_ADDRS: [u8; 3] = [0x20, 0x21, 0x22];

/// I2C addresses of the output expanders.
pub const DO_ADDRS: [u8; 3] = [0x23, 0x24, 0x25];

} // verus!

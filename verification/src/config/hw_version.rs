//! Point counts of the default board, the F16.

use vstd::prelude::*;

verus! {

/// Name of the board version.
pub const NAME: &'static str = "F16";

/// Product code of the F16 and F3 boards in the hardware-version register.
pub const MODEL_CODE: u16 = 0x00F3;

/// Number of digital inputs.
pub const DI_COUNT: usize = 16;

/// Number of digital outputs.
pub const DO_COUNT: usize = 16;

/// Whether the digital points sit behind an I2C expander.
pub const USE_IO_EXT: bool = false;

/// Number of input expander chips.
pub const DI_EXT_CHIPS: usize = 0;

/// Number of output expander chips.
pub const DO_EXT_CHIPS: usize = 0;

/// Number of analogue inputs reported over Modbus.
pub const AI_COUNT: u16 = 4;

} // verus!

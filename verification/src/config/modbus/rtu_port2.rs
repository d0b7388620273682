//! Third RTU port. It shares its UART with the debug console, so it is off.

use vstd::prelude::*;

verus! {

pub const ENABLED: bool = false;

pub const BAUD: u32 = 9600;

pub const ADDR: u8 = 1;

pub const PARITY: char = 'N';

pub const STOP_BITS: u8 = 1;

pub const DATA_BITS: u8 = 8;

} // verus!

//! RTU slave port.

use vstd::prelude::*;

verus! {

pub const UART_PORT: u8 = 2;

pub const BAUD: u32 = 9600;

pub const ADDR: u8 = 1;

pub const PARITY: char = 'N';

pub const STOP_BITS: u8 = 1;

pub const DATA_BITS: u8 = 8;

} // verus!

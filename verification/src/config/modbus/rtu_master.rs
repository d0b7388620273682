//! RTU master port.

use vstd::prelude::*;

verus! {

pub const UART_PORT: u8 = 1;

pub const BAUD: u32 = 9600;

/// Address of this station; the slaves are 1 to 247.
pub const ADDR: u8 = 1;

pub const PARITY: char = 'N';

pub const STOP_BITS: u8 = 1;

pub const DATA_BITS: u8 = 8;

pub const POLL_INTERVAL_MS: u64 = 1000;

pub const TIMEOUT_MS: u64 = 100;

} // verus!

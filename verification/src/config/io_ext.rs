//! Registers of the MCP23017 expander in byte mode (`IOCON.BANK = 0`).

use vstd::prelude::*;

verus! {

/// Address of the first output expander; the default board has none.
pub const DO_ADDR: u8 = 0;

pub const REG_IODIRA: u8 = 0x00;

pub const REG_IODIRB: u8 = 0x01;

pub const REG_IOCON: u8 = 0x0A;

pub const REG_GPPUA: u8 = 0x0C;

pub const REG_GPPUB: u8 = 0x0D;

pub const REG_GPIOA: u8 = 0x12;

pub const REG_GPIOB: u8 = 0x13;

pub const REG_OLATA: u8 = 0x14;

pub const REG_OLATB: u8 = 0x15;

} // verus!

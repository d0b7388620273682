//! Values that the RTU master polled, as registers 4000 to 4223.

use crate::config::regs;
use vstd::prelude::*;

verus! {

/// The polled values. A word is valid where the poll table writes to it.
#[derive(Clone, Copy)]
pub struct RtuResults {
    pub words: [u16; 224],
    pub valid: [bool; 224],
    /// Odd while a poll is being stored.
    pub version: u32,
}

/// The polled values as sequences.
#[verifier::ext_equal]
pub struct RtuView {
    pub words: Seq<u16>,
    pub valid: Seq<bool>,
    pub version: u32,
}

impl View for RtuResults {
    type V = RtuView;

    open spec fn view(&self) -> RtuView {
        RtuView { words: self.words@, valid: self.valid@, version: self.version }
    }
}

/// No values yet.
pub open spec fn rtu_start() -> RtuView {
    RtuView { words: Seq::new(224, |i: int| 0u16), valid: Seq::new(224, |i: int| false), version: 0 }
}

/// The polled value at a register.
pub open spec fn polled_word(r: RtuView, addr: u16) -> Option<u16> {
    if regs::HOLD_USER_BASE <= addr <= regs::HOLD_CFG_END && r.valid[addr - regs::HOLD_USER_BASE] {
        Some(r.words[addr - regs::HOLD_USER_BASE])
    } else {
        None
    }
}

impl RtuResults {
    pub fn new() -> (r: Self)
        ensures
            r@ == rtu_start(),
    {
        let r = RtuResults { words: [0u16; 224], valid: [false; 224], version: 0 };
        assert(r@ =~= rtu_start());
        r
    }

    /// The polled value at a register.
    pub fn read_result_reg(&self, addr: u16) -> (r: Option<u16>)
        ensures
            r == polled_word(self@, addr),
    {
        if addr < regs::HOLD_USER_BASE || addr > regs::HOLD_CFG_END {
            return None;
        }
        let i: usize = (addr - regs::HOLD_USER_BASE) as usize;
        if self.valid[i] {
            Some(self.words[i])
        } else {
            None
        }
    }
}

} // verus!

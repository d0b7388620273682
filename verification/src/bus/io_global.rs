//! The IO points as one bundle.

use super::io_state::{
    ai_zero, ao_zero, sys_zero, AiState, AiView, AoState, AoView, DiState, DoState, SysState,
};
use vstd::prelude::*;

verus! {

/// All IO points and the system registers.
#[derive(Clone, Copy)]
pub struct IoBundle {
    pub di: DiState,
    pub do_: DoState,
    pub ai: AiState,
    pub ao: AoState,
    pub sys: SysState,
}

/// The IO points as plain values.
#[verifier::ext_equal]
pub struct IoView {
    pub di: u64,
    pub do_: u64,
    pub ai: AiView,
    pub ao: AoView,
    pub sys: SysState,
}

impl View for IoBundle {
    type V = IoView;

    open spec fn view(&self) -> IoView {
        IoView { di: self.di.bits, do_: self.do_.bits, ai: self.ai@, ao: self.ao@, sys: self.sys }
    }
}

/// All points off, all channels zero.
pub open spec fn io_zero() -> IoView {
    IoView { di: 0, do_: 0, ai: ai_zero(), ao: ao_zero(), sys: sys_zero() }
}

impl IoBundle {
    pub fn new() -> (r: Self)
        ensures
            r@ == io_zero(),
    {
        IoBundle {
            di: DiState::default(),
            do_: DoState::default(),
            ai: AiState::default(),
            ao: AoState::default(),
            sys: SysState::default(),
        }
    }
}

impl Default for IoBundle {
    fn default() -> (r: Self)
        ensures
            r@ == io_zero(),
    {
        IoBundle::new()
    }
}

} // verus!

//! Analogue inputs and outputs.

pub mod ai;
pub mod ao;
pub mod calib;
pub mod laws;

//! Modbus helpers that the register map and the BLE channel share.

pub mod rtu_master;
pub mod shared;

//! Modbus transport parameters.

pub mod rtu_master;
pub mod rtu_port2;
pub mod rtu_slave;
pub mod tcp;

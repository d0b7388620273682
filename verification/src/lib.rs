//! Firmware logic of an industrial IoT gateway: the Modbus register map, the
//! persistent configuration and storage images, the control-word executor, the
//! BLE command channels and the fault-recovery state machine.

pub mod actor;
pub mod bits;
pub mod ble_at;
pub mod blemesh;
pub mod bounded;
pub mod bus;
pub mod bytes;
pub mod channel;
pub mod config;
pub mod control_logic;
pub mod device;
pub mod device_config;
pub mod error;
pub mod ethernet;
pub mod gateway;
pub mod math;
pub mod modbus;
pub mod sync;
pub mod text;
pub mod text_laws;

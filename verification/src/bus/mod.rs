//! Shared device state: IO points, configuration and storage snapshots, events,
//! and the Modbus view of them.

pub mod backends;
pub mod buffer_pool;
pub mod config_state;
pub mod event_bus;
pub mod io_global;
pub mod io_state;
pub mod laws;
pub mod map_laws;
pub mod modify;
pub mod rcu;
pub mod single;
pub mod single_laws;
pub mod storage_state;
pub mod writes;

pub use config_state::config_read;
pub use event_bus::{send_event, IoEvent};
pub use storage_state::proto_status;

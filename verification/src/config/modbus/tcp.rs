//! Modbus TCP server.

use vstd::prelude::*;

verus! {

/// Listening ports; registers 2243 to 2246 change them at run time.
pub const PORTS: [u16; 4] = [502, 503, 504, 5002];

pub const MAX_CONNECTIONS: usize = 8;

/// Idle time after which an established connection is closed.
pub const IDLE_TIMEOUT_MS: u64 = 300_000;

/// Time allowed for a whole frame, counted from its first byte.
pub const PARTIAL_FRAME_TIMEOUT_MS: u64 = 30_000;

pub const TX_TIMEOUT_MS: u64 = 5000;

pub const KEEPALIVE_IDLE_S: i32 = 30;

pub const KEEPALIVE_INTERVAL_S: i32 = 10;

pub const KEEPALIVE_COUNT: i32 = 3;

} // verus!

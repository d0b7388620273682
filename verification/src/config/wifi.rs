//! Wi-Fi station defaults.

use vstd::prelude::*;

verus! {

/// Default station SSID.
pub const SSID: &'static str = "iot-gateway";

/// Default station password; empty means an open network.
pub const PASSWORD: &'static str = "";

/// Link supervision period (s).
pub const HEARTBEAT_PERIOD_S: u64 = 30;

/// Connection timeout (s).
pub const CONNECT_TIMEOUT_S: u64 = 30;

} // verus!

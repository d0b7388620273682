//! BLE Mesh identifiers.

use vstd::prelude::*;

verus! {

/// SIG model identifier of the Generic OnOff server.
pub const MODEL_ID_ONOFF_SRV: u16 = 0x1000;

/// SIG model identifier of the Generic OnOff client.
pub const MODEL_ID_ONOFF_CLI: u16 = 0x1001;

/// Application key index used until the mesh reports another one.
pub const APP_KEY_IDX: u16 = 0;

} // verus!

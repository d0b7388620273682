//! BLE channel: AT commands and the handheld's binary protocol.

pub mod android;
pub mod at_laws;
pub mod binary;
pub mod cfg_handlers;
pub mod command_laws;
pub mod frame;
pub mod frame_laws;
pub mod handlers;
pub mod laws;
pub mod link;
pub mod logic_handlers;
pub mod ota_handlers;
pub mod parser;
pub mod reply;
pub mod report_laws;
pub mod session_laws;
pub mod tick;

pub use link::{
    binary_tx_drops, feed_data, gatts_if_value, has_client, notify_ble_name_changed, notify_enabled,
    send_di_status_report, take_response, CHARACTERISTIC_UUID, SERVICE_UUID,
};
pub use tick::{process_tick, update_gap_device_name};

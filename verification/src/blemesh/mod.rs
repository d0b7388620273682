//! BLE mesh: the on/off model and the keys of the node.

pub mod bindings;
pub mod models;
pub mod provisioning;

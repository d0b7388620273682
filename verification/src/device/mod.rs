//! Persistent device state: configuration, protocol store, register images.

use crate::gateway::{Gateway, GatewayView, MAILBOX_CAPACITY};
use vstd::prelude::*;

pub mod actor;
pub mod config_laws;
pub mod crc;
pub mod holding_store;
pub mod persist;
pub mod proto_store;
pub mod storage_laws;
pub mod system_config;
pub mod words;

pub use actor::DeviceActor;
pub use crc::crc32;
pub use persist::{
    apply_config_sync, init, load_mesh_keys, load_reset_count, persist_do_bits_throttled, save_device_text_to_nvs,
    save_do_bits_to_nvs,
};
pub use proto_store::{
    check_commit, commit_sync, finish_commit, proto_info, proto_read, proto_read_bulk, proto_write, proto_write_bulk, reload_sync, ProtoInfo,
};
pub use system_config::{parse_ipv4, SystemConfig};

verus! {

/// Mark of an initialised protocol store, "GW".
pub const PROTO_MAGIC: u16 = 0x4757;

/// Request to the storage task.
#[derive(Clone, Copy, Debug, PartialEq, Eq, Structural)]
pub enum DeviceCmd {
    /// Persist the protocol store.
    Commit,
    /// Load the protocol store again.
    Reload,
    /// Persist the configuration and let the peripherals pick it up.
    ApplyConfig,
    /// Persist the configuration.
    PersistConfig,
    PersistResetCount(u16),
    PersistMeshKeys { net_idx: u16, app_idx: u16 },
    /// Persist the register buffer.
    PersistHolding,
    /// Persist the device table.
    PersistDeviceConfig,
}

/// The state after a request was posted; a full mailbox drops it.
pub open spec fn posted(g: GatewayView, cmd: DeviceCmd) -> GatewayView {
    if g.mailbox.len() < MAILBOX_CAPACITY {
        GatewayView { mailbox: g.mailbox.push(cmd), ..g }
    } else {
        g
    }
}

/// Posts a request; says whether the mailbox had room.
pub fn post(gw: &mut Gateway, cmd: DeviceCmd) -> (r: bool)
    ensures
        r == (old(gw)@.mailbox.len() < MAILBOX_CAPACITY),
        final(gw)@ == posted(old(gw)@, cmd),
{
    gw.mailbox.try_enqueue(cmd)
}

/// Asks for the protocol store to be persisted.
pub fn request_commit(gw: &mut Gateway) -> (r: bool)
    ensures
        r == (old(gw)@.mailbox.len() < MAILBOX_CAPACITY),
        final(gw)@ == posted(old(gw)@, DeviceCmd::Commit),
{
    post(gw, DeviceCmd::Commit)
}

/// Asks for the protocol store to be loaded again.
pub fn request_reload(gw: &mut Gateway) -> (r: bool)
    ensures
        r == (old(gw)@.mailbox.len() < MAILBOX_CAPACITY),
        final(gw)@ == posted(old(gw)@, DeviceCmd::Reload),
{
    post(gw, DeviceCmd::Reload)
}

/// Asks for the configuration to be persisted and picked up.
pub fn request_apply_config(gw: &mut Gateway)
    ensures
        final(gw)@ == posted(old(gw)@, DeviceCmd::ApplyConfig),
{
    let _ = post(gw, DeviceCmd::ApplyConfig);
}

/// Asks for the configuration to be persisted.
pub fn request_persist_config(gw: &mut Gateway)
    ensures
        final(gw)@ == posted(old(gw)@, DeviceCmd::PersistConfig),
{
    let _ = post(gw, DeviceCmd::PersistConfig);
}

/// Asks for the register buffer to be persisted.
pub fn request_persist_holding(gw: &mut Gateway)
    ensures
        final(gw)@ == posted(old(gw)@, DeviceCmd::PersistHolding),
{
    let _ = post(gw, DeviceCmd::PersistHolding);
}

/// Asks for the device table to be persisted.
pub fn request_persist_device_config(gw: &mut Gateway)
    ensures
        final(gw)@ == posted(old(gw)@, DeviceCmd::PersistDeviceConfig),
{
    let _ = post(gw, DeviceCmd::PersistDeviceConfig);
}

/// Asks for the reset counter to be persisted.
pub fn save_reset_count(gw: &mut Gateway, cnt: u16)
    ensures
        final(gw)@ == posted(old(gw)@, DeviceCmd::PersistResetCount(cnt)),
{
    let _ = post(gw, DeviceCmd::PersistResetCount(cnt));
}

/// Asks for the mesh key indices to be persisted.
pub fn save_mesh_keys(gw: &mut Gateway, net_idx: u16, app_idx: u16)
    ensures
        final(gw)@ == posted(old(gw)@, DeviceCmd::PersistMeshKeys { net_idx, app_idx }),
{
    let _ = post(gw, DeviceCmd::PersistMeshKeys { net_idx, app_idx });
}

/// The state with the device text marked to be persisted.
pub open spec fn text_marked(g: GatewayView) -> GatewayView {
    GatewayView {
        storage: crate::bus::storage_state::StorageStateView { text_dirty: true, ..g.storage },
        ..g
    }
}

/// Asks for the device text to be persisted. Writes are gathered until the
/// storage task gets to them.
pub fn request_save_device_text(gw: &mut Gateway)
    ensures
        final(gw)@ == text_marked(old(gw)@),
{
    gw.storage.text_dirty = true;
}

} // verus!

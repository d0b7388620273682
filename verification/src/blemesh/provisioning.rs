//! Provisioning: the keys that the node was given.

use crate::config::ble_mesh;
use crate::device::{posted, save_mesh_keys, DeviceCmd};
use crate::gateway::Gateway;
use vstd::prelude::*;

verus! {

/// The node was provisioned.
pub const EVT_NODE_PROV_COMPLETE: i32 = 10;

/// Another node was provisioned by this one.
pub const EVT_PROVISIONER_PROV_COMPLETE: i32 = 31;

/// Indices of the network and application keys; zero before provisioning.
#[derive(Debug, Clone, Copy, PartialEq, Eq, Structural)]
pub struct MeshKeys {
    pub net_idx: u16,
    pub app_idx: u16,
}

/// The current key indices.
pub fn current_mesh_keys(keys: &MeshKeys) -> (r: (u16, u16))
    ensures
        r == (keys.net_idx, keys.app_idx),
{
    (keys.net_idx, keys.app_idx)
}

/// Sets the key indices and asks for them to be persisted.
pub fn set_mesh_keys(keys: &mut MeshKeys, gw: &mut Gateway, net_idx: u16, app_idx: u16)
    ensures
        *final(keys) == (MeshKeys { net_idx, app_idx }),
        final(gw)@ == posted(old(gw)@, DeviceCmd::PersistMeshKeys { net_idx, app_idx }),
{
    keys.net_idx = net_idx;
    keys.app_idx = app_idx;
    save_mesh_keys(gw, net_idx, app_idx);
}

/// What is left to be done after an event.
#[derive(Debug, Clone, Copy, PartialEq, Eq, Structural)]
pub enum ProvAction {
    Nothing,
    /// Add this application key to the network.
    AddAppKey(MeshKeys),
}

/// The application key that is added to the network: the current one.
pub fn add_app_key(keys: &MeshKeys) -> (r: ProvAction)
    ensures
        r == ProvAction::AddAppKey(*keys),
{
    ProvAction::AddAppKey(*keys)
}

/// Starts to provision other nodes: the application key is added first.
pub fn start_provisioner(keys: &MeshKeys) -> (r: ProvAction)
    ensures
        r == ProvAction::AddAppKey(*keys),
{
    add_app_key(keys)
}

/// An event of the mesh. `net_idx` is the network key index that came with it, `None`
/// for an event without data.
pub fn handle_provisioning_event(keys: &mut MeshKeys, gw: &mut Gateway, event: i32, net_idx: Option<u16>) -> (r:
    ProvAction)
    ensures
        event == EVT_NODE_PROV_COMPLETE && net_idx is Some ==> *final(keys) == (MeshKeys {
            net_idx: net_idx->0,
            app_idx: ble_mesh::APP_KEY_IDX,
        }) && final(gw)@ == posted(
            old(gw)@,
            DeviceCmd::PersistMeshKeys { net_idx: net_idx->0, app_idx: ble_mesh::APP_KEY_IDX },
        ),
        !(event == EVT_NODE_PROV_COMPLETE && net_idx is Some) ==> *final(keys) == *old(keys) && final(gw)@ == old(
            gw,
        )@,
        r == if event == EVT_PROVISIONER_PROV_COMPLETE && net_idx is Some {
            ProvAction::AddAppKey(*old(keys))
        } else {
            ProvAction::Nothing
        },
{
    match net_idx {
        Some(idx) => {
            if event == EVT_NODE_PROV_COMPLETE {
                set_mesh_keys(keys, gw, idx, ble_mesh::APP_KEY_IDX);
                ProvAction::Nothing
            } else if event == EVT_PROVISIONER_PROV_COMPLETE {
                add_app_key(keys)
            } else {
                ProvAction::Nothing
            }
        },
        None => ProvAction::Nothing,
    }
}

/// The static out-of-band value: none is used.
pub fn static_oob() -> (r: Option<[u8; 16]>)
    ensures
        r is None,
{
    None
}

} // verus!

//! Messages and operations of the mesh.

use vstd::prelude::*;

verus! {

pub const OP_GEN_ONOFF_GET: u32 = 0x8201;

pub const OP_GEN_ONOFF_SET: u32 = 0x8202;

pub const OP_GEN_ONOFF_SET_UNACK: u32 = 0x8203;

pub const OP_GEN_ONOFF_STATUS: u32 = 0x8204;

/// Role of a node.
pub const ROLE_NODE: u8 = 0;

pub const CONFIG_BLE_MESH_MODEL_KEY_COUNT: usize = 3;

pub const CONFIG_BLE_MESH_MODEL_GROUP_COUNT: usize = 3;

/// An operation that a model accepts.
#[derive(Debug, Clone, Copy, PartialEq, Eq, Structural)]
pub struct EspBleMeshOp {
    pub opcode: u32,
    pub min_len: usize,
    pub param_cb: u32,
}

/// Where a message goes; everything else about it is left to the mesh.
#[derive(Debug, Clone, Copy, PartialEq, Eq, Structural)]
pub struct EspBleMeshMsgCtx {
    pub net_idx: u16,
    pub app_idx: u16,
    pub addr: u16,
}

impl EspBleMeshMsgCtx {
    /// A message under the given keys to the given address.
    pub fn for_send(net_idx: u16, app_idx: u16, addr: u16) -> (r: Self)
        ensures
            r == (EspBleMeshMsgCtx { net_idx, app_idx, addr }),
    {
        EspBleMeshMsgCtx { net_idx, app_idx, addr }
    }
}

} // verus!

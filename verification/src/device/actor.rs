//! The storage task: what each request asks to be stored.

use crate::bus::writes::{current_config, current_storage, with_status};
use crate::device::holding_store::{
    areas_of, raw_image, save_to_nvs, target_slot, SavePlan, SlotState,
};
use crate::device::persist::apply_config_sync;
use crate::device::proto_store::{begin_reload, commit_sync, image_of, proto_blob, CommitPlan, NVS_KEY_DATA_A, NVS_KEY_DATA_B};
use crate::device::system_config::cfg_blob;
use crate::device::DeviceCmd;
use crate::device_config::store::saved;
use crate::error::AppError;
use crate::bus::storage_state::StorageStateView;
use crate::gateway::{Gateway, GatewayView};
use vstd::prelude::*;

verus! {

/// The storage task.
pub struct DeviceActor {
    /// Where the register images are.
    pub slots: SlotState,
}

/// What is to be stored or loaded.
pub enum DevicePlan {
    /// Store the protocol image and read it back, then `check_commit` and
    /// `finish_commit`.
    Commit(CommitPlan),
    /// Load the protocol store, then `reload_sync`.
    Reload,
    /// Store the configuration.
    StoreConfig(Vec<u8>),
    StoreResetCount(u16),
    StoreMeshKeys { net_idx: u16, app_idx: u16 },
    /// Store the registers, then `finish_save` or `abandon_save`.
    StoreHolding(SavePlan),
    /// Store the device table.
    StoreDeviceTable(Vec<u8>),
    /// Nothing waits.
    Nothing,
    /// The request cannot be carried out.
    Failed(AppError),
}

/// Whether a plan commits the protocol store to the place that is not active.
pub open spec fn commits(g: GatewayView, active: Option<u8>, p: CommitPlan) -> bool {
    &&& p.blob@ == proto_blob(image_of(current_storage(g).proto))
    &&& if active is None || active == Some(0u8) {
        p.key@ == NVS_KEY_DATA_B@ && p.active == 1
    } else {
        p.key@ == NVS_KEY_DATA_A@ && p.active == 0
    }
}

/// Whether a plan is what saving the registers asks for.
pub open spec fn saves(s: StorageStateView, slots: SlotState, r: DevicePlan) -> bool {
    if !s.holding_dirty && !s.legacy_io_dirty {
        r is Nothing
    } else {
        match s.snapshot {
            None => r matches DevicePlan::Failed(AppError::Config(e)) && e@ == "holding storage unavailable"@,
            Some(snap) => r matches DevicePlan::StoreHolding(p) && p.slot == target_slot(slots) && p.generation
                == slots.generation.wrapping_add(1) && p.blob@ == raw_image(areas_of(snap), p.generation)
                && p.holding_dirty == s.holding_dirty && p.legacy_dirty == s.legacy_io_dirty,
        }
    }
}

/// The state after saving the registers was begun.
pub open spec fn save_begun(g: GatewayView) -> GatewayView {
    if g.storage.snapshot is Some {
        GatewayView {
            storage: StorageStateView { holding_dirty: false, legacy_io_dirty: false, ..g.storage },
            ..g
        }
    } else {
        g
    }
}

/// Whether a plan is what a request asks for. `active` is the stored number of the
/// active protocol image.
pub open spec fn planned(g: GatewayView, slots: SlotState, active: Option<u8>, cmd: DeviceCmd, r: DevicePlan) -> bool {
    match cmd {
        DeviceCmd::Commit => r matches DevicePlan::Commit(p) && commits(g, active, p),
        DeviceCmd::Reload => r is Reload,
        DeviceCmd::ApplyConfig | DeviceCmd::PersistConfig => r matches DevicePlan::StoreConfig(b) && b@ == cfg_blob(
            current_config(g),
        ),
        DeviceCmd::PersistResetCount(n) => r == DevicePlan::StoreResetCount(n),
        DeviceCmd::PersistMeshKeys { net_idx, app_idx } => r == (DevicePlan::StoreMeshKeys { net_idx, app_idx }),
        DeviceCmd::PersistHolding => saves(g.storage, slots, r),
        DeviceCmd::PersistDeviceConfig => r matches DevicePlan::StoreDeviceTable(b) && b@ == saved(
            g.devices.devices,
            g.devices.devices.len(),
        ),
    }
}

/// The state after a request was taken up.
pub open spec fn taken_up(g: GatewayView, cmd: DeviceCmd) -> GatewayView {
    match cmd {
        DeviceCmd::Commit => with_status(g, 1),
        DeviceCmd::Reload => with_status(g, 2),
        DeviceCmd::PersistHolding => save_begun(g),
        _ => g,
    }
}

impl DeviceActor {
    pub fn new() -> (r: Self)
        ensures
            r.slots == (SlotState {
                active: crate::device::holding_store::NO_ACTIVE_SLOT,
                generation: 0,
                legacy_removed: false,
            }),
    {
        DeviceActor { slots: SlotState::new() }
    }

    fn plan_holding(&self, gw: &mut Gateway) -> (r: DevicePlan)
        ensures
            saves(old(gw)@.storage, self.slots, r),
            final(gw)@ == save_begun(old(gw)@),
    {
        match save_to_nvs(&mut gw.storage, &self.slots) {
            Ok(Some(plan)) => {
                assert(gw@ =~= save_begun(old(gw)@));
                DevicePlan::StoreHolding(plan)
            },
            Ok(None) => {
                assert(gw@ =~= save_begun(old(gw)@));
                DevicePlan::Nothing
            },
            Err(e) => DevicePlan::Failed(e),
        }
    }

    /// Takes up a request.
    pub fn handle(&self, gw: &mut Gateway, cmd: DeviceCmd, active: Option<u8>) -> (r: DevicePlan)
        ensures
            planned(old(gw)@, self.slots, active, cmd, r),
            final(gw)@ == taken_up(old(gw)@, cmd),
    {
        match cmd {
            DeviceCmd::Commit => DevicePlan::Commit(commit_sync(gw, active)),
            DeviceCmd::Reload => {
                begin_reload(gw);
                DevicePlan::Reload
            },
            DeviceCmd::ApplyConfig => DevicePlan::StoreConfig(apply_config_sync(gw)),
            DeviceCmd::PersistConfig => DevicePlan::StoreConfig(apply_config_sync(gw)),
            DeviceCmd::PersistResetCount(n) => DevicePlan::StoreResetCount(n),
            DeviceCmd::PersistMeshKeys { net_idx, app_idx } => DevicePlan::StoreMeshKeys { net_idx, app_idx },
            DeviceCmd::PersistHolding => self.plan_holding(gw),
            DeviceCmd::PersistDeviceConfig => DevicePlan::StoreDeviceTable(gw.devices.save()),
        }
    }
}

} // verus!

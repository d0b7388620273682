//! Read-modify-write of the configuration and storage snapshots.

use crate::bus::storage_state::{
    mark_holding_dirty, proto_status_set, storage_write, StorageSnapshot, StorageStateView, StorageView,
};
use crate::bus::writes::{
    config_clone, current_config, current_storage, holding_marked, publish_config, publish_storage,
    storage_clone, with_config, with_storage,
};
use crate::device::system_config::SystemConfig;
use crate::gateway::{Gateway, GatewayView};
use vstd::prelude::*;

verus! {

/// Changes the configuration and publishes it; hands out what `f` returns.
pub fn config_modify_with_result<F, R>(gw: &mut Gateway, f: F) -> (r: R) where
    F: FnOnce(&mut SystemConfig) -> R,

    requires
        forall|c: &mut SystemConfig| (*c)@ == current_config(old(gw)@) ==> #[trigger] f.requires((c,)),
    ensures
        exists|c: &mut SystemConfig| #[trigger]
            f.ensures((c,), r) && (*c)@ == current_config(old(gw)@) && final(gw)@ == with_config(
                old(gw)@,
                (*final(c))@,
            ),
{
    let mut cs = config_clone(gw);
    let r = f(&mut cs.cfg);
    publish_config(gw, cs);
    r
}

/// Changes the configuration and publishes it.
pub fn config_modify<F: FnOnce(&mut SystemConfig)>(gw: &mut Gateway, f: F)
    requires
        forall|c: &mut SystemConfig| (*c)@ == current_config(old(gw)@) ==> #[trigger] f.requires((c,)),
    ensures
        exists|c: &mut SystemConfig| #[trigger]
            f.ensures((c,), ()) && (*c)@ == current_config(old(gw)@) && final(gw)@ == with_config(
                old(gw)@,
                (*final(c))@,
            ),
{
    config_modify_with_result(gw, f);
}

/// Publishes a whole storage snapshot; its status becomes the protocol status.
pub fn storage_set_snapshot(gw: &mut Gateway, snap: StorageSnapshot)
    ensures
        final(gw)@ == (GatewayView {
            storage: StorageStateView {
                snapshot: Some(snap@),
                status: snap@.proto.status,
                ..old(gw)@.storage
            },
            ..old(gw)@
        }),
{
    proto_status_set(&mut gw.storage, snap.proto.status);
    storage_write(&mut gw.storage, snap);
}

/// A restored area: the given words, where there are as many as the area has.
pub open spec fn restored<T>(area: Seq<T>, words: Seq<T>) -> Seq<T> {
    if words.len() == area.len() {
        words
    } else {
        area
    }
}

fn restore<T: Copy, const N: usize>(area: &mut [T; N], words: &[T])
    ensures
        final(area)@ == restored(old(area)@, words@),
{
    if words.len() != N {
        return;
    }
    let mut i: usize = 0;
    while i < N
        invariant
            i <= N,
            words@.len() == N,
            forall|j: int| 0 <= j < i ==> area@[j] == words@[j],
        decreases N - i,
    {
        area[i] = words[i];
        i += 1;
    }
    assert(area@ =~= words@);
}

/// Restores the monitor, control and coil areas at start-up. An area of the wrong
/// length is left as it is.
pub fn storage_restore_legacy_state(gw: &mut Gateway, monitor: &[u16], control: &[u16], coils: &[u8])
    ensures
        ({
            let s = current_storage(old(gw)@);
            final(gw)@ == with_storage(
                old(gw)@,
                StorageView {
                    monitor_words: restored(s.monitor_words, monitor@),
                    control_words: restored(s.control_words, control@),
                    legacy_coils: restored(s.legacy_coils, coils@),
                    ..s
                },
            )
        }),
{
    let mut snap = storage_clone(gw);
    restore(&mut snap.monitor_words, monitor);
    restore(&mut snap.control_words, control);
    restore(&mut snap.legacy_coils, coils);
    publish_storage(gw, snap);
}

/// Changes the storage snapshot and publishes it.
pub fn storage_modify<F: FnOnce(&mut StorageSnapshot)>(gw: &mut Gateway, f: F)
    requires
        forall|s: &mut StorageSnapshot| (*s)@ == current_storage(old(gw)@) ==> #[trigger] f.requires((s,)),
    ensures
        exists|s: &mut StorageSnapshot| #[trigger]
            f.ensures((s,), ()) && (*s)@ == current_storage(old(gw)@) && final(gw)@ == with_storage(
                old(gw)@,
                (*final(s))@,
            ),
{
    let mut snap = storage_clone(gw);
    f(&mut snap);
    publish_storage(gw, snap);
}

/// Changes the register buffer, publishes it and marks it to be persisted.
pub fn storage_modify_holding<F: FnOnce(&mut [u16; 2048])>(gw: &mut Gateway, f: F)
    requires
        forall|b: &mut [u16; 2048]|
            (*b)@ == current_storage(old(gw)@).holding_buf ==> #[trigger] f.requires((b,)),
    ensures
        exists|b: &mut [u16; 2048]| #[trigger]
            f.ensures((b,), ()) && (*b)@ == current_storage(old(gw)@).holding_buf && final(gw)@
                == holding_marked(
                with_storage(
                    old(gw)@,
                    StorageView { holding_buf: (*final(b))@, ..current_storage(old(gw)@) },
                ),
            ),
{
    let mut snap = storage_clone(gw);
    f(&mut snap.holding_buf);
    publish_storage(gw, snap);
    mark_holding_dirty(&mut gw.storage);
}

} // verus!

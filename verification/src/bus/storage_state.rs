//! Storage snapshot: protocol store, device text, register buffer and the
//! control, monitor and coil areas.

use crate::bus::rcu::Rcu;
use std::sync::Arc;
use vstd::prelude::*;

verus! {

/// Protocol store.
#[derive(Clone, Copy)]
pub struct ProtoStore {
    pub data: [u16; 1500],
    pub version: u16,
    pub length: u16,
    /// Whether a change waits to be persisted.
    pub dirty: bool,
    /// 0 idle, 1 committing, 2 loading, 3 failed.
    pub status: u8,
}

/// One storage snapshot.
#[derive(Clone, Copy)]
pub struct StorageSnapshot {
    pub proto: ProtoStore,
    /// Registers 5000 to 6999.
    pub device_text: [u16; 2000],
    /// Registers 0x0880 to 0x107F.
    pub holding_buf: [u16; 2048],
    /// Monitor words, FC 04 addresses 0 to 127.
    pub monitor_words: [u16; 128],
    /// Control words, FC 03 addresses 0 to 299.
    pub control_words: [u16; 300],
    /// Extended coils 0x0200 to 0x07FF, one byte each.
    pub legacy_coils: [u8; 1536],
}

/// The protocol store as plain values.
#[verifier::ext_equal]
pub struct ProtoView {
    pub data: Seq<u16>,
    pub version: u16,
    pub length: u16,
    pub dirty: bool,
    pub status: u8,
}

/// The snapshot as plain values.
#[verifier::ext_equal]
pub struct StorageView {
    pub proto: ProtoView,
    pub device_text: Seq<u16>,
    pub holding_buf: Seq<u16>,
    pub monitor_words: Seq<u16>,
    pub control_words: Seq<u16>,
    pub legacy_coils: Seq<u8>,
}

impl View for ProtoStore {
    type V = ProtoView;

    open spec fn view(&self) -> ProtoView {
        ProtoView {
            data: self.data@,
            version: self.version,
            length: self.length,
            dirty: self.dirty,
            status: self.status,
        }
    }
}

impl View for StorageSnapshot {
    type V = StorageView;

    open spec fn view(&self) -> StorageView {
        StorageView {
            proto: self.proto@,
            device_text: self.device_text@,
            holding_buf: self.holding_buf@,
            monitor_words: self.monitor_words@,
            control_words: self.control_words@,
            legacy_coils: self.legacy_coils@,
        }
    }
}

pub open spec fn zero_words(n: nat) -> Seq<u16> {
    Seq::new(n, |i: int| 0u16)
}

pub open spec fn zero_bytes(n: nat) -> Seq<u8> {
    Seq::new(n, |i: int| 0u8)
}

pub open spec fn proto_zero() -> ProtoView {
    ProtoView { data: zero_words(1500), version: 0, length: 0, dirty: false, status: 0 }
}

/// Everything zero.
pub open spec fn storage_zero() -> StorageView {
    StorageView {
        proto: proto_zero(),
        device_text: zero_words(2000),
        holding_buf: zero_words(2048),
        monitor_words: zero_words(128),
        control_words: zero_words(300),
        legacy_coils: zero_bytes(1536),
    }
}

impl Default for ProtoStore {
    fn default() -> (r: Self)
        ensures
            r@ == proto_zero(),
    {
        let r = ProtoStore { data: [0u16; 1500], version: 0, length: 0, dirty: false, status: 0 };
        assert(r@ =~= proto_zero());
        r
    }
}

impl StorageSnapshot {
    pub fn new() -> (r: Self)
        ensures
            r@ == storage_zero(),
    {
        let r = StorageSnapshot {
            proto: ProtoStore::default(),
            device_text: [0u16; 2000],
            holding_buf: [0u16; 2048],
            monitor_words: [0u16; 128],
            control_words: [0u16; 300],
            legacy_coils: [0u8; 1536],
        };
        assert(r@ =~= storage_zero());
        r
    }
}

impl Default for StorageSnapshot {
    fn default() -> (r: Self)
        ensures
            r@ == storage_zero(),
    {
        StorageSnapshot::new()
    }
}

/// The published storage snapshot and the marks of what waits to be persisted.
pub struct StorageState {
    pub snapshot: Rcu<StorageSnapshot>,
    /// Authoritative protocol status; a snapshot only mirrors it.
    pub status: u8,
    /// The register buffer waits to be persisted.
    pub holding_dirty: bool,
    /// The control, monitor or coil area waits to be persisted.
    pub legacy_io_dirty: bool,
    /// The device text waits to be persisted.
    pub text_dirty: bool,
    /// A persisted register buffer exists.
    pub holding_valid: bool,
}

/// The storage state as plain values.
#[verifier::ext_equal]
pub struct StorageStateView {
    pub snapshot: Option<StorageView>,
    pub status: u8,
    pub holding_dirty: bool,
    pub legacy_io_dirty: bool,
    pub text_dirty: bool,
    pub holding_valid: bool,
}

pub open spec fn snapshot_view(s: Option<StorageSnapshot>) -> Option<StorageView> {
    match s {
        Some(v) => Some(v@),
        None => None,
    }
}

impl View for StorageState {
    type V = StorageStateView;

    open spec fn view(&self) -> StorageStateView {
        StorageStateView {
            snapshot: snapshot_view(self.snapshot@),
            status: self.status,
            holding_dirty: self.holding_dirty,
            legacy_io_dirty: self.legacy_io_dirty,
            text_dirty: self.text_dirty,
            holding_valid: self.holding_valid,
        }
    }
}

/// The state after start-up: an empty snapshot, nothing waiting.
pub open spec fn storage_start() -> StorageStateView {
    StorageStateView {
        snapshot: Some(storage_zero()),
        status: 0,
        holding_dirty: false,
        legacy_io_dirty: false,
        text_dirty: false,
        holding_valid: false,
    }
}

impl StorageState {
    pub fn new() -> (r: Self)
        ensures
            r@ == storage_start(),
    {
        StorageState {
            snapshot: Rcu::new(StorageSnapshot::new()),
            status: 0,
            holding_dirty: false,
            legacy_io_dirty: false,
            text_dirty: false,
            holding_valid: false,
        }
    }
}

/// A handle to the current snapshot.
pub fn storage_read(state: &StorageState) -> (r: Option<Arc<StorageSnapshot>>)
    ensures
        r is Some <==> state@.snapshot is Some,
        r is Some ==> r->0@ == state@.snapshot->0,
{
    state.snapshot.read()
}

/// Publishes a snapshot.
pub fn storage_write(state: &mut StorageState, snapshot: StorageSnapshot)
    ensures
        final(state)@ == (StorageStateView { snapshot: Some(snapshot@), ..old(state)@ }),
{
    state.snapshot.write(snapshot);
}

/// Applies `f` to the current snapshot.
pub fn storage_read_with<F, R>(state: &StorageState, f: F) -> (r: Option<R>) where
    F: FnOnce(&StorageSnapshot) -> R,

    requires
        state.snapshot@ is Some ==> f.requires((&state.snapshot@->0,)),
    ensures
        r is Some <==> state@.snapshot is Some,
        r is Some ==> f.ensures((&state.snapshot@->0,), r->0),
{
    state.snapshot.read_with(f)
}

/// The protocol status.
pub fn proto_status(state: &StorageState) -> (r: u8)
    ensures
        r == state@.status,
{
    state.status
}

/// Sets the protocol status.
pub fn proto_status_set(state: &mut StorageState, status: u8)
    ensures
        final(state)@ == (StorageStateView { status, ..old(state)@ }),
{
    state.status = status;
}

/// Marks the register buffer as changed.
pub fn mark_holding_dirty(state: &mut StorageState)
    ensures
        final(state)@ == (StorageStateView { holding_dirty: true, ..old(state)@ }),
{
    state.holding_dirty = true;
}

/// Marks the control, monitor or coil area as changed.
pub fn mark_legacy_io_dirty(state: &mut StorageState)
    ensures
        final(state)@ == (StorageStateView { legacy_io_dirty: true, ..old(state)@ }),
{
    state.legacy_io_dirty = true;
}

} // verus!

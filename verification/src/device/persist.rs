//! Device text, output state and small counters in the NVS, and start-up.

use crate::bus::config_state::{config_write, ConfigSnapshot};
use crate::bus::io_global::IoView;
use crate::bus::io_state::SysState;
use crate::bus::modify::{restored, storage_restore_legacy_state, storage_set_snapshot};
use crate::bus::storage_state::{zero_words, ProtoView, StorageSnapshot, StorageState, StorageStateView, StorageView};
use crate::bytes::{get_le32, le32_at, le_bytes, le_words, push_le32};
use crate::config::{regs, APP_VERSION};
use crate::device::holding_store::{bytes_view, LoadedHoldingState};
use crate::device::proto_store::{fill_words, first_words, ProtoImage};
use crate::device::system_config::{padded, version_code, CfgView, SystemConfig};
use crate::device::words::{push_words, read_words};
use crate::error::AppError;
use crate::gateway::{Gateway, GatewayView};
use crate::text::{dec, push_dec};
use crate::device_config::store::table_loaded;
use crate::device_config::{DeviceConfigTable, TableView};
use vstd::prelude::*;

verus! {

pub const NVS_KEY_DEV_TEXT: &'static str = "dev_text";
pub const NVS_KEY_DEV_TEXT_MAGIC: &'static str = "dev_text_mag";
/// Mark of a stored device text.
pub const DEV_TEXT_MAGIC: u16 = 0xDE54;
pub const NVS_KEY_RESET_CNT: &'static str = "rst_cnt";
pub const NVS_KEY_MESH_NET_IDX: &'static str = "mesh_nidx";
pub const NVS_KEY_MESH_APP_IDX: &'static str = "mesh_aidx";
pub const NVS_KEY_DO_BITS: &'static str = "do_bits";
pub const NVS_KEY_DO_MAGIC: &'static str = "do_magic";
/// Mark of a stored output state.
pub const DO_NVS_MAGIC: u16 = 0xD05D;
/// Least time between two writes of the output state (ms).
pub const DO_THROTTLE_MS: u32 = 1000;

// ---- Device text ----

/// The device text to start with: the stored one if it is complete, else zeros.
pub open spec fn text_loaded(magic: Option<u16>, blob: Option<Seq<u8>>) -> Seq<u16> {
    if magic == Some(DEV_TEXT_MAGIC) && blob is Some && blob->0.len() == 4000 {
        le_words(blob->0, 0, 2000)
    } else {
        zero_words(2000)
    }
}

/// Loads the device text.
pub fn load_device_text(magic: Option<u16>, blob: Option<&[u8]>) -> (r: Vec<u16>)
    ensures
        r@ == text_loaded(magic, bytes_view(blob)),
{
    match (magic, blob) {
        (Some(m), Some(b)) => {
            if m == DEV_TEXT_MAGIC && b.len() == 4000 {
                return read_words(b, 0, 2000);
            }
        },
        _ => {},
    }
    let mut out: Vec<u16> = Vec::new();
    let mut i: usize = 0;
    while i < 2000
        invariant
            i <= 2000,
            out@ == zero_words(i as nat),
        decreases 2000 - i,
    {
        out.push(0);
        i += 1;
        assert(out@ =~= zero_words(i as nat));
    }
    out
}

/// Text of a length error.
pub open spec fn text_length_error(n: nat) -> Seq<char> {
    "dev_text len mismatch: "@ + dec(n) + " != "@ + dec(2000)
}

/// The bytes to store for a device text; a text of another length is refused.
pub fn save_device_text_to_nvs(text: &[u16]) -> (r: Result<Vec<u8>, AppError>)
    ensures
        text@.len() == 2000 ==> (r matches Ok(b) && b@ == le_bytes(text@)),
        text@.len() != 2000 ==> (r matches Err(AppError::Config(e)) && e@ == text_length_error(text@.len())),
{
    if text.len() != regs::DEVICE_TEXT_COUNT as usize {
        let mut e = "dev_text len mismatch: ".to_owned();
        push_dec(&mut e, text.len() as u64);
        e.push_str(" != ");
        push_dec(&mut e, 2000);
        return Err(AppError::Config(e));
    }
    let mut blob: Vec<u8> = Vec::new();
    push_words(&mut blob, text);
    assert(blob@ =~= le_bytes(text@));
    Ok(blob)
}

/// Takes the device text that waits to be stored: the bytes to store, or why it
/// cannot be. `None` says that none waits, or that there is no storage.
pub fn text_to_store(storage: &mut StorageState) -> (r: Option<Result<Vec<u8>, AppError>>)
    ensures
        final(storage)@ == (StorageStateView { text_dirty: false, ..old(storage)@ }),
        match old(storage)@.snapshot {
            Some(s) => if !old(storage)@.text_dirty {
                r is None
            } else if s.device_text.len() == 2000 {
                r matches Some(Ok(b)) && b@ == le_bytes(s.device_text)
            } else {
                r matches Some(Err(AppError::Config(e))) && e@ == text_length_error(s.device_text.len())
            },
            None => r is None,
        },
{
    if !storage.text_dirty {
        return None;
    }
    storage.text_dirty = false;
    match storage.snapshot.read() {
        Some(s) => Some(save_device_text_to_nvs(s.device_text.as_slice())),
        None => None,
    }
}

/// Gives the storing of a device text up: the text goes on waiting.
pub fn abandon_text(storage: &mut StorageState)
    ensures
        final(storage)@ == (StorageStateView { text_dirty: true, ..old(storage)@ }),
{
    storage.text_dirty = true;
}

/// A stored device text loads as it was.
pub proof fn law_text_roundtrip(text: Seq<u16>)
    requires
        text.len() == 2000,
    ensures
        text_loaded(Some(DEV_TEXT_MAGIC), Some(le_bytes(text))) == text,
{
    crate::bytes::law_le_words_roundtrip(text);
}

// ---- Output state ----

/// Little-endian quad word at the start of a byte string.
pub open spec fn le64(s: Seq<u8>) -> u64 {
    (le32_at(s, 0) + le32_at(s, 4) * 0x1_0000_0000) as u64
}

/// A quad word as bytes, low byte first.
pub open spec fn le64_bytes(v: u64) -> Seq<u8> {
    crate::bytes::le32_bytes((v % 0x1_0000_0000) as u32) + crate::bytes::le32_bytes((v / 0x1_0000_0000) as u32)
}

/// The outputs to start with: the stored ones, else all off.
pub open spec fn do_bits_loaded(magic: Option<u16>, blob: Option<Seq<u8>>) -> u64 {
    if magic == Some(DO_NVS_MAGIC) && blob is Some && blob->0.len() == 8 {
        le64(blob->0)
    } else {
        0
    }
}

/// Loads the output state.
pub fn load_do_bits(magic: Option<u16>, blob: Option<&[u8]>) -> (r: u64)
    ensures
        r == do_bits_loaded(magic, bytes_view(blob)),
{
    match (magic, blob) {
        (Some(m), Some(b)) => {
            if m == DO_NVS_MAGIC && b.len() == 8 {
                return (get_le32(b, 0) as u64) + (get_le32(b, 4) as u64) * 0x1_0000_0000;
            }
            0
        },
        _ => 0,
    }
}

/// The bytes to store for an output state.
pub fn save_do_bits_to_nvs(bits: u64) -> (r: Vec<u8>)
    ensures
        r@ == le64_bytes(bits),
{
    let mut blob: Vec<u8> = Vec::new();
    push_le32(&mut blob, (bits % 0x1_0000_0000) as u32);
    push_le32(&mut blob, (bits / 0x1_0000_0000) as u32);
    assert(blob@ =~= le64_bytes(bits));
    blob
}

/// A stored output state loads as it was.
pub proof fn law_do_bits_roundtrip(bits: u64)
    ensures
        do_bits_loaded(Some(DO_NVS_MAGIC), Some(le64_bytes(bits))) == bits,
{
    let (l, h) = ((bits % 0x1_0000_0000) as u32, (bits / 0x1_0000_0000) as u32);
    crate::bytes::law_dword_of_bytes(l);
    crate::bytes::law_dword_of_bytes(h);
    let s = le64_bytes(bits);
    assert(le32_at(s, 0) == l);
    assert(le32_at(s, 4) == h);
}

/// The output state that was stored last, and when.
#[derive(Debug, Clone, Copy, PartialEq, Eq, Structural)]
pub struct DoPersist {
    pub last_bits: u64,
    pub last_ms: u32,
}

/// Whether the output state is to be stored: enough time has passed, and it
/// changed.
pub open spec fn do_due(p: DoPersist, bits: u64, now_ms: u32) -> bool {
    (now_ms - p.last_ms) % 0x1_0000_0000 >= DO_THROTTLE_MS && bits != p.last_bits
}

/// The output state to store now, if any.
pub fn persist_do_bits_throttled(p: &DoPersist, bits: u64, now_ms: u32) -> (r: Option<u64>)
    ensures
        r == (if do_due(*p, bits, now_ms) {
            Some(bits)
        } else {
            None::<u64>
        }),
{
    if now_ms.wrapping_sub(p.last_ms) < DO_THROTTLE_MS {
        return None;
    }
    if bits == p.last_bits {
        return None;
    }
    Some(bits)
}

/// Notes that an output state was stored.
pub fn do_bits_stored(p: &mut DoPersist, bits: u64, now_ms: u32)
    ensures
        *final(p) == (DoPersist { last_bits: bits, last_ms: now_ms }),
{
    p.last_bits = bits;
    p.last_ms = now_ms;
}

/// After an output state was stored, nothing is stored for a second, and then only
/// a change.
pub proof fn law_do_writes_are_throttled(bits: u64, at: u32, again: u64, now_ms: u32)
    ensures
        do_due(DoPersist { last_bits: bits, last_ms: at }, again, now_ms) ==> again != bits && (now_ms - at)
            % 0x1_0000_0000 >= 1000,
{
}

// ---- Counters ----

/// The reset counter to start with.
pub fn load_reset_count(stored: Option<u16>) -> (r: u16)
    ensures
        r == (match stored {
            Some(v) => v,
            None => 0,
        }),
{
    match stored {
        Some(v) => v,
        None => 0,
    }
}

/// The mesh key indices to start with; zero before the device was provisioned.
pub fn load_mesh_keys(net_idx: Option<u16>, app_idx: Option<u16>) -> (r: (u16, u16))
    ensures
        r.0 == (match net_idx {
            Some(v) => v,
            None => 0,
        }),
        r.1 == (match app_idx {
            Some(v) => v,
            None => 0,
        }),
{
    (load_reset_count(net_idx), load_reset_count(app_idx))
}

// ---- Configuration ----

/// The bytes to store for the current configuration.
pub fn apply_config_sync(gw: &Gateway) -> (r: Vec<u8>)
    ensures
        r@ == crate::device::system_config::cfg_blob(crate::bus::writes::current_config(gw@)),
{
    crate::bus::writes::config_clone(gw).cfg.encode()
}

// ---- Start-up ----

/// Everything that was loaded at start-up, and the hardware addresses.
pub struct BootImage {
    pub proto: ProtoImage,
    pub device_text: Vec<u16>,
    pub holding: LoadedHoldingState,
    pub config: SystemConfig,
    /// The stored device table.
    pub devices: Option<Vec<u8>>,
    /// The stored output state; `None` without an NVS.
    pub do_bits: Option<u64>,
    pub hw_eth_mac: [u8; 6],
    pub hw_ble_mac: [u8; 6],
}

/// Words restored into an area of `n`: as they are if the number fits, else zeros.
pub open spec fn area_of(words: Seq<u16>, n: nat) -> Seq<u16> {
    restored(zero_words(n), words)
}

/// The storage that start-up publishes.
pub open spec fn boot_storage(b: BootImage) -> StorageView {
    StorageView {
        proto: ProtoView {
            data: first_words(b.proto@.data, 1500),
            version: b.proto@.version,
            length: b.proto@.length,
            dirty: false,
            status: 0,
        },
        device_text: area_of(b.device_text@, 2000),
        holding_buf: area_of(b.holding@.words, 2048),
        monitor_words: area_of(b.holding@.monitor_words, 128),
        control_words: area_of(b.holding@.control_words, 300),
        legacy_coils: restored(crate::bus::storage_state::zero_bytes(1536), b.holding@.legacy_coils),
    }
}

/// The configuration that start-up publishes: hardware addresses fill unset ones,
/// and the firmware version is always that of the running firmware.
pub open spec fn boot_config(b: BootImage) -> CfgView {
    let c = b.config@;
    CfgView {
        eth_mac: if c.eth_mac == padded(seq![], 6) {
            b.hw_eth_mac@
        } else {
            c.eth_mac
        },
        ble_mac: if c.ble_mac == padded(seq![], 6) {
            b.hw_ble_mac@
        } else {
            c.ble_mac
        },
        fw_version: version_code(APP_VERSION@),
        ..c
    }
}

pub open spec fn owned_bytes(b: Option<Vec<u8>>) -> Option<Seq<u8>> {
    match b {
        Some(v) => Some(v@),
        None => None,
    }
}

/// The state after start-up.
pub open spec fn booted(g: GatewayView, b: BootImage) -> GatewayView {
    GatewayView {
        storage: StorageStateView { snapshot: Some(boot_storage(b)), status: 0, ..g.storage },
        config: Some(boot_config(b)),
        devices: table_loaded(TableView { devices: Seq::empty(), stored_count: 0 }, owned_bytes(b.devices)),
        io: IoView {
            do_: match b.do_bits {
                Some(bits) => bits,
                None => g.io.do_,
            },
            sys: SysState { firmware_version: version_code(APP_VERSION@), ..g.io.sys },
            ..g.io
        },
        do_notify: g.do_notify || b.do_bits is Some,
        ..g
    }
}

fn restore_words<const N: usize>(area: &mut [u16; N], words: &Vec<u16>)
    ensures
        final(area)@ == restored(old(area)@, words@),
{
    if words.len() != N {
        return;
    }
    let mut i: usize = 0;
    while i < N
        invariant
            i <= N,
            words@.len() == N,
            forall|j: int| 0 <= j < i ==> area@[j] == words@[j],
        decreases N - i,
    {
        area[i] = words[i];
        i += 1;
    }
    assert(area@ =~= words@);
}

/// Publishes what was loaded at start-up.
pub fn init(gw: &mut Gateway, boot: &BootImage)
    ensures
        final(gw)@ == booted(old(gw)@, *boot),
{
    let mut snap = StorageSnapshot::new();
    fill_words(&mut snap.proto.data, &boot.proto.data);
    snap.proto.version = boot.proto.version;
    snap.proto.length = boot.proto.length;
    restore_words(&mut snap.device_text, &boot.device_text);
    restore_words(&mut snap.holding_buf, &boot.holding.words);
    storage_set_snapshot(gw, snap);
    storage_restore_legacy_state(
        gw,
        boot.holding.monitor_words.as_slice(),
        boot.holding.control_words.as_slice(),
        boot.holding.legacy_coils.as_slice(),
    );
    let mut cfg = boot.config;
    cfg.fill_hw_macs(boot.hw_eth_mac, boot.hw_ble_mac);
    cfg.fw_version = SystemConfig::fw_version_from_cargo();
    config_write(&mut gw.config, ConfigSnapshot { cfg });
    gw.devices = DeviceConfigTable::new();
    if let Some(blob) = &boot.devices {
        gw.devices.load(Some(blob.as_slice()));
    }
    match boot.do_bits {
        Some(bits) => {
            gw.io.do_.store_bits(bits);
            gw.do_notify = true;
        },
        None => {},
    }
    gw.io.sys.set_fw_version(cfg.fw_version);
    assert(gw@ =~= booted(old(gw)@, *boot));
}

} // verus!

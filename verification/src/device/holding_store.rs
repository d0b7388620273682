//! Power-safe images of the register buffer and of the control, monitor and coil
//! areas.
//!
//! Two slots of a raw partition are written in turn. A save goes to the slot that
//! is not active, is read back and checked, and only then becomes the active one,
//! so a power failure leaves at least one complete image. Images of an older kind
//! are still read.

use crate::bus::storage_state::{zero_bytes, zero_words, StorageSnapshot, StorageState, StorageStateView, StorageView};
use crate::bytes::{
    byte_of, get_le16, get_le32, hi, high, le16_at, le32_at, le32_bytes, le_bytes, le_words, lo, low,
};
use crate::device::crc::{checksum, crc32};
use crate::device::words::{lemma_words_inside, push_bytes, push_words, read_bytes, read_words};
use crate::error::AppError;
use crate::text::{dec, push_dec};
use vstd::prelude::*;
use vstd::slice::slice_subrange;

verus! {

pub const PARTITION_LABEL: &'static str = "holding";
pub const SLOT_COUNT: usize = 2;
pub const SLOT_BYTES: usize = 0x2000;
pub const PARTITION_MIN_BYTES: usize = 0x8000;
/// No slot holds an image.
pub const NO_ACTIVE_SLOT: u8 = 255;

/// Mark of an image, "HLD1".
pub const RAW_MAGIC: u32 = 0x484C_4431;
pub const RAW_VERSION: u16 = 2;
/// Version of images that hold the register buffer alone.
pub const LEGACY_RAW_VERSION: u16 = 1;
pub const RAW_HEADER_BYTES: usize = 16;

pub const LEGACY_NVS_KEY_BLOB_A: &'static str = "hld_buf_a";
pub const LEGACY_NVS_KEY_BLOB_B: &'static str = "hld_buf_b";
pub const LEGACY_NVS_KEY_ACTIVE: &'static str = "hld_act";
pub const LEGACY_MAGIC: u16 = 0x4842;
pub const LEGACY_VERSION: u16 = 1;
pub const LEGACY_HEADER_BYTES: usize = 8;

pub const HOLDING_WORDS: usize = 2048;
pub const HOLDING_DATA_BYTES: usize = 4096;
pub const MONITOR_WORDS: usize = 128;
pub const CONTROL_WORDS: usize = 300;
pub const LEGACY_COIL_BYTES: usize = 1536;
pub const MONITOR_DATA_BYTES: usize = 256;
pub const CONTROL_DATA_BYTES: usize = 600;
/// Header, register buffer, monitor words, control words, coils.
pub const RAW_TOTAL_BYTES: usize = 6504;
pub const LEGACY_RAW_TOTAL_BYTES: usize = 4112;
pub const LEGACY_TOTAL_BYTES: usize = 4104;

/// The areas that an image holds.
#[derive(Debug)]
pub struct LoadedHoldingState {
    pub words: Vec<u16>,
    pub monitor_words: Vec<u16>,
    pub control_words: Vec<u16>,
    pub legacy_coils: Vec<u8>,
}

/// The areas as plain values.
#[verifier::ext_equal]
pub struct AreasView {
    pub words: Seq<u16>,
    pub monitor_words: Seq<u16>,
    pub control_words: Seq<u16>,
    pub legacy_coils: Seq<u8>,
}

impl View for LoadedHoldingState {
    type V = AreasView;

    open spec fn view(&self) -> AreasView {
        AreasView {
            words: self.words@,
            monitor_words: self.monitor_words@,
            control_words: self.control_words@,
            legacy_coils: self.legacy_coils@,
        }
    }
}

pub open spec fn areas_zero() -> AreasView {
    AreasView {
        words: zero_words(2048),
        monitor_words: zero_words(128),
        control_words: zero_words(300),
        legacy_coils: zero_bytes(1536),
    }
}

/// The areas of a storage snapshot.
pub open spec fn areas_of(s: StorageView) -> AreasView {
    AreasView {
        words: s.holding_buf,
        monitor_words: s.monitor_words,
        control_words: s.control_words,
        legacy_coils: s.legacy_coils,
    }
}

fn zeros16(n: usize) -> (r: Vec<u16>)
    ensures
        r@ == zero_words(n as nat),
{
    let mut v: Vec<u16> = Vec::new();
    let mut i: usize = 0;
    while i < n
        invariant
            i <= n,
            v@ == zero_words(i as nat),
        decreases n - i,
    {
        v.push(0);
        i += 1;
        assert(v@ =~= zero_words(i as nat));
    }
    v
}

fn zeros8(n: usize) -> (r: Vec<u8>)
    ensures
        r@ == zero_bytes(n as nat),
{
    let mut v: Vec<u8> = Vec::new();
    let mut i: usize = 0;
    while i < n
        invariant
            i <= n,
            v@ == zero_bytes(i as nat),
        decreases n - i,
    {
        v.push(0);
        i += 1;
        assert(v@ =~= zero_bytes(i as nat));
    }
    v
}

impl LoadedHoldingState {
    pub fn empty() -> (r: Self)
        ensures
            r@ == areas_zero(),
    {
        LoadedHoldingState {
            words: zeros16(HOLDING_WORDS),
            monitor_words: zeros16(MONITOR_WORDS),
            control_words: zeros16(CONTROL_WORDS),
            legacy_coils: zeros8(LEGACY_COIL_BYTES),
        }
    }
}

/// An image that was found in a slot.
#[derive(Debug)]
pub struct DecodedSlot {
    pub slot: u8,
    pub generation: u32,
    pub words: Vec<u16>,
    pub monitor_words: Vec<u16>,
    pub control_words: Vec<u16>,
    pub legacy_coils: Vec<u8>,
}

/// The image as plain values.
#[verifier::ext_equal]
pub struct SlotView {
    pub slot: u8,
    pub generation: u32,
    pub areas: AreasView,
}

impl View for DecodedSlot {
    type V = SlotView;

    open spec fn view(&self) -> SlotView {
        SlotView {
            slot: self.slot,
            generation: self.generation,
            areas: AreasView {
                words: self.words@,
                monitor_words: self.monitor_words@,
                control_words: self.control_words@,
                legacy_coils: self.legacy_coils@,
            },
        }
    }
}

// ---- Images ----

/// The areas as bytes.
pub open spec fn raw_body(a: AreasView) -> Seq<u8> {
    le_bytes(a.words) + le_bytes(a.monitor_words) + le_bytes(a.control_words) + a.legacy_coils
}

/// Header of an image: mark, version, number of words, generation, checksum.
pub open spec fn raw_header(generation: u32, crc: u32) -> Seq<u8> {
    le32_bytes(RAW_MAGIC) + seq![lo(RAW_VERSION), hi(RAW_VERSION), lo(2048), hi(2048)] + le32_bytes(generation)
        + le32_bytes(crc)
}

/// The image of the areas.
pub open spec fn raw_image(a: AreasView, generation: u32) -> Seq<u8> {
    raw_header(generation, checksum(raw_body(a))) + raw_body(a)
}

/// Length of the data of an image of the given version.
pub open spec fn raw_data_len(version: u16) -> int {
    if version == LEGACY_RAW_VERSION {
        4096
    } else {
        6488
    }
}

/// Whether a byte string holds a complete, unaltered image.
pub open spec fn raw_valid(b: Seq<u8>) -> bool {
    &&& b.len() >= 4112
    &&& le32_at(b, 0) == RAW_MAGIC
    &&& le16_at(b, 6) == 2048
    &&& le16_at(b, 4) == RAW_VERSION || le16_at(b, 4) == LEGACY_RAW_VERSION
    &&& b.len() >= 16 + raw_data_len(le16_at(b, 4))
    &&& checksum(b.subrange(16, 16 + raw_data_len(le16_at(b, 4)))) == le32_at(b, 12)
}

/// The areas of an image; one of the older version holds the register buffer
/// alone.
pub open spec fn raw_areas(b: Seq<u8>) -> AreasView {
    if le16_at(b, 4) == LEGACY_RAW_VERSION {
        AreasView { words: le_words(b, 16, 2048), ..areas_zero() }
    } else {
        AreasView {
            words: le_words(b, 16, 2048),
            monitor_words: le_words(b, 4112, 128),
            control_words: le_words(b, 4368, 300),
            legacy_coils: b.subrange(4968, 6504),
        }
    }
}

/// The image that a byte string holds, if it holds one.
pub open spec fn raw_decoded(b: Seq<u8>, slot: u8) -> Option<SlotView> {
    if raw_valid(b) {
        Some(SlotView { slot, generation: le32_at(b, 8), areas: raw_areas(b) })
    } else {
        None
    }
}

/// Writes the header of an image in front of its data.
pub fn encode_raw_header(blob: &mut [u8], generation: u32)
    requires
        old(blob)@.len() >= 6504,
    ensures
        final(blob)@ == raw_header(generation, checksum(old(blob)@.subrange(16, 6504))) + old(blob)@.skip(16),
{
    let crc: u32 = crc32(slice_subrange(&*blob, RAW_HEADER_BYTES, RAW_TOTAL_BYTES));
    blob[0] = byte_of(RAW_MAGIC, 0);
    blob[1] = byte_of(RAW_MAGIC, 1);
    blob[2] = byte_of(RAW_MAGIC, 2);
    blob[3] = byte_of(RAW_MAGIC, 3);
    blob[4] = low(RAW_VERSION);
    blob[5] = high(RAW_VERSION);
    blob[6] = low(2048);
    blob[7] = high(2048);
    blob[8] = byte_of(generation, 0);
    blob[9] = byte_of(generation, 1);
    blob[10] = byte_of(generation, 2);
    blob[11] = byte_of(generation, 3);
    blob[12] = byte_of(crc, 0);
    blob[13] = byte_of(crc, 1);
    blob[14] = byte_of(crc, 2);
    blob[15] = byte_of(crc, 3);
    assert(blob@ =~= raw_header(generation, checksum(old(blob)@.subrange(16, 6504))) + old(blob)@.skip(16));
}

/// Finds the image that a byte string holds.
pub fn decode_raw_blob(blob: &[u8], slot: u8) -> (r: Option<DecodedSlot>)
    ensures
        r is Some <==> raw_decoded(blob@, slot) is Some,
        r is Some ==> r->0@ == raw_decoded(blob@, slot)->0,
{
    if blob.len() < LEGACY_RAW_TOTAL_BYTES {
        return None;
    }
    if get_le32(blob, 0) != RAW_MAGIC || get_le16(blob, 6) != 2048 {
        return None;
    }
    let version: u16 = get_le16(blob, 4);
    if version != RAW_VERSION && version != LEGACY_RAW_VERSION {
        return None;
    }
    let generation: u32 = get_le32(blob, 8);
    let stored: u32 = get_le32(blob, 12);
    let data_len: usize = if version == LEGACY_RAW_VERSION {
        HOLDING_DATA_BYTES
    } else {
        RAW_TOTAL_BYTES - RAW_HEADER_BYTES
    };
    if blob.len() < RAW_HEADER_BYTES + data_len {
        return None;
    }
    if crc32(slice_subrange(blob, RAW_HEADER_BYTES, RAW_HEADER_BYTES + data_len)) != stored {
        return None;
    }
    let words = read_words(blob, 16, HOLDING_WORDS);
    if version == LEGACY_RAW_VERSION {
        return Some(
            DecodedSlot {
                slot,
                generation,
                words,
                monitor_words: zeros16(MONITOR_WORDS),
                control_words: zeros16(CONTROL_WORDS),
                legacy_coils: zeros8(LEGACY_COIL_BYTES),
            },
        );
    }
    Some(
        DecodedSlot {
            slot,
            generation,
            words,
            monitor_words: read_words(blob, 4112, MONITOR_WORDS),
            control_words: read_words(blob, 4368, CONTROL_WORDS),
            legacy_coils: read_bytes(blob, 4968, LEGACY_COIL_BYTES),
        },
    )
}

/// The image of a storage snapshot.
fn encode_image(s: &StorageSnapshot, generation: u32) -> (r: Vec<u8>)
    ensures
        r@ == raw_image(areas_of(s@), generation),
{
    let mut blob: Vec<u8> = zeros8(RAW_HEADER_BYTES);
    push_words(&mut blob, s.holding_buf.as_slice());
    push_words(&mut blob, s.monitor_words.as_slice());
    push_words(&mut blob, s.control_words.as_slice());
    push_bytes(&mut blob, s.legacy_coils.as_slice());
    let ghost body = raw_body(areas_of(s@));
    assert(blob@ =~= zero_bytes(16) + body);
    assert(blob@.subrange(16, 6504) =~= body);
    assert(blob@.skip(16) =~= body);
    encode_raw_header(blob.as_mut_slice(), generation);
    blob
}

// ---- Generations ----

/// Whether a generation comes after another, counting round the end.
pub open spec fn newer(candidate: u32, current: u32) -> bool {
    candidate != current && (candidate - current) % 0x1_0000_0000 < 0x8000_0000
}

pub fn generation_is_newer(candidate: u32, current: u32) -> (r: bool)
    ensures
        r == newer(candidate, current),
{
    candidate != current && candidate.wrapping_sub(current) < 0x8000_0000
}

// ---- Saving ----

/// The active slot and its generation.
#[derive(Debug, Clone, Copy, PartialEq, Eq, Structural)]
pub struct SlotState {
    pub active: u8,
    pub generation: u32,
    /// The images of the older kind were removed.
    pub legacy_removed: bool,
}

impl SlotState {
    /// No image yet.
    pub fn new() -> (r: Self)
        ensures
            r == (SlotState { active: NO_ACTIVE_SLOT, generation: 0, legacy_removed: false }),
    {
        SlotState { active: NO_ACTIVE_SLOT, generation: 0, legacy_removed: false }
    }
}

/// The slot that a save goes to.
pub open spec fn target_slot(s: SlotState) -> u8 {
    if s.active == 0 {
        1
    } else {
        0
    }
}

/// A save that was begun: erase the slot, write the image, read it back.
#[derive(Debug)]
pub struct SavePlan {
    pub slot: u8,
    pub generation: u32,
    pub blob: Vec<u8>,
    /// What waited to be persisted.
    pub holding_dirty: bool,
    pub legacy_dirty: bool,
}

/// Begins a save of what waits to be persisted. `Ok(None)` says that nothing
/// waits; without storage the save fails and everything goes on waiting.
pub fn save_to_nvs(storage: &mut StorageState, slots: &SlotState) -> (r: Result<Option<SavePlan>, AppError>)
    ensures
        ({
            let old_s = old(storage)@;
            let waits = old_s.holding_dirty || old_s.legacy_io_dirty;
            &&& !waits ==> (r matches Ok(None)) && final(storage)@ == old_s
            &&& waits && old_s.snapshot is None ==> (r matches Err(AppError::Config(e)) && e@
                == "holding storage unavailable"@) && final(storage)@ == old_s
            &&& waits && old_s.snapshot is Some ==> (r matches Ok(Some(p)) && p.slot == target_slot(*slots)
                && p.generation == slots.generation.wrapping_add(1) && p.blob@ == raw_image(
                areas_of(old_s.snapshot->0),
                p.generation,
            ) && p.holding_dirty == old_s.holding_dirty && p.legacy_dirty == old_s.legacy_io_dirty)
                && final(storage)@ == (StorageStateView {
                holding_dirty: false,
                legacy_io_dirty: false,
                ..old_s
            })
        }),
{
    let holding_dirty: bool = storage.holding_dirty;
    let legacy_dirty: bool = storage.legacy_io_dirty;
    if !holding_dirty && !legacy_dirty {
        return Ok(None);
    }
    let snapshot = match storage.snapshot.read() {
        Some(s) => s,
        None => {
            return Err(AppError::Config("holding storage unavailable".to_owned()));
        },
    };
    storage.holding_dirty = false;
    storage.legacy_io_dirty = false;
    let generation: u32 = slots.generation.wrapping_add(1);
    let slot: u8 = if slots.active == 0 {
        1
    } else {
        0
    };
    let blob = encode_image(&snapshot, generation);
    Ok(Some(SavePlan { slot, generation, blob, holding_dirty, legacy_dirty }))
}

/// Text of a failed check.
pub open spec fn check_failed_text(slot: u8) -> Seq<char> {
    "raw slot "@ + dec(slot as nat) + " verification failed"@
}

/// The storage state after a save failed: what waited goes on waiting.
pub open spec fn save_failed(s: StorageStateView, legacy_dirty: bool) -> StorageStateView {
    StorageStateView { holding_dirty: true, legacy_io_dirty: s.legacy_io_dirty || legacy_dirty, ..s }
}

/// Ends a save with what was read back. The slot becomes the active one only if
/// the image in it is complete.
pub fn finish_save(
    storage: &mut StorageState,
    slots: &mut SlotState,
    plan: &SavePlan,
    read_back: &[u8],
) -> (r: Result<(), AppError>)
    ensures
        raw_valid(read_back@) ==> r is Ok && *final(slots) == (SlotState {
            active: plan.slot,
            generation: plan.generation,
            ..*old(slots)
        }) && final(storage)@ == (StorageStateView { holding_valid: true, ..old(storage)@ }),
        !raw_valid(read_back@) ==> (r matches Err(AppError::Config(e)) && e@ == check_failed_text(plan.slot))
            && *final(slots) == *old(slots) && final(storage)@ == save_failed(old(storage)@, plan.legacy_dirty),
{
    match decode_raw_blob(read_back, plan.slot) {
        Some(_image) => {
            slots.active = plan.slot;
            slots.generation = plan.generation;
            storage.holding_valid = true;
            Ok(())
        },
        None => {
            abandon_save(storage, plan);
            let mut e = "raw slot ".to_owned();
            push_dec(&mut e, plan.slot as u64);
            e.push_str(" verification failed");
            Err(AppError::Config(e))
        },
    }
}

/// Gives a save up: what waited goes on waiting.
pub fn abandon_save(storage: &mut StorageState, plan: &SavePlan)
    ensures
        final(storage)@ == save_failed(old(storage)@, plan.legacy_dirty),
{
    storage.holding_dirty = true;
    if plan.legacy_dirty {
        storage.legacy_io_dirty = true;
    }
}

/// Whether the images of the older kind are to be removed after a save: once, and
/// only where their storage can be reached. Notes that they were.
pub fn retire_legacy(slots: &mut SlotState, reachable: bool) -> (r: bool)
    ensures
        r == (reachable && !old(slots).legacy_removed),
        *final(slots) == (SlotState { legacy_removed: old(slots).legacy_removed || reachable, ..*old(slots) }),
{
    if !reachable || slots.legacy_removed {
        return false;
    }
    slots.legacy_removed = true;
    true
}

// ---- Loading ----

/// The newer of two images; an image beats none.
pub open spec fn newest(a: Option<SlotView>, b: Option<SlotView>) -> Option<SlotView> {
    match (a, b) {
        (Some(x), Some(y)) => if newer(y.generation, x.generation) {
            b
        } else {
            a
        },
        (None, _) => b,
        (_, None) => a,
    }
}

/// The newest image of the two slots.
pub open spec fn best_image(slot0: Option<Seq<u8>>, slot1: Option<Seq<u8>>) -> Option<SlotView> {
    newest(
        match slot0 {
            Some(b) => raw_decoded(b, 0),
            None => None,
        },
        match slot1 {
            Some(b) => raw_decoded(b, 1),
            None => None,
        },
    )
}

pub open spec fn bytes_view(b: Option<&[u8]>) -> Option<Seq<u8>> {
    match b {
        Some(s) => Some(s@),
        None => None,
    }
}

/// Finds the newest image of the two slots.
pub fn load_best_raw_slot(slot0: Option<&[u8]>, slot1: Option<&[u8]>) -> (r: Option<DecodedSlot>)
    ensures
        r is Some <==> best_image(bytes_view(slot0), bytes_view(slot1)) is Some,
        r is Some ==> r->0@ == best_image(bytes_view(slot0), bytes_view(slot1))->0,
{
    let a = match slot0 {
        Some(b) => decode_raw_blob(b, 0),
        None => None,
    };
    let b = match slot1 {
        Some(b) => decode_raw_blob(b, 1),
        None => None,
    };
    match a {
        None => b,
        Some(x) => match b {
            None => Some(x),
            Some(y) => {
                if generation_is_newer(y.generation, x.generation) {
                    Some(y)
                } else {
                    Some(x)
                }
            },
        },
    }
}

/// Whether a blob of the older kind is complete.
pub open spec fn legacy_valid(b: Seq<u8>) -> bool {
    &&& b.len() == 4104
    &&& le16_at(b, 0) == LEGACY_MAGIC
    &&& le16_at(b, 2) == LEGACY_VERSION
    &&& checksum(b.subrange(8, 4104)) == le32_at(b, 4)
}

/// The register buffer in a blob of the older kind.
pub open spec fn legacy_words(b: Option<Seq<u8>>) -> Option<Seq<u16>> {
    match b {
        Some(s) => if legacy_valid(s) {
            Some(le_words(s, 8, 2048))
        } else {
            None
        },
        None => None,
    }
}

fn try_load_legacy_blob(blob: Option<&[u8]>) -> (r: Option<Vec<u16>>)
    ensures
        r is Some <==> legacy_words(bytes_view(blob)) is Some,
        r is Some ==> r->0@ == legacy_words(bytes_view(blob))->0,
{
    let b = match blob {
        Some(b) => b,
        None => {
            return None;
        },
    };
    if b.len() != LEGACY_TOTAL_BYTES {
        return None;
    }
    if get_le16(b, 0) != LEGACY_MAGIC || get_le16(b, 2) != LEGACY_VERSION {
        return None;
    }
    if crc32(slice_subrange(b, LEGACY_HEADER_BYTES, LEGACY_TOTAL_BYTES)) != get_le32(b, 4) {
        return None;
    }
    Some(read_words(b, LEGACY_HEADER_BYTES, HOLDING_WORDS))
}

/// The register buffer of the blobs of the older kind: the active one, else the
/// other.
pub open spec fn legacy_loaded(active: Option<u8>, a: Option<Seq<u8>>, b: Option<Seq<u8>>) -> Option<Seq<u16>> {
    let (first, second) = if active == Some(1u8) {
        (b, a)
    } else {
        (a, b)
    };
    match legacy_words(first) {
        Some(w) => Some(w),
        None => legacy_words(second),
    }
}

fn load_legacy_nvs(active: Option<u8>, a: Option<&[u8]>, b: Option<&[u8]>) -> (r: Option<Vec<u16>>)
    ensures
        r is Some <==> legacy_loaded(active, bytes_view(a), bytes_view(b)) is Some,
        r is Some ==> r->0@ == legacy_loaded(active, bytes_view(a), bytes_view(b))->0,
{
    let b_first: bool = match active {
        Some(v) => v == 1,
        None => false,
    };
    let (first, second) = if b_first {
        (b, a)
    } else {
        (a, b)
    };
    match try_load_legacy_blob(first) {
        Some(w) => Some(w),
        None => try_load_legacy_blob(second),
    }
}

/// What the partition and the NVS hold: the two slots, and the blobs of the older
/// kind with the mark of the active one.
pub struct HoldingSources<'a> {
    pub slot0: Option<&'a [u8]>,
    pub slot1: Option<&'a [u8]>,
    pub legacy_active: Option<u8>,
    pub legacy_a: Option<&'a [u8]>,
    pub legacy_b: Option<&'a [u8]>,
}

impl<'a> HoldingSources<'a> {
    pub open spec fn image(&self) -> Option<SlotView> {
        best_image(bytes_view(self.slot0), bytes_view(self.slot1))
    }

    pub open spec fn legacy(&self) -> Option<Seq<u16>> {
        legacy_loaded(self.legacy_active, bytes_view(self.legacy_a), bytes_view(self.legacy_b))
    }
}

/// Loads the areas at start-up: the newest image, else a blob of the older kind,
/// which then waits to be copied, else nothing.
pub fn load_from_nvs(storage: &mut StorageState, slots: &mut SlotState, sources: &HoldingSources) -> (r:
    LoadedHoldingState)
    ensures
        sources.image() matches Some(i) ==> r@ == i.areas && *final(slots) == (SlotState {
            active: i.slot,
            generation: i.generation,
            ..*old(slots)
        }) && final(storage)@ == (StorageStateView { holding_valid: true, ..old(storage)@ }),
        sources.image() is None && sources.legacy() is Some ==> r@ == (AreasView {
            words: sources.legacy()->0,
            ..areas_zero()
        }) && *final(slots) == *old(slots) && final(storage)@ == (StorageStateView {
            holding_valid: true,
            holding_dirty: true,
            ..old(storage)@
        }),
        sources.image() is None && sources.legacy() is None ==> r@ == areas_zero() && *final(slots) == (SlotState {
            active: NO_ACTIVE_SLOT,
            generation: 0,
            ..*old(slots)
        }) && final(storage)@ == (StorageStateView { holding_valid: false, ..old(storage)@ }),
{
    match load_best_raw_slot(sources.slot0, sources.slot1) {
        Some(image) => {
            slots.active = image.slot;
            slots.generation = image.generation;
            storage.holding_valid = true;
            return LoadedHoldingState {
                words: image.words,
                monitor_words: image.monitor_words,
                control_words: image.control_words,
                legacy_coils: image.legacy_coils,
            };
        },
        None => {},
    }
    match load_legacy_nvs(sources.legacy_active, sources.legacy_a, sources.legacy_b) {
        Some(words) => {
            storage.holding_valid = true;
            storage.holding_dirty = true;
            let mut r = LoadedHoldingState::empty();
            r.words = words;
            return r;
        },
        None => {},
    }
    slots.active = NO_ACTIVE_SLOT;
    slots.generation = 0;
    storage.holding_valid = false;
    LoadedHoldingState::empty()
}

// ---- Laws ----

/// The areas have the lengths that an image holds.
pub open spec fn areas_shaped(a: AreasView) -> bool {
    a.words.len() == 2048 && a.monitor_words.len() == 128 && a.control_words.len() == 300 && a.legacy_coils.len()
        == 1536
}

/// An image is found again with its generation and all its areas.
pub proof fn law_image_roundtrip(a: AreasView, generation: u32, slot: u8)
    requires
        areas_shaped(a),
    ensures
        raw_decoded(raw_image(a, generation), slot) == Some(SlotView { slot, generation, areas: a }),
{
    let body = raw_body(a);
    let head = raw_header(generation, checksum(body));
    let b = raw_image(a, generation);
    assert(head.len() == 16 && body.len() == 6488 && b.len() == 6504);
    crate::bytes::law_dword_of_bytes(RAW_MAGIC);
    crate::bytes::law_dword_of_bytes(generation);
    crate::bytes::law_dword_of_bytes(checksum(body));
    assert(b[0] == head[0] && b[1] == head[1] && b[2] == head[2] && b[3] == head[3]);
    assert(le32_at(b, 0) == RAW_MAGIC);
    assert(le16_at(b, 4) == RAW_VERSION);
    assert(le16_at(b, 6) == 2048);
    assert(le32_at(b, 8) == generation);
    assert(le32_at(b, 12) == checksum(body));
    assert(b.subrange(16, 6504) =~= body);
    let (w, m, c, k) = (le_bytes(a.words), le_bytes(a.monitor_words), le_bytes(a.control_words), a.legacy_coils);
    assert(b =~= head + w + (m + c + k));
    lemma_words_inside(head, a.words, m + c + k);
    assert(b =~= (head + w) + m + (c + k));
    lemma_words_inside(head + w, a.monitor_words, c + k);
    assert(b =~= (head + w + m) + c + k);
    lemma_words_inside(head + w + m, a.control_words, k);
    assert(b.subrange(4968, 6504) =~= k);
}

/// The next generation is newer, also round the end, and no two generations are
/// newer than each other.
pub proof fn law_generation_order(a: u32, b: u32)
    ensures
        newer(a.wrapping_add(1), a),
        newer(a, b) ==> !newer(b, a),
        !newer(a, a),
{
}

/// A save never touches the active slot, so a save that is cut short leaves the
/// active image as it was.
pub proof fn law_save_spares_active_slot(s: SlotState)
    ensures
        target_slot(s) != s.active,
        target_slot(s) < SLOT_COUNT,
{
}

/// After a finished save the new image is the one that loads, whatever older image
/// the other slot holds.
pub proof fn law_saved_image_loads(s: SlotState, a: AreasView, other: Seq<u8>)
    requires
        areas_shaped(a),
        raw_decoded(other, (1 - target_slot(s)) as u8) matches Some(o) ==> o.generation == s.generation,
    ensures
        ({
            let new = raw_image(a, s.generation.wrapping_add(1));
            let found = if target_slot(s) == 0 {
                best_image(Some(new), Some(other))
            } else {
                best_image(Some(other), Some(new))
            };
            found == Some(
                SlotView { slot: target_slot(s), generation: s.generation.wrapping_add(1), areas: a },
            )
        }),
{
    law_image_roundtrip(a, s.generation.wrapping_add(1), target_slot(s));
    law_generation_order(s.generation, s.generation.wrapping_add(1));
}

/// If the new image is damaged, the one in the other slot still loads.
pub proof fn law_damaged_image_falls_back(s: SlotState, damaged: Seq<u8>, other: Seq<u8>)
    requires
        !raw_valid(damaged),
    ensures
        (if target_slot(s) == 0 {
            best_image(Some(damaged), Some(other))
        } else {
            best_image(Some(other), Some(damaged))
        }) == raw_decoded(other, (1 - target_slot(s)) as u8),
{
}

} // verus!

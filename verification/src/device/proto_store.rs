//! The protocol store: register access, and its two alternating images.

use crate::bus::storage_state::{proto_status_set, zero_words, ProtoStore, ProtoView, StorageView};
use crate::bus::writes::{current_storage, publish_storage, spliced, storage_clone, with_status, with_storage};
use crate::bytes::{
    get_le16, get_le32, hi, le16_at, le32_at, le32_bytes, le_bytes, le_words, lo, push_le16, push_le32,
};
use crate::device::crc::{checksum, crc32};
use crate::device::holding_store::bytes_view;
use crate::device::words::{lemma_words_inside, push_words, read_words};
use crate::device::PROTO_MAGIC;
use crate::gateway::{Gateway, GatewayView};
use vstd::prelude::*;
use vstd::slice::slice_subrange;

verus! {

pub const NVS_NAMESPACE: &'static str = "gateway";
pub const NVS_KEY_DATA_A: &'static str = "proto_a";
pub const NVS_KEY_DATA_B: &'static str = "proto_b";
/// 0 for image A, 1 for image B.
pub const NVS_KEY_ACTIVE: &'static str = "proto_act";
pub const NVS_KEY_DATA_LEGACY: &'static str = "proto_data";
pub const NVS_KEY_MAGIC_LEGACY: &'static str = "proto_magic";
pub const NVS_KEY_VERSION_LEGACY: &'static str = "proto_ver";
pub const NVS_KEY_LENGTH_LEGACY: &'static str = "proto_len";

/// Words of the store.
pub const PROTO_WORDS: usize = 1500;
/// Mark, version, length, checksum.
pub const BLOB_HEADER_BYTES: usize = 10;
pub const BLOB_TOTAL_BYTES: usize = 3010;

/// Contents of the store as they are persisted.
#[derive(Debug)]
pub struct ProtoImage {
    pub data: Vec<u16>,
    pub version: u16,
    pub length: u16,
}

/// The contents as plain values.
#[verifier::ext_equal]
pub struct ImageView {
    pub data: Seq<u16>,
    pub version: u16,
    pub length: u16,
}

impl View for ProtoImage {
    type V = ImageView;

    open spec fn view(&self) -> ImageView {
        ImageView { data: self.data@, version: self.version, length: self.length }
    }
}

pub open spec fn image_zero() -> ImageView {
    ImageView { data: zero_words(1500), version: 0, length: 0 }
}

/// The contents of a store.
pub open spec fn image_of(p: ProtoView) -> ImageView {
    ImageView { data: p.data, version: p.version, length: p.length }
}

/// Words padded with zeros to the size of the store; those past `n` are dropped.
pub open spec fn first_words(words: Seq<u16>, n: int) -> Seq<u16> {
    Seq::new(
        1500,
        |i: int|
            if i < n && i < words.len() {
                words[i]
            } else {
                0
            },
    )
}

// ---- Images ----

/// Mark, version and length of an image.
pub open spec fn blob_head(i: ImageView) -> Seq<u8> {
    seq![lo(PROTO_MAGIC), hi(PROTO_MAGIC), lo(i.version), hi(i.version), lo(i.length), hi(i.length)]
}

/// Checksum of an image: that of the head and that of the data, added.
pub open spec fn blob_checksum(head: Seq<u8>, data: Seq<u8>) -> u32 {
    checksum(head).wrapping_add(checksum(data))
}

/// The image of the contents.
pub open spec fn proto_blob(i: ImageView) -> Seq<u8> {
    blob_head(i) + le32_bytes(blob_checksum(blob_head(i), le_bytes(i.data))) + le_bytes(i.data)
}

/// Whether a byte string is a complete, unaltered image.
pub open spec fn blob_valid(b: Seq<u8>) -> bool {
    &&& b.len() == 3010
    &&& le16_at(b, 0) == PROTO_MAGIC
    &&& blob_checksum(b.subrange(0, 6), b.subrange(10, 3010)) == le32_at(b, 6)
}

/// The contents of an image, up to the length that it states.
pub open spec fn blob_decoded(b: Option<Seq<u8>>) -> Option<ImageView> {
    match b {
        Some(s) => if blob_valid(s) {
            Some(
                ImageView {
                    data: first_words(le_words(s, 10, 1500), le16_at(s, 4) as int),
                    version: le16_at(s, 2),
                    length: le16_at(s, 4),
                },
            )
        } else {
            None
        },
        None => None,
    }
}

/// Makes the image of a store.
pub fn encode_proto_blob(p: &ProtoStore) -> (r: Vec<u8>)
    ensures
        r@ == proto_blob(image_of(p@)),
{
    let mut head: Vec<u8> = Vec::new();
    push_le16(&mut head, PROTO_MAGIC);
    push_le16(&mut head, p.version);
    push_le16(&mut head, p.length);
    assert(head@ =~= blob_head(image_of(p@)));
    let mut data: Vec<u8> = Vec::new();
    push_words(&mut data, p.data.as_slice());
    assert(data@ =~= le_bytes(p@.data));
    let crc: u32 = crc32(head.as_slice()).wrapping_add(crc32(data.as_slice()));
    let mut blob = head;
    push_le32(&mut blob, crc);
    push_words(&mut blob, p.data.as_slice());
    blob
}

/// The first words of a list, padded to the size of the store.
fn keep_words(words: &Vec<u16>, n: usize) -> (r: Vec<u16>)
    ensures
        r@ == first_words(words@, n as int),
{
    let mut out: Vec<u16> = Vec::new();
    let mut i: usize = 0;
    while i < PROTO_WORDS
        invariant
            i <= 1500,
            out@.len() == i,
            forall|j: int| 0 <= j < i ==> out@[j] == first_words(words@, n as int)[j],
        decreases 1500 - i,
    {
        if i < n && i < words.len() {
            out.push(words[i]);
        } else {
            out.push(0);
        }
        i += 1;
    }
    assert(out@ =~= first_words(words@, n as int));
    out
}

/// Reads an image.
pub fn load_single_blob(blob: Option<&[u8]>) -> (r: Option<ProtoImage>)
    ensures
        r is Some <==> blob_decoded(bytes_view(blob)) is Some,
        r is Some ==> r->0@ == blob_decoded(bytes_view(blob))->0,
{
    let b = match blob {
        Some(b) => b,
        None => {
            return None;
        },
    };
    if b.len() != BLOB_TOTAL_BYTES {
        return None;
    }
    if get_le16(b, 0) != PROTO_MAGIC {
        return None;
    }
    let head = slice_subrange(b, 0, 6);
    let data = slice_subrange(b, BLOB_HEADER_BYTES, BLOB_TOTAL_BYTES);
    if crc32(head).wrapping_add(crc32(data)) != get_le32(b, 6) {
        return None;
    }
    let length: u16 = get_le16(b, 4);
    let words = read_words(b, BLOB_HEADER_BYTES, PROTO_WORDS);
    Some(ProtoImage { data: keep_words(&words, length as usize), version: get_le16(b, 2), length })
}

/// The store in its older form: separate mark, data, version and length.
pub struct LegacyProto<'a> {
    pub magic: Option<u16>,
    pub blob: Option<&'a [u8]>,
    pub version: Option<u16>,
    pub length: Option<u16>,
}

pub open spec fn or_zero(v: Option<u16>) -> u16 {
    match v {
        Some(x) => x,
        None => 0,
    }
}

fn value_or_zero(v: Option<u16>) -> (r: u16)
    ensures
        r == or_zero(v),
{
    match v {
        Some(x) => x,
        None => 0,
    }
}

/// The contents of a store in its older form.
pub open spec fn legacy_decoded(l: LegacyProto) -> Option<ImageView> {
    if or_zero(l.magic) == PROTO_MAGIC && l.blob is Some {
        let b = l.blob->0@;
        Some(
            ImageView {
                data: first_words(le_words(b, 0, b.len() / 2), b.len() as int),
                version: or_zero(l.version),
                length: or_zero(l.length),
            },
        )
    } else {
        None
    }
}

/// Reads a store in its older form.
pub fn load_legacy_blob(l: &LegacyProto) -> (r: Option<ProtoImage>)
    ensures
        r is Some <==> legacy_decoded(*l) is Some,
        r is Some ==> r->0@ == legacy_decoded(*l)->0,
{
    if value_or_zero(l.magic) != PROTO_MAGIC {
        return None;
    }
    match l.blob {
        Some(b) => {
            let words = read_words(b, 0, b.len() / 2);
            Some(
                ProtoImage {
                    data: keep_words(&words, b.len()),
                    version: value_or_zero(l.version),
                    length: value_or_zero(l.length),
                },
            )
        },
        None => None,
    }
}

/// What the NVS holds of the store.
pub struct ProtoSources<'a> {
    pub active: Option<u8>,
    pub blob_a: Option<&'a [u8]>,
    pub blob_b: Option<&'a [u8]>,
    pub legacy: LegacyProto<'a>,
}

/// The contents to load: the active image, else the other one, else the older
/// form, else nothing. Without a mark of the active image only the older form is
/// looked at.
pub open spec fn proto_loaded(s: ProtoSources) -> ImageView {
    let a = blob_decoded(bytes_view(s.blob_a));
    let b = blob_decoded(bytes_view(s.blob_b));
    let image = match s.active {
        Some(act) => if act == 0 {
            if a is Some {
                a
            } else {
                b
            }
        } else {
            if b is Some {
                b
            } else {
                a
            }
        },
        None => None,
    };
    if image is Some {
        image->0
    } else if legacy_decoded(s.legacy) is Some {
        legacy_decoded(s.legacy)->0
    } else {
        image_zero()
    }
}

/// Picks the contents to load.
pub fn load_proto_from_nvs(s: &ProtoSources) -> (r: ProtoImage)
    ensures
        r@ == proto_loaded(*s),
{
    match s.active {
        Some(act) => {
            let (first, second) = if act == 0 {
                (s.blob_a, s.blob_b)
            } else {
                (s.blob_b, s.blob_a)
            };
            if let Some(image) = load_single_blob(first) {
                return image;
            }
            if let Some(image) = load_single_blob(second) {
                return image;
            }
        },
        None => {},
    }
    if let Some(image) = load_legacy_blob(&s.legacy) {
        return image;
    }
    let empty: Vec<u16> = Vec::new();
    let data = keep_words(&empty, 0);
    assert(data@ =~= zero_words(1500));
    ProtoImage { data, version: 0, length: 0 }
}

// ---- Commit and reload ----

/// A commit that was begun: write the image under `key`, read it back, and go on with
/// `check_commit`.
#[derive(Debug)]
pub struct CommitPlan {
    pub key: &'static str,
    pub active: u8,
    pub blob: Vec<u8>,
}

/// A commit whose image was read back and found whole: mark it active, and remove what
/// is left of the older form. Only `check_commit` makes one.
#[derive(Debug)]
pub struct CheckedCommit {
    active: u8,
}

impl CheckedCommit {
    /// The mark of the image.
    pub closed spec fn mark(&self) -> u8 {
        self.active
    }

    /// The mark to store.
    pub fn active(&self) -> (r: u8)
        ensures
            r == self.mark(),
    {
        self.active
    }
}

/// How a commit ended.
#[derive(Debug)]
pub enum StoreOutcome {
    /// The checked image was marked active.
    Stored(CheckedCommit),
    /// There is no NVS; the commit is skipped.
    Unavailable,
    Failed,
}

/// Begins a commit: the image goes to the place that is not active.
pub fn commit_sync(gw: &mut Gateway, active: Option<u8>) -> (r: CommitPlan)
    ensures
        final(gw)@ == with_status(old(gw)@, 1),
        r.blob@ == proto_blob(image_of(current_storage(old(gw)@).proto)),
        (match active {
            Some(a) => a,
            None => 0,
        }) == 0 ==> r.key@ == NVS_KEY_DATA_B@ && r.active == 1,
        (match active {
            Some(a) => a,
            None => 0,
        }) != 0 ==> r.key@ == NVS_KEY_DATA_A@ && r.active == 0,
{
    proto_status_set(&mut gw.storage, 1);
    let act: u8 = match active {
        Some(a) => a,
        None => 0,
    };
    let snap = storage_clone(gw);
    let blob = encode_proto_blob(&snap.proto);
    if act == 0 {
        CommitPlan { key: NVS_KEY_DATA_B, active: 1, blob }
    } else {
        CommitPlan { key: NVS_KEY_DATA_A, active: 0, blob }
    }
}

/// Whether the bytes that were read back are the image that was written, complete and
/// unaltered.
pub open spec fn read_back_whole(blob: Seq<u8>, back: Seq<u8>) -> bool {
    blob_valid(back) && back == blob
}

fn same_bytes(a: &[u8], b: &[u8]) -> (r: bool)
    ensures
        r == (a@ == b@),
{
    if a.len() != b.len() {
        return false;
    }
    let mut i: usize = 0;
    while i < a.len()
        invariant
            i <= a@.len(),
            a@.len() == b@.len(),
            forall|j: int| 0 <= j < i ==> a@[j] == b@[j],
        decreases a@.len() - i,
    {
        if a[i] != b[i] {
            return false;
        }
        i += 1;
    }
    assert(a@ =~= b@);
    true
}

/// Goes on with a commit after its image was written and read back. Only a whole image
/// may be marked active; otherwise the commit has failed, and the status says so.
pub fn check_commit(gw: &mut Gateway, plan: &CommitPlan, read_back: &[u8]) -> (r: Option<CheckedCommit>)
    ensures
        r is Some <==> read_back_whole(plan.blob@, read_back@),
        r is Some ==> r->0.mark() == plan.active && final(gw)@ == old(gw)@,
        r is None ==> final(gw)@ == with_status(old(gw)@, 3),
{
    if load_single_blob(Some(read_back)).is_some() && same_bytes(read_back, plan.blob.as_slice()) {
        Some(CheckedCommit { active: plan.active })
    } else {
        proto_status_set(&mut gw.storage, 3);
        None
    }
}

/// The state after a commit ended: a failure is reported in the status, otherwise
/// the store is clean.
pub open spec fn commit_ended(g: GatewayView, outcome: StoreOutcome) -> GatewayView {
    if outcome is Failed {
        with_status(g, 3)
    } else {
        let n = with_status(g, 0);
        let s = current_storage(n);
        with_storage(n, StorageView { proto: ProtoView { dirty: false, ..s.proto }, ..s })
    }
}

/// Ends a commit; says whether it succeeded.
pub fn finish_commit(gw: &mut Gateway, outcome: StoreOutcome) -> (r: bool)
    ensures
        r == !(outcome is Failed),
        final(gw)@ == commit_ended(old(gw)@, outcome),
{
    if matches!(outcome, StoreOutcome::Failed) {
        proto_status_set(&mut gw.storage, 3);
        return false;
    }
    proto_status_set(&mut gw.storage, 0);
    let mut snap = storage_clone(gw);
    snap.proto.dirty = false;
    publish_storage(gw, snap);
    true
}

/// Begins a reload.
pub fn begin_reload(gw: &mut Gateway)
    ensures
        final(gw)@ == with_status(old(gw)@, 2),
{
    proto_status_set(&mut gw.storage, 2);
}

/// The state after the store was loaded.
pub open spec fn reloaded(g: GatewayView, i: ImageView) -> GatewayView {
    let n = with_status(g, 0);
    let s = current_storage(n);
    with_storage(
        n,
        StorageView {
            proto: ProtoView {
                data: first_words(i.data, 1500),
                version: i.version,
                length: i.length,
                dirty: false,
                ..s.proto
            },
            ..s
        },
    )
}

/// Takes the first words of a list into the store.
pub fn fill_words(target: &mut [u16; 1500], words: &Vec<u16>)
    ensures
        final(target)@ == first_words(words@, 1500),
{
    let mut i: usize = 0;
    while i < 1500
        invariant
            i <= 1500,
            forall|j: int| 0 <= j < i ==> target@[j] == first_words(words@, 1500)[j],
        decreases 1500 - i,
    {
        target[i] = if i < words.len() {
            words[i]
        } else {
            0
        };
        i += 1;
    }
    assert(target@ =~= first_words(words@, 1500));
}

/// Loads the store again from what the NVS holds; without an NVS it is emptied.
pub fn reload_sync(gw: &mut Gateway, sources: Option<&ProtoSources>)
    ensures
        final(gw)@ == reloaded(
            old(gw)@,
            match sources {
                Some(s) => proto_loaded(*s),
                None => image_zero(),
            },
        ),
{
    let empty: Vec<u16> = Vec::new();
    let image = match sources {
        Some(s) => load_proto_from_nvs(s),
        None => ProtoImage { data: keep_words(&empty, 0), version: 0, length: 0 },
    };
    assert(sources is None ==> image@.data =~= zero_words(1500));
    proto_status_set(&mut gw.storage, 0);
    let mut snap = storage_clone(gw);
    fill_words(&mut snap.proto.data, &image.data);
    snap.proto.version = image.version;
    snap.proto.length = image.length;
    snap.proto.dirty = false;
    publish_storage(gw, snap);
}

// ---- Direct access ----

/// Reads a word of the store.
pub fn proto_read(gw: &Gateway, addr: u16) -> (r: Option<u16>)
    ensures
        r == (if addr < 1500 && gw@.storage.snapshot is Some {
            Some(gw@.storage.snapshot->0.proto.data[addr as int])
        } else {
            None::<u16>
        }),
{
    if addr as usize >= PROTO_WORDS {
        return None;
    }
    match gw.storage.snapshot.read() {
        Some(s) => Some(s.proto.data[addr as usize]),
        None => None,
    }
}

/// The state with words of the store written from `start` on, as far as they fit.
pub open spec fn proto_words_written(g: GatewayView, start: u16, values: Seq<u16>) -> GatewayView {
    let s = current_storage(g);
    with_storage(
        g,
        StorageView {
            proto: ProtoView { data: spliced(s.proto.data, start as int, values), dirty: true, ..s.proto },
            ..s
        },
    )
}

/// Writes a word of the store; says whether it exists.
pub fn proto_write(gw: &mut Gateway, addr: u16, value: u16) -> (r: bool)
    ensures
        r == (addr < 1500),
        final(gw)@ == (if r {
            proto_words_written(old(gw)@, addr, seq![value])
        } else {
            old(gw)@
        }),
{
    if addr as usize >= PROTO_WORDS {
        return false;
    }
    let mut snap = storage_clone(gw);
    snap.proto.data[addr as usize] = value;
    snap.proto.dirty = true;
    assert(snap@.proto.data =~= spliced(current_storage(gw@).proto.data, addr as int, seq![value]));
    publish_storage(gw, snap);
    true
}

/// The words from `start` on, at most `len` of them.
pub open spec fn proto_words(g: GatewayView, start: u16, len: u16) -> Seq<u16> {
    match g.storage.snapshot {
        Some(s) => if start >= 1500 {
            Seq::empty()
        } else if start + len <= 1500 {
            s.proto.data.subrange(start as int, start + len)
        } else {
            s.proto.data.subrange(start as int, 1500)
        },
        None => Seq::empty(),
    }
}

/// Reads words of the store, as far as there are any.
pub fn proto_read_bulk(gw: &Gateway, start: u16, len: u16) -> (r: Vec<u16>)
    ensures
        r@ == proto_words(gw@, start, len),
{
    let mut out: Vec<u16> = Vec::new();
    let snap = match gw.storage.snapshot.read() {
        Some(s) => s,
        None => {
            return out;
        },
    };
    if start as usize >= PROTO_WORDS {
        return out;
    }
    let wanted: usize = start as usize + len as usize;
    let end: usize = if wanted > PROTO_WORDS {
        PROTO_WORDS
    } else {
        wanted
    };
    let mut a: usize = start as usize;
    while a < end
        invariant
            start <= a <= end <= 1500,
            out@ == snap@.proto.data.subrange(start as int, a as int),
        decreases end - a,
    {
        out.push(snap.proto.data[a]);
        a += 1;
        assert(out@ =~= snap@.proto.data.subrange(start as int, a as int));
    }
    out
}

/// Writes words of the store, as far as they fit.
pub fn proto_write_bulk(gw: &mut Gateway, start: u16, values: &[u16]) -> (r: bool)
    ensures
        r,
        final(gw)@ == (if values@.len() == 0 {
            old(gw)@
        } else {
            proto_words_written(old(gw)@, start, values@)
        }),
{
    if values.len() == 0 {
        return true;
    }
    let mut snap = storage_clone(gw);
    let ghost before = snap@.proto.data;
    let mut i: usize = 0;
    while i < values.len() && i < PROTO_WORDS && start as usize + i < PROTO_WORDS
        invariant
            i <= values@.len(),
            i <= 1500,
            before.len() == 1500,
            snap@ == (StorageView {
                proto: ProtoView {
                    data: spliced(before, start as int, values@.take(i as int)),
                    ..current_storage(gw@).proto
                },
                ..current_storage(gw@)
            }),
        decreases values@.len() - i,
    {
        snap.proto.data[start as usize + i] = values[i];
        i += 1;
        assert(snap@.proto.data =~= spliced(before, start as int, values@.take(i as int)));
    }
    assert(snap@.proto.data =~= spliced(before, start as int, values@));
    snap.proto.dirty = true;
    publish_storage(gw, snap);
    true
}

/// State of the store.
#[derive(Debug, Clone, Copy, PartialEq, Eq, Structural)]
pub struct ProtoInfo {
    pub capacity: u16,
    pub version: u16,
    pub length: u16,
    pub dirty: bool,
    pub status: u8,
    pub magic: u16,
}

/// The state of the store of a gateway.
pub open spec fn info_of(g: GatewayView) -> ProtoInfo {
    let p = current_storage(g).proto;
    ProtoInfo {
        capacity: 1500,
        version: p.version,
        length: p.length,
        dirty: p.dirty,
        status: g.storage.status,
        magic: PROTO_MAGIC,
    }
}

/// Describes the store.
pub fn proto_info(gw: &Gateway) -> (r: ProtoInfo)
    ensures
        r == info_of(gw@),
{
    let snap = storage_clone(gw);
    ProtoInfo {
        capacity: 1500,
        version: snap.proto.version,
        length: snap.proto.length,
        dirty: snap.proto.dirty,
        status: gw.storage.status,
        magic: PROTO_MAGIC,
    }
}

// ---- Laws ----

/// An image loads with its version and length and the words up to that length.
pub proof fn law_proto_blob_roundtrip(i: ImageView)
    requires
        i.data.len() == 1500,
    ensures
        blob_decoded(Some(proto_blob(i))) == Some(
            ImageView { data: first_words(i.data, i.length as int), ..i },
        ),
{
    let head = blob_head(i);
    let data = le_bytes(i.data);
    let crc = blob_checksum(head, data);
    let b = proto_blob(i);
    assert(head.len() == 6 && data.len() == 3000 && b.len() == 3010);
    crate::bytes::law_dword_of_bytes(crc);
    assert(b[0] == head[0] && b[1] == head[1] && b[2] == head[2] && b[3] == head[3] && b[4] == head[4] && b[5]
        == head[5]);
    assert(b[6] == le32_bytes(crc)[0] && b[7] == le32_bytes(crc)[1] && b[8] == le32_bytes(crc)[2] && b[9]
        == le32_bytes(crc)[3]);
    assert(le32_at(b, 6) == crc);
    assert(b.subrange(0, 6) =~= head);
    assert(b.subrange(10, 3010) =~= data);
    crate::bytes::law_word_of_bytes(PROTO_MAGIC);
    crate::bytes::law_word_of_bytes(i.version);
    crate::bytes::law_word_of_bytes(i.length);
    assert(b =~= (head + le32_bytes(crc)) + data + Seq::<u8>::empty());
    lemma_words_inside(head + le32_bytes(crc), i.data, Seq::<u8>::empty());
}

/// What a commit stored is what a reload gives back, whichever place was active
/// before.
pub proof fn law_commit_then_reload(i: ImageView, old_active: u8, s: ProtoSources)
    requires
        i.data.len() == 1500,
        old_active == 0 ==> bytes_view(s.blob_b) == Some(proto_blob(i)) && s.active == Some(1u8),
        old_active != 0 ==> bytes_view(s.blob_a) == Some(proto_blob(i)) && s.active == Some(0u8),
    ensures
        proto_loaded(s) == (ImageView { data: first_words(i.data, i.length as int), ..i }),
{
    law_proto_blob_roundtrip(i);
}

/// An image that was committed can always be marked active once it is read back as it
/// was written, and what was read back is then what loads.
pub proof fn law_checked_commit_loads(i: ImageView, back: Seq<u8>, old_active: u8, s: ProtoSources)
    requires
        i.data.len() == 1500,
        back == proto_blob(i),
        old_active == 0 ==> bytes_view(s.blob_b) == Some(back) && s.active == Some(1u8),
        old_active != 0 ==> bytes_view(s.blob_a) == Some(back) && s.active == Some(0u8),
    ensures
        read_back_whole(proto_blob(i), back),
        proto_loaded(s) == (ImageView { data: first_words(i.data, i.length as int), ..i }),
{
    law_proto_blob_roundtrip(i);
    law_commit_then_reload(i, old_active, s);
}

/// A commit that fails leaves the store as it was, still waiting to be committed.
pub proof fn law_failed_commit_keeps_the_store(g: GatewayView, outcome: StoreOutcome)
    requires
        outcome is Failed,
    ensures
        commit_ended(g, outcome) == with_status(g, 3),
        commit_ended(g, outcome).storage.snapshot == g.storage.snapshot,
{
}

/// A damaged active image is replaced by the other one.
pub proof fn law_damaged_proto_falls_back(s: ProtoSources)
    requires
        s.active == Some(1u8),
        blob_decoded(bytes_view(s.blob_b)) is None,
        blob_decoded(bytes_view(s.blob_a)) is Some,
    ensures
        proto_loaded(s) == blob_decoded(bytes_view(s.blob_a))->0,
{
}

/// A written word of the store reads back.
pub proof fn law_proto_write_reads_back(g: GatewayView, start: u16, values: Seq<u16>, k: int)
    requires
        current_storage(g).proto.data.len() == 1500,
        0 <= k < values.len(),
        start + k < 1500,
    ensures
        proto_words_written(g, start, values).storage.snapshot->0.proto.data[start + k] == values[k],
        proto_words_written(g, start, values).storage.snapshot->0.proto.dirty,
{
}

} // verus!

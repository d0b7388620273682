//! Laws of the stored images and of start-up.

use crate::bus::storage_state::StorageStateView;
use crate::bytes::{le16_at, le32_at, le32_bytes, le_bytes, le_words};
use crate::device::crc::checksum;
use crate::device::holding_store::{
    areas_shaped, best_image, legacy_loaded, legacy_words, raw_body, raw_decoded, raw_image, save_failed, target_slot,
    AreasView, SlotState,
};
use crate::device::persist::{booted, do_due, le64_bytes, text_loaded, BootImage, DoPersist};
use crate::device::actor::{commits, taken_up};
use crate::device::proto_store::{
    blob_checksum, blob_decoded, blob_head, commit_ended, legacy_decoded, proto_blob, proto_loaded, proto_words,
    proto_words_written, reloaded, CommitPlan, ImageView, ProtoSources, StoreOutcome,
};
use crate::device::DeviceCmd;
use crate::gateway::GatewayView;
use vstd::prelude::*;

verus! {

proof fn lemma_words_low_first(words: Seq<u16>, k: int)
    requires
        0 <= k < words.len(),
    ensures
        le_bytes(words)[2 * k] + 256 * le_bytes(words)[2 * k + 1] == words[k],
{
    assert((2 * k) / 2 == k && (2 * k + 1) / 2 == k && (2 * k) % 2 == 0 && (2 * k + 1) % 2 == 1);
}

// ---- The register image ----

/// An image of the registers: the mark "1DLH", version 2, the number of words, the
/// generation and the checksum of what follows, low bytes first; then the register
/// buffer, the monitor words, the control words and the coils.
pub proof fn law_image_has_its_places(a: AreasView, generation: u32, k: int)
    requires
        areas_shaped(a),
        0 <= k,
    ensures
        ({
            let b = raw_image(a, generation);
            &&& b.len() == 6504
            &&& b[0] == 0x31 && b[1] == 0x44 && b[2] == 0x4C && b[3] == 0x48
            &&& b[4] == 2 && b[5] == 0 && b[6] == 0 && b[7] == 8
            &&& b[8] + 256 * b[9] + 65536 * b[10] + 16777216 * b[11] == generation
            &&& b[12] + 256 * b[13] + 65536 * b[14] + 16777216 * b[15] == checksum(b.subrange(16, 6504))
            &&& k < 2048 ==> b[16 + 2 * k] + 256 * b[17 + 2 * k] == a.words[k]
            &&& k < 128 ==> b[4112 + 2 * k] + 256 * b[4113 + 2 * k] == a.monitor_words[k]
            &&& k < 300 ==> b[4368 + 2 * k] + 256 * b[4369 + 2 * k] == a.control_words[k]
            &&& k < 1536 ==> b[4968 + k] == a.legacy_coils[k]
        }),
{
    let b = raw_image(a, generation);
    let body = raw_body(a);
    let (w, m, c) = (le_bytes(a.words), le_bytes(a.monitor_words), le_bytes(a.control_words));
    assert(body.len() == 6488);
    assert(b.subrange(16, 6504) =~= body);
    crate::bytes::law_dword_of_bytes(generation);
    crate::bytes::law_dword_of_bytes(checksum(body));
    assert(le32_bytes(0x484C_4431) =~= seq![0x31u8, 0x44, 0x4C, 0x48]);
    if k < 2048 {
        lemma_words_low_first(a.words, k);
        assert(b[16 + 2 * k] == w[2 * k] && b[17 + 2 * k] == w[2 * k + 1]);
    }
    if k < 128 {
        lemma_words_low_first(a.monitor_words, k);
        assert(b[4112 + 2 * k] == m[2 * k] && b[4113 + 2 * k] == m[2 * k + 1]);
    }
    if k < 300 {
        lemma_words_low_first(a.control_words, k);
        assert(b[4368 + 2 * k] == c[2 * k] && b[4369 + 2 * k] == c[2 * k + 1]);
    }
}

/// An image is found where its mark, version, length and checksum are right. One of
/// version 1 holds the register buffer alone, and the other areas are zero.
pub proof fn law_found_image_is_unaltered(b: Seq<u8>, slot: u8, k: int)
    requires
        b.len() >= 6504,
        0 <= k,
    ensures
        ({
            let r = raw_decoded(b, slot);
            let old = b[4] == 1;
            let marked = b[0] == 0x31 && b[1] == 0x44 && b[2] == 0x4C && b[3] == 0x48 && (b[4] == 1 || b[4] == 2)
                && b[5] == 0 && b[6] == 0 && b[7] == 8;
            let sum = b[12] + 256 * b[13] + 65536 * b[14] + 16777216 * b[15];
            &&& r is Some <==> marked && sum == checksum(
                b.subrange(
                    16,
                    if old {
                        4112
                    } else {
                        6504
                    },
                ),
            )
            &&& r matches Some(i) ==> {
                &&& i.slot == slot
                &&& areas_shaped(i.areas)
                &&& i.generation == b[8] + 256 * b[9] + 65536 * b[10] + 16777216 * b[11]
                &&& k < 2048 ==> i.areas.words[k] == b[16 + 2 * k] + 256 * b[17 + 2 * k]
                &&& k < 128 ==> i.areas.monitor_words[k] == if old {
                    0
                } else {
                    b[4112 + 2 * k] + 256 * b[4113 + 2 * k]
                }
                &&& k < 300 ==> i.areas.control_words[k] == if old {
                    0
                } else {
                    b[4368 + 2 * k] + 256 * b[4369 + 2 * k]
                }
                &&& k < 1536 ==> i.areas.legacy_coils[k] == if old {
                    0
                } else {
                    b[4968 + k]
                }
            }
        }),
{
    assert(le32_at(b, 0) == 0x484C_4431 <==> b[0] == 0x31 && b[1] == 0x44 && b[2] == 0x4C && b[3] == 0x48);
    assert(le16_at(b, 4) == 1 <==> b[4] == 1 && b[5] == 0);
    assert(le16_at(b, 4) == 2 <==> b[4] == 2 && b[5] == 0);
    assert(le16_at(b, 6) == 2048 <==> b[6] == 0 && b[7] == 8);
}

/// Of two images the one whose generation is ahead by less than half the way round is
/// taken, and where there is one image only, that one.
pub proof fn law_newest_image_is_taken(a: Seq<u8>, b: Seq<u8>)
    ensures
        ({
            let (x, y) = (raw_decoded(a, 0), raw_decoded(b, 1));
            let best = best_image(Some(a), Some(b));
            &&& x is None && y is None ==> best is None
            &&& x is Some && y is None ==> best == x
            &&& x is None && y is Some ==> best == y
            &&& x is Some && y is Some ==> {
                let ahead = (y->0.generation - x->0.generation) % 0x1_0000_0000;
                &&& 0 < ahead < 0x8000_0000 ==> best == y
                &&& ahead == 0 || ahead >= 0x8000_0000 ==> best == x
            }
            &&& best_image(Some(a), None) == x
            &&& best_image(None, Some(b)) == y
        }),
{
}

/// A blob of the older kind has the register buffer from its ninth byte on, and the one
/// that is marked active comes first.
pub proof fn law_older_blob_loads(active: Option<u8>, a: Seq<u8>, b: Seq<u8>, k: int)
    requires
        0 <= k < 2048,
    ensures
        ({
            let (x, y) = (legacy_words(Some(a)), legacy_words(Some(b)));
            let r = legacy_loaded(active, Some(a), Some(b));
            &&& x is Some ==> a.len() == 4104 && x->0[k] == a[8 + 2 * k] + 256 * a[9 + 2 * k]
            &&& x is Some <==> a.len() == 4104 && a[0] == 0x42 && a[1] == 0x48 && a[2] == 1 && a[3] == 0 && a[4] + 256
                * a[5] + 65536 * a[6] + 16777216 * a[7] == checksum(a.subrange(8, 4104))
            &&& active == Some(1u8) && y is Some ==> r == y
            &&& active == Some(1u8) && y is None ==> r == x
            &&& active != Some(1u8) && x is Some ==> r == x
            &&& active != Some(1u8) && x is None ==> r == y
        }),
{
}

// ---- The protocol image ----

/// An image of the protocol store: the mark, version and length, the sum of the checksums
/// of these and of the words, and the words, low bytes first.
pub proof fn law_protocol_image_has_its_places(i: ImageView, k: int)
    requires
        i.data.len() == 1500,
        0 <= k < 1500,
    ensures
        ({
            let b = proto_blob(i);
            &&& b.len() == 3010
            &&& b[0] == 0x57 && b[1] == 0x47
            &&& b[2] + 256 * b[3] == i.version
            &&& b[4] + 256 * b[5] == i.length
            &&& b[6] + 256 * b[7] + 65536 * b[8] + 16777216 * b[9] == (checksum(b.subrange(0, 6)) + checksum(
                b.subrange(10, 3010),
            )) % 0x1_0000_0000
            &&& b[10 + 2 * k] + 256 * b[11 + 2 * k] == i.data[k]
        }),
{
    let b = proto_blob(i);
    let (head, data) = (blob_head(i), le_bytes(i.data));
    assert(b.subrange(0, 6) =~= head);
    assert(b.subrange(10, 3010) =~= data);
    crate::bytes::law_dword_of_bytes(blob_checksum(head, data));
    lemma_words_low_first(i.data, k);
    assert(b[10 + 2 * k] == data[2 * k] && b[11 + 2 * k] == data[2 * k + 1]);
}

/// A protocol image loads its words up to the length that it states; the rest is zero.
pub proof fn law_protocol_words_load_up_to_the_length(b: Seq<u8>, k: int)
    requires
        blob_decoded(Some(b)) is Some,
        0 <= k < 1500,
    ensures
        ({
            let i = blob_decoded(Some(b))->0;
            &&& b.len() == 3010
            &&& i.version == b[2] + 256 * b[3]
            &&& i.length == b[4] + 256 * b[5]
            &&& k < i.length ==> i.data[k] == b[10 + 2 * k] + 256 * b[11 + 2 * k]
            &&& k >= i.length ==> i.data[k] == 0
        }),
{
    assert(le_words(b, 10, 1500)[k] == le16_at(b, 10 + 2 * k));
}

/// The active protocol image loads: the first where the mark is 0, else the second. Where
/// it is damaged the other one loads. Without a mark, or where both are damaged, the
/// older form loads, and without that zeros.
pub proof fn law_active_protocol_image_loads(s: ProtoSources, k: int)
    requires
        0 <= k < 1500,
    ensures
        ({
            let a = blob_decoded(crate::device::holding_store::bytes_view(s.blob_a));
            let b = blob_decoded(crate::device::holding_store::bytes_view(s.blob_b));
            let old = legacy_decoded(s.legacy);
            let r = proto_loaded(s);
            let first = if s.active == Some(0u8) {
                a
            } else {
                b
            };
            let second = if s.active == Some(0u8) {
                b
            } else {
                a
            };
            &&& s.active is Some && first is Some ==> r == first->0
            &&& s.active is Some && first is None && second is Some ==> r == second->0
            &&& (s.active is None || (a is None && b is None)) && old is Some ==> r == old->0
            &&& (s.active is None || (a is None && b is None)) && old is None ==> r.version == 0 && r.length == 0
                && r.data[k] == 0
            &&& old is Some ==> s.legacy.magic == Some(0x4757u16) && s.legacy.blob is Some
        }),
{
}

/// Reading words of the protocol store gives the words that there are, and writing them
/// changes these and no others.
pub proof fn law_protocol_words(g: GatewayView, start: u16, len: u16, values: Seq<u16>, k: int)
    requires
        g.storage.snapshot is Some,
        g.storage.snapshot->0.proto.data.len() == 1500,
        0 <= k,
    ensures
        ({
            let d = g.storage.snapshot->0.proto.data;
            let r = proto_words(g, start, len);
            let w = proto_words_written(g, start, values).storage.snapshot->0.proto;
            &&& start >= 1500 ==> r.len() == 0
            &&& start < 1500 && start + len <= 1500 ==> r.len() == len
            &&& start < 1500 && start + len > 1500 ==> r.len() == 1500 - start
            &&& k < r.len() ==> r[k] == d[start + k]
            &&& k < 1500 && !(start <= k < start + values.len()) ==> w.data[k] == d[k]
            &&& k < 1500 && start <= k < start + values.len() ==> w.data[k] == values[k - start]
            &&& w.dirty
        }),
{
}

// ---- Outputs and text ----

/// The outputs are stored where they changed and a second or more has passed since they
/// were stored, the clock counting round its end.
pub proof fn law_outputs_are_stored_when_due(p: DoPersist, bits: u64, waited: u32)
    ensures
        do_due(p, bits, p.last_ms.wrapping_add(waited)) <==> waited >= 1000 && bits != p.last_bits,
{
}

/// The outputs are stored as eight bytes, low byte first.
pub proof fn law_outputs_are_stored_low_byte_first(bits: u64)
    ensures
        le64_bytes(bits).len() == 8,
        ({
            let b = le64_bytes(bits);
            b[0] + 0x100 * b[1] + 0x1_0000 * b[2] + 0x100_0000 * b[3] + 0x1_0000_0000 * (b[4] + 0x100 * b[5] + 0x1_0000
                * b[6] + 0x100_0000 * b[7])
        }) == bits,
{
    crate::bytes::law_dword_of_bytes((bits % 0x1_0000_0000) as u32);
    crate::bytes::law_dword_of_bytes((bits / 0x1_0000_0000) as u32);
}

/// A stored device text is taken where its mark is 0xDE54 and it has 4000 bytes; the
/// words have their low byte first. Else the text is zero.
pub proof fn law_stored_text_is_taken_whole(magic: Option<u16>, b: Seq<u8>, k: int)
    requires
        0 <= k < 2000,
    ensures
        text_loaded(magic, Some(b)).len() == 2000,
        text_loaded(magic, Some(b))[k] == if magic == Some(0xDE54u16) && b.len() == 4000 {
            b[2 * k] + 256 * b[2 * k + 1]
        } else {
            0
        },
{
}

// ---- Start-up ----

/// Start-up publishes what was loaded: every area whose length is right as it is, the
/// others as zeros; nothing waits to be persisted that did not before.
pub proof fn law_start_up_publishes_what_was_loaded(g: GatewayView, b: BootImage, k: int)
    requires
        0 <= k,
    ensures
        ({
            let r = booted(g, b);
            let s = r.storage.snapshot->0;
            &&& r.storage.snapshot is Some
            &&& r.storage.status == 0
            &&& s.proto.version == b.proto@.version
            &&& s.proto.length == b.proto@.length
            &&& !s.proto.dirty
            &&& k < 1500 && k < b.proto@.data.len() ==> s.proto.data[k] == b.proto@.data[k]
            &&& b.device_text@.len() == 2000 ==> s.device_text == b.device_text@
            &&& b.device_text@.len() != 2000 && k < 2000 ==> s.device_text[k] == 0
            &&& b.holding@.words.len() == 2048 ==> s.holding_buf == b.holding@.words
            &&& b.holding@.words.len() != 2048 && k < 2048 ==> s.holding_buf[k] == 0
            &&& b.holding@.monitor_words.len() == 128 ==> s.monitor_words == b.holding@.monitor_words
            &&& b.holding@.control_words.len() == 300 ==> s.control_words == b.holding@.control_words
            &&& b.holding@.legacy_coils.len() == 1536 ==> s.legacy_coils == b.holding@.legacy_coils
            &&& r.storage.holding_dirty == g.storage.holding_dirty
            &&& r.storage.text_dirty == g.storage.text_dirty
            &&& r.control == g.control
            &&& r.mailbox == g.mailbox
        }),
{
}

/// Start-up drives the stored outputs, and keeps the current ones where none were
/// stored. A hardware address stands for one that was never set. The firmware version is
/// that of the running firmware in the configuration and in the system registers.
pub proof fn law_start_up_drives_the_stored_outputs(g: GatewayView, b: BootImage)
    ensures
        ({
            let r = booted(g, b);
            let c = r.config->0;
            let unset = |m: Seq<u8>| m.len() == 6 && forall|i: int| 0 <= i < 6 ==> m[i] == 0;
            &&& b.do_bits is Some ==> r.io.do_ == b.do_bits->0 && r.do_notify
            &&& b.do_bits is None ==> r.io.do_ == g.io.do_ && r.do_notify == g.do_notify
            &&& r.io.di == g.io.di
            &&& unset(b.config@.eth_mac) ==> c.eth_mac == b.hw_eth_mac@
            &&& !unset(b.config@.eth_mac) ==> c.eth_mac == b.config@.eth_mac
            &&& unset(b.config@.ble_mac) ==> c.ble_mac == b.hw_ble_mac@
            &&& !unset(b.config@.ble_mac) ==> c.ble_mac == b.config@.ble_mac
            &&& c.fw_version == r.io.sys.firmware_version
            &&& c.ip == b.config@.ip && c.mask == b.config@.mask && c.gateway == b.config@.gateway && c.dns
                == b.config@.dns
            &&& c.sn == b.config@.sn && c.name == b.config@.name && c.ble_name == b.config@.ble_name
            &&& c.rs485 == b.config@.rs485 && c.tcp_ports == b.config@.tcp_ports && c.dhcp == b.config@.dhcp
            &&& c.cfg_version == b.config@.cfg_version && c.hw_version == b.config@.hw_version
        }),
{
    let zeros = crate::device::system_config::padded(seq![], 6);
    let c = b.config@;
    let unset = |m: Seq<u8>| m.len() == 6 && forall|i: int| 0 <= i < 6 ==> m[i] == 0;
    if unset(c.eth_mac) {
        assert(c.eth_mac =~= zeros);
    }
    if unset(c.ble_mac) {
        assert(c.ble_mac =~= zeros);
    }
    assert(zeros.len() == 6 && forall|i: int| 0 <= i < 6 ==> zeros[i] == 0);
}


// ---- Requests ----

/// An image of the registers is that of the areas of the storage.
pub proof fn law_image_is_of_the_storage(s: crate::bus::storage_state::StorageView)
    ensures
        ({
            let a = crate::device::holding_store::areas_of(s);
            &&& a.words == s.holding_buf
            &&& a.monitor_words == s.monitor_words
            &&& a.control_words == s.control_words
            &&& a.legacy_coils == s.legacy_coils
        }),
{
}

/// A save goes to the slot that is not active, the first one where none is.
pub proof fn law_save_goes_to_the_other_slot(s: SlotState)
    ensures
        s.active == 0 ==> target_slot(s) == 1,
        s.active != 0 ==> target_slot(s) == 0,
{
}

/// A save that failed leaves the registers waiting, and the coils where they waited.
pub proof fn law_failed_save_goes_on_waiting(s: StorageStateView, coils: bool)
    ensures
        save_failed(s, coils).holding_dirty,
        save_failed(s, coils).legacy_io_dirty == (s.legacy_io_dirty || coils),
        save_failed(s, coils).snapshot == s.snapshot,
        save_failed(s, coils).text_dirty == s.text_dirty,
{
}

/// A commit goes to the place that is not active, under its own name, and marks it.
pub proof fn law_commit_goes_to_the_other_place(g: GatewayView, active: Option<u8>, p: CommitPlan)
    requires
        commits(g, active, p),
        g.storage.snapshot is Some,
    ensures
        active == Some(0u8) || active is None ==> p.active == 1 && p.key@ == "proto_b"@,
        active is Some && active != Some(0u8) ==> p.active == 0 && p.key@ == "proto_a"@,
        ({
            let i = g.storage.snapshot->0.proto;
            p.blob@ == proto_blob(ImageView { data: i.data, version: i.version, length: i.length })
        }),
{
}

/// While a commit is under way the status is 1, during a reload 2; afterwards it is 0,
/// and the store no longer waits to be committed. A reload takes the words, version and
/// length of what was loaded.
pub proof fn law_store_after_commit_and_reload(g: GatewayView, i: ImageView, outcome: StoreOutcome, k: int)
    requires
        g.storage.snapshot is Some,
        0 <= k < 1500,
    ensures
        ({
            let c = commit_ended(g, outcome);
            let r = reloaded(g, i);
            let before = g.storage.snapshot->0;
            &&& taken_up(g, DeviceCmd::Commit).storage.status == 1
            &&& taken_up(g, DeviceCmd::Reload).storage.status == 2
            &&& !(outcome is Failed) ==> c.storage.status == 0 && !c.storage.snapshot->0.proto.dirty
                && c.storage.snapshot->0.proto.data == before.proto.data
            &&& outcome is Failed ==> c.storage.status == 3 && c.storage.snapshot == g.storage.snapshot
            &&& r.storage.status == 0
            &&& !r.storage.snapshot->0.proto.dirty
            &&& r.storage.snapshot->0.proto.version == i.version
            &&& r.storage.snapshot->0.proto.length == i.length
            &&& r.storage.snapshot->0.proto.data[k] == if k < i.data.len() {
                i.data[k]
            } else {
                0
            }
            &&& r.storage.snapshot->0.holding_buf == before.holding_buf
            &&& r.storage.snapshot->0.device_text == before.device_text
        }),
{
}

} // verus!

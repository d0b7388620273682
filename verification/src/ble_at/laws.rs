//! Laws of the BLE channel.

use crate::ble_at::android::{hold_words, sat_addr};
use crate::ble_at::binary::{feed_effect, frame_effect, opens_text, registers_written, FrameEffect, OutcomeView};
use crate::ble_at::frame::{ble_frame, intact, law_frame_roundtrip, total_len, whole};
use crate::ble_at::link::{connected, disconnected, next_tick, sent, text_queued, LinkView, NO_CONNECTION};
use crate::ble_at::ota_handlers::OtaInfo;
use crate::ble_at::tick::{adv_plan, adv_ticked, after_sent, next_sent, tick_effect};
use crate::bus::backends::{after_hold_read, hold_reg};
use crate::bus::laws::started;
use crate::bus::writes::{hold_written, spliced};
use crate::bytes::be16_at;
use crate::config::regs;
use crate::gateway::GatewayView;
use vstd::prelude::*;
use vstd::utf8::encode_utf8;

verus! {

/// A frame that arrives in two pieces does what it does in one piece.
pub proof fn law_frame_in_pieces(l: LinkView, g: GatewayView, a: Seq<u8>, b: Seq<u8>, mac: Seq<u8>, now: u64)
    requires
        l.rx.len() == 0,
        total_len(a + b) == Some((a + b).len() as int),
        a.len() > 0,
        b.len() > 0,
        !opens_text(a),
        !opens_text(a + b),
    ensures
        ({
            let first = feed_effect(l, g, a, mac, now);
            &&& first.out is Done
            &&& first.g == g
            &&& first.l == (LinkView { rx: a, ..l })
            &&& feed_effect(first.l, g, b, mac, now) == feed_effect(l, g, a + b, mac, now)
        }),
{
    assert(l.rx + a =~= a);
    assert(l.rx + (a + b) =~= a + b);
    if a.len() >= 6 {
        assert(be16_at(a, 4) == be16_at(a + b, 4));
    }
    let first = feed_effect(l, g, a, mac, now);
    assert(first.l =~= (LinkView { rx: a, ..l }));
    assert((LinkView { rx: Seq::<u8>::empty(), ..first.l }) =~= (LinkView { rx: Seq::<u8>::empty(), ..l }));
}

/// A frame that was made and arrives whole is carried out, and nothing of it remains.
pub proof fn law_whole_frame_is_carried_out(
    l: LinkView,
    g: GatewayView,
    tx_id: u16,
    proto_id: u16,
    pdu: Seq<u8>,
    mac: Seq<u8>,
    now: u64,
)
    requires
        l.rx.len() == 0,
        2 <= pdu.len() <= 504,
        !opens_text(ble_frame(tx_id, proto_id, pdu)),
    ensures
        feed_effect(l, g, ble_frame(tx_id, proto_id, pdu), mac, now) == frame_effect(
            l,
            g,
            ble_frame(tx_id, proto_id, pdu),
            mac,
            now,
        ),
{
    law_frame_roundtrip(tx_id, proto_id, pdu);
    let f = ble_frame(tx_id, proto_id, pdu);
    assert(l.rx + f =~= f);
    assert((LinkView { rx: Seq::<u8>::empty(), ..l }) =~= l);
}

/// A frame whose checksum is wrong changes nothing and is not answered.
pub proof fn law_damaged_frame_changes_nothing(l: LinkView, g: GatewayView, data: Seq<u8>, mac: Seq<u8>, now: u64)
    requires
        whole(data),
        !intact(data),
    ensures
        frame_effect(l, g, data, mac, now) == (FrameEffect { l, g, out: OutcomeView::Done }),
{
}

/// Text is left to the text channel: it changes neither the frame that is being
/// received nor the shared state.
pub proof fn law_text_is_no_frame(l: LinkView, g: GatewayView, data: Seq<u8>, mac: Seq<u8>, now: u64)
    requires
        l.rx.len() == 0,
        opens_text(data),
    ensures
        feed_effect(l, g, data, mac, now) == (FrameEffect { l, g, out: OutcomeView::Ignored }),
{
}

/// The send queue never holds more than 2048 bytes, and what is in it stays in it, in
/// order. A frame is in it as a whole or not at all; in the latter case it is counted.
pub proof fn law_send_queue(l: LinkView, g: GatewayView, tx_id: u16, proto_id: u16, pdu: Seq<u8>, now: u64)
    requires
        l.tx.len() <= 2048,
    ensures
        ({
            let b = sent(l, g, tx_id, proto_id, pdu, now);
            &&& b.l.tx.len() <= 2048
            &&& b.l.tx == l.tx + ble_frame(tx_id, proto_id, pdu) && b.g == g || b.l == l && b.g.ble_tx_drops == next_tick(
                g.ble_tx_drops,
            )
        }),
{
    reveal(sent);
}

/// An answer to a text command is queued as one whole frame, or dropped as a whole.
pub proof fn law_answer_is_queued_whole(l: LinkView, text: Seq<char>)
    requires
        l.tx.len() <= 2048,
    ensures
        ({
            let m = text_queued(l, text);
            &&& m == l || m == (LinkView { tx: l.tx + ble_frame(0, 0, encode_utf8(text)), ..l })
            &&& m.tx.len() <= 2048
            &&& 2 <= encode_utf8(text).len() && m != l ==> whole(ble_frame(0, 0, encode_utf8(text))) && intact(
                ble_frame(0, 0, encode_utf8(text)),
            )
        }),
{
    if 2 <= encode_utf8(text).len() <= 504 {
        law_frame_roundtrip(0, 0, encode_utf8(text));
    }
}

/// A client that connects after another one left gets nothing that waited for the
/// other.
pub proof fn law_new_client_starts_clean(l: LinkView, gatts_if: u8, conn_id: u16)
    ensures
        ({
            let n = connected(disconnected(l), gatts_if, conn_id);
            &&& n.tx == ble_frame(0, 0, crate::ble_at::link::beat_pdu(l.connect_beats))
            &&& n.line.len() == 0
            &&& n.text.len() == 0
            &&& !n.notify_enabled
        }),
{
    let f = ble_frame(0, 0, crate::ble_at::link::beat_pdu(l.connect_beats));
    assert(Seq::<u8>::empty() + f =~= f);
    assert(f.len() == 12);
}

/// What is queued goes out as a whole before any heartbeat does.
pub proof fn law_queue_goes_first(l: LinkView)
    requires
        l.tx.len() > 0,
    ensures
        next_sent(l) == Some(l.tx),
        after_sent(l).tx.len() == 0,
        after_sent(l).beat_div == l.beat_div,
        after_sent(l).beat_seq == l.beat_seq,
{
}

/// Without a client nothing that was received is carried out and nothing is sent.
pub proof fn law_nothing_happens_without_a_client(l: LinkView, g: GatewayView, ota: OtaInfo)
    requires
        l.conn_id == NO_CONNECTION,
    ensures
        tick_effect(l, g, ota).plan.notify is None,
        tick_effect(l, g, ota).plan.request is None,
        tick_effect(l, g, ota).l.line == l.line,
        tick_effect(l, g, ota).l.tx == l.tx,
        tick_effect(l, g, ota).g == (GatewayView { ble_name_pending: false, ..g }),
{
}

/// With a client, ticks leave advertising alone.
pub proof fn law_advertising_rests_with_a_client(l: LinkView)
    requires
        l.conn_id != NO_CONNECTION,
    ensures
        !adv_plan(l).stop,
        !adv_plan(l).configure,
        adv_ticked(l) == l,
{
}

/// The link after `k` ticks, as far as advertising goes.
pub open spec fn adv_after(l: LinkView, k: nat) -> LinkView
    decreases k,
{
    if k == 0 {
        l
    } else {
        adv_ticked(adv_after(l, (k - 1) as nat))
    }
}

proof fn lemma_ticks(l: LinkView, k: nat)
    requires
        l.svc_started,
        l.conn_id == NO_CONNECTION,
        !l.adv_active,
        l.tick_div + k <= 0xFFFF_FFFF,
    ensures
        adv_after(l, k) == (LinkView { tick_div: (l.tick_div + k) as u32, ..l }),
    decreases k,
{
    if k > 0 {
        lemma_ticks(l, (k - 1) as nat);
    }
}

/// While the service runs, no client is connected and advertising is off, it is
/// configured within 50 ticks.
pub proof fn law_advertising_is_retried(l: LinkView)
    requires
        l.svc_started,
        l.conn_id == NO_CONNECTION,
        !l.adv_active,
    ensures
        exists|k: nat| k < 50 && (#[trigger] adv_plan(adv_after(l, k))).configure,
{
    let rest: nat = ((50 - l.tick_div % 50) % 50) as nat;
    if l.tick_div + rest <= 0xFFFF_FFFF {
        lemma_ticks(l, rest);
        assert((l.tick_div + rest) % 50 == 0);
        assert(adv_plan(adv_after(l, rest)).configure);
    } else {
        let k: nat = (0xFFFF_FFFF - l.tick_div) as nat;
        lemma_ticks(l, k);
        assert(adv_after(l, k + 1) == adv_ticked(adv_after(l, k)));
        assert(adv_after(l, k + 1).tick_div == 0);
        assert(k + 1 < 50);
        assert(adv_plan(adv_after(l, k + 1)).configure);
    }
}

// ---- Device text ----

/// Whether a run of registers lies in the device text.
pub open spec fn in_text(addr: u16, n: int) -> bool {
    regs::DEVICE_TEXT_BASE <= addr && addr + n <= regs::DEVICE_TEXT_END + 1
}

proof fn lemma_text_written(g: GatewayView, addr: u16, values: Seq<u16>, n: nat)
    requires
        started(g),
        in_text(addr, values.len() as int),
        n <= values.len(),
    ensures
        ({
            let w = registers_written(g, addr, values, n);
            &&& w.ok
            &&& started(w.g)
            &&& w.g.storage.snapshot->0.device_text == spliced(
                g.storage.snapshot->0.device_text,
                addr - regs::DEVICE_TEXT_BASE,
                values.take(n as int),
            )
        }),
    decreases n,
{
    reveal(registers_written);
    let at = addr - regs::DEVICE_TEXT_BASE;
    let text = g.storage.snapshot->0.device_text;
    if n > 0 {
        lemma_text_written(g, addr, values, (n - 1) as nat);
        let before = registers_written(g, addr, values, (n - 1) as nat);
        let a = sat_addr(addr, n - 1);
        assert(a == addr + (n - 1));
        assert(hold_written(before.g, a, values[n - 1]).g.storage.snapshot->0.device_text == spliced(
            text,
            at,
            values.take(n - 1),
        ).update(at + n - 1, values[n - 1]));
        assert(spliced(text, at, values.take(n - 1)).update(at + n - 1, values[n - 1]) =~= spliced(
            text,
            at,
            values.take(n as int),
        ));
    } else {
        assert(spliced(text, at, values.take(0)) =~= text);
    }
}

proof fn lemma_text_read(g: GatewayView, addr: u16, n: nat)
    requires
        started(g),
        in_text(addr, n as int),
    ensures
        hold_words(g, addr, n).g == g,
        hold_words(g, addr, n).words == g.storage.snapshot->0.device_text.subrange(
            addr - regs::DEVICE_TEXT_BASE,
            addr - regs::DEVICE_TEXT_BASE + n,
        ),
    decreases n,
{
    reveal(hold_words);
    let at = addr - regs::DEVICE_TEXT_BASE;
    let text = g.storage.snapshot->0.device_text;
    if n > 0 {
        lemma_text_read(g, addr, (n - 1) as nat);
        let a = sat_addr(addr, n - 1);
        assert(a == addr + (n - 1));
        assert(hold_reg(g, a) == Some(text[at + n - 1]));
        assert(after_hold_read(g, a) == g);
        assert(text.subrange(at, at + n - 1).push(text[at + n - 1]) =~= text.subrange(at, at + n as int));
    } else {
        assert(text.subrange(at, at + 0) =~= Seq::empty());
    }
}

/// Device text that the handheld writes is accepted, and it reads back as it was
/// written.
pub proof fn law_handheld_text_reads_back(g: GatewayView, addr: u16, values: Seq<u16>)
    requires
        started(g),
        in_text(addr, values.len() as int),
    ensures
        registers_written(g, addr, values, values.len()).ok,
        hold_words(registers_written(g, addr, values, values.len()).g, addr, values.len()).words == values,
{
    let n = values.len();
    let w = registers_written(g, addr, values, n);
    let at = addr - regs::DEVICE_TEXT_BASE;
    lemma_text_written(g, addr, values, n);
    lemma_text_read(w.g, addr, n);
    assert(values.take(n as int) =~= values);
    assert(w.g.storage.snapshot->0.device_text.subrange(at, at + n as int) =~= values);
}

} // verus!

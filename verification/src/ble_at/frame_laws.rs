//! Laws of frames, of what they ask for, and of what is sent.

use crate::bits::{bit, packed_bit};
use crate::ble_at::android::{
    android_read, baud_index, ble_id_of, hold_words, input_words, point_byte, point_bytes, point_on, port_data,
    widened,
};
use crate::ble_at::binary::{feed_effect, frame_effect, modbus_pdu, OutcomeView};
use crate::ble_at::frame::{ble_frame, frame_body, intact, total_len, whole};
use crate::ble_at::link::{connected, disconnected, sent, target_of, LinkView};
use crate::ble_at::tick::{adv_plan, adv_ticked, after_sent, next_sent, write_effect};
use crate::bus::backends::{coil, hold_reg, input_reg, settled};
use crate::bytes::be_bytes;
use crate::gateway::GatewayView;
use crate::modbus::shared::{crc16, law_checksum_of_a_whole_frame_is_zero};
use crate::text::until_zero;
use vstd::prelude::*;
use vstd::utf8::{decode_utf8_encode_utf8, valid_utf8};

verus! {

// ---- Frames ----

/// A frame: transaction, protocol and length, high byte first, the payload, and the
/// checksum of all before it, low byte first. The checksum of the whole is zero.
pub proof fn law_frame_has_its_places(tx_id: u16, proto_id: u16, pdu: Seq<u8>, k: int)
    requires
        pdu.len() <= 504,
        0 <= k < pdu.len(),
    ensures
        ({
            let f = ble_frame(tx_id, proto_id, pdu);
            let n = pdu.len() as int;
            &&& f.len() == n + 8
            &&& 256 * f[0] + f[1] == tx_id
            &&& 256 * f[2] + f[3] == proto_id
            &&& 256 * f[4] + f[5] == n
            &&& f[6 + k] == pdu[k]
            &&& f[n + 6] + 256 * f[n + 7] == crc16(f.take(n + 6))
            &&& crc16(f) == 0
        }),
{
    let f = ble_frame(tx_id, proto_id, pdu);
    let n = pdu.len() as int;
    let body = frame_body(tx_id, proto_id, pdu);
    assert(f.take(n + 6) =~= body);
    law_checksum_of_a_whole_frame_is_zero(body);
    assert(f =~= body.push((crc16(body) % 256) as u8).push((crc16(body) / 256) as u8));
}

/// A frame is complete with eight bytes more than its length field says; the length is 2
/// to 504.
pub proof fn law_length_field_tells_the_length(data: Seq<u8>)
    requires
        data.len() >= 6,
    ensures
        ({
            let n = 256 * data[4] + data[5];
            &&& total_len(data) is Some <==> 2 <= n <= 504
            &&& total_len(data) is Some ==> total_len(data)->0 == n + 8
            &&& whole(data) <==> 2 <= n && data.len() >= n + 8
            &&& whole(data) ==> (intact(data) <==> data[n + 6] + 256 * data[n + 7] == crc16(data.take(n + 6)))
        }),
{
}

/// Received bytes are put together until they are as many as the length field says.
/// Bytes that would be more than that or more than 512, or that state another length,
/// are dropped.
pub proof fn law_bytes_are_put_together(l: LinkView, g: GatewayView, data: Seq<u8>, mac: Seq<u8>, now: u64)
    requires
        l.rx.len() > 0,
    ensures
        ({
            let all = l.rx + data;
            let n = 256 * all[4] + all[5] + 8;
            let e = feed_effect(l, g, data, mac, now);
            let dropped = LinkView { rx: Seq::empty(), ..l };
            &&& all.len() < 6 ==> e.l == (LinkView { rx: all, ..l }) && e.g == g && e.out is Done
            &&& 6 <= all.len() <= 512 && 10 <= n <= 512 && all.len() < n ==> e.l == (LinkView { rx: all, ..l }) && e.g
                == g && e.out is Done
            &&& 6 <= all.len() <= 512 && 10 <= n <= 512 && all.len() == n ==> e == frame_effect(dropped, g, all, mac, now)
            &&& all.len() > 512 || (all.len() >= 6 && (n < 10 || n > 512 || all.len() > n)) ==> e.l == dropped && e.g == g
                && e.out is Done
        }),
{
}

// ---- Sending ----

/// A frame that fits into the 2048 bytes of the send queue is added to it. One that does
/// not is counted, and the first of every ten is a light fault.
pub proof fn law_frame_is_queued_or_counted(
    l: LinkView,
    g: GatewayView,
    tx_id: u16,
    proto_id: u16,
    pdu: Seq<u8>,
    now: u64,
)
    requires
        g.ble_tx_drops < 0xFFFF_FFFF,
        g.recovery.recoverable < 0xFFFF_FFFF,
    ensures
        ({
            let b = sent(l, g, tx_id, proto_id, pdu, now);
            &&& l.tx.len() + pdu.len() + 8 <= 2048 ==> b.g == g && b.l == (LinkView {
                tx: l.tx + ble_frame(tx_id, proto_id, pdu),
                ..l
            })
            &&& l.tx.len() + pdu.len() + 8 > 2048 ==> b.l == l && b.g.ble_tx_drops == g.ble_tx_drops + 1
                && b.g.recovery.recoverable == g.recovery.recoverable + (if g.ble_tx_drops % 10 == 0 {
                1int
            } else {
                0
            })
        }),
{
    reveal(sent);
}

/// With nothing queued, the first and every hundredth time a heartbeat goes out with its
/// number.
pub proof fn law_heartbeat_every_hundredth_time(l: LinkView)
    requires
        l.tx.len() == 0,
        l.beat_seq < 0xFFFF,
        l.beat_div < 0xFFFF,
    ensures
        l.beat_div % 100 != 0 ==> next_sent(l) is None && after_sent(l).beat_seq == l.beat_seq,
        l.beat_div % 100 == 0 ==> next_sent(l) == Some(
            ble_frame(0, 0, seq![1u8, 0x11, (l.beat_seq / 256) as u8, (l.beat_seq % 256) as u8]),
        ) && after_sent(l).beat_seq == l.beat_seq + 1,
        after_sent(l).beat_div == l.beat_div + 1,
{
}

/// A client that connects is sent a heartbeat with the number of connections so far; one
/// that leaves takes the queue and the text with it.
pub proof fn law_connection_is_greeted(l: LinkView, gatts_if: u8, conn_id: u16)
    requires
        l.tx.len() <= 2036,
        l.connect_beats < 0xFFFF,
    ensures
        ({
            let c = connected(l, gatts_if, conn_id);
            let d = disconnected(l);
            &&& c.gatts_if == gatts_if
            &&& c.conn_id == conn_id
            &&& c.pending_notify
            &&& c.connect_beats == l.connect_beats + 1
            &&& c.tx == l.tx + ble_frame(
                0,
                0,
                seq![1u8, 0x11, (l.connect_beats / 256) as u8, (l.connect_beats % 256) as u8],
            )
            &&& d.conn_id == 0xFFFF && !d.notify_enabled && d.tx.len() == 0 && d.line.len() == 0 && d.text.len() == 0
            &&& target_of(d) is None
        }),
{
}

/// Notifications go to the client once there is an interface, a connection and a handle
/// of the value, the third of the table.
pub proof fn law_notifications_have_a_target(l: LinkView)
    requires
        l.handles.len() == 4,
    ensures
        target_of(l) is Some <==> l.conn_id != 0xFFFF && l.gatts_if != 0xFF && l.handles[2] != 0,
        target_of(l) matches Some(t) ==> t.gatts_if == l.gatts_if && t.conn_id == l.conn_id && t.handle == l.handles[2],
{
}

/// Without a client a running service stops advertising at every 150th tick, and
/// configures it at every 50th while it is off.
pub proof fn law_advertising_ticks(l: LinkView)
    requires
        l.svc_started,
        l.conn_id == 0xFFFF,
        l.tick_div < 0xFFFF_FFFF,
    ensures
        adv_plan(l).stop <==> l.adv_active && l.tick_div % 150 == 0,
        adv_plan(l).configure <==> l.tick_div % 50 == 0 && (!l.adv_active || l.tick_div % 150 == 0),
        adv_ticked(l).tick_div == l.tick_div + 1,
        adv_ticked(l).adv_active <==> l.adv_active && l.tick_div % 150 != 0,
{
}

/// Two bytes written to the last attribute switch notifications by their lowest bit. A
/// write that wants an answer gets one while there is an interface.
pub proof fn law_notification_switch(
    l: LinkView,
    g: GatewayView,
    need_rsp: bool,
    data: Seq<u8>,
    mac: Seq<u8>,
    now: u64,
)
    requires
        l.handles.len() == 4,
        data.len() == 2,
    ensures
        ({
            let e = write_effect(l, g, l.handles[3], need_rsp, data, mac, now);
            &&& e.l == (LinkView { notify_enabled: data[0] % 2 == 1, ..l })
            &&& e.g == g
            &&& e.respond <==> need_rsp && l.gatts_if != 0xFF
            &&& e.out is Done
        }),
{
}

// ---- Read commands ----

proof fn lemma_words_high_first(words: Seq<u16>, k: int)
    requires
        0 <= k < words.len(),
    ensures
        256 * be_bytes(words)[2 * k] + be_bytes(words)[2 * k + 1] == words[k],
{
    assert((2 * k) / 2 == k && (2 * k + 1) / 2 == k && (2 * k) % 2 == 0 && (2 * k + 1) % 2 == 1);
}

proof fn lemma_widened(b: Seq<u8>, k: int)
    requires
        0 <= k < b.len(),
    ensures
        widened(b)[2 * k] == 0,
        widened(b)[2 * k + 1] == b[k],
{
    assert((2 * k) / 2 == k && (2 * k + 1) / 2 == k && (2 * k) % 2 == 0 && (2 * k + 1) % 2 == 1);
}

/// The board and version blocks of the handheld.
pub proof fn law_handheld_reads_versions(g: GatewayView, func: u8)
    requires
        func == 3 || func == 4,
        g.config is Some,
    ensures
        ({
            let c = g.config->0;
            let board = android_read(g, func, 0x087C, 2);
            let fw = android_read(g, func, 0x087E, 2);
            let hw = android_read(g, func, 0x08A5, 1);
            &&& board is Some && fw is Some && hw is Some
            &&& board->0.g == g && fw->0.g == g && hw->0.g == g
            &&& board->0.data == seq![16u8, 16, 4, 2]
            &&& fw->0.data.len() == 4
            &&& 256 * fw->0.data[0] + fw->0.data[1] == c.fw_version
            &&& 256 * fw->0.data[2] + fw->0.data[3] == c.fw_date
            &&& hw->0.data.len() == 2
            &&& 256 * hw->0.data[0] + hw->0.data[1] == c.hw_version
        }),
{
    let board = android_read(g, func, 0x087C, 2);
    assert(board->0.data =~= seq![16u8, 16, 4, 2]);
}

/// The network blocks of the handheld: each byte of address, mask and gateway, and of the
/// MAC address, as a word of its own.
pub proof fn law_handheld_reads_the_network(g: GatewayView, func: u8, k: int)
    requires
        func == 3 || func == 4,
        g.config is Some,
        g.config->0.shaped(),
        0 <= k < 6,
    ensures
        ({
            let c = g.config->0;
            let net = android_read(g, func, 0x08C7, 12);
            let mac = android_read(g, func, 0x08D7, 6);
            &&& net is Some && mac is Some
            &&& net->0.g == g && mac->0.g == g
            &&& net->0.data.len() == 24
            &&& mac->0.data.len() == 12
            &&& k < 4 ==> net->0.data[2 * k] == 0 && net->0.data[2 * k + 1] == c.ip[k]
            &&& k < 4 ==> net->0.data[8 + 2 * k] == 0 && net->0.data[9 + 2 * k] == c.mask[k]
            &&& k < 4 ==> net->0.data[16 + 2 * k] == 0 && net->0.data[17 + 2 * k] == c.gateway[k]
            &&& mac->0.data[2 * k] == 0 && mac->0.data[2 * k + 1] == c.eth_mac[k]
        }),
{
    let c = g.config->0;
    let net = android_read(g, func, 0x08C7, 12)->0.data;
    if k < 4 {
        lemma_widened(c.ip, k);
        lemma_widened(c.mask, k);
        lemma_widened(c.gateway, k);
        assert(net[8 + 2 * k] == widened(c.mask)[2 * k] && net[9 + 2 * k] == widened(c.mask)[2 * k + 1]);
        assert(net[16 + 2 * k] == widened(c.gateway)[2 * k] && net[17 + 2 * k] == widened(c.gateway)[2 * k + 1]);
    }
    lemma_widened(c.eth_mac, k);
}

/// The bytes of a field up to its first zero.
pub proof fn law_text_ends_at_its_first_zero(b: Seq<u8>, k: int)
    requires
        0 <= k,
    ensures
        until_zero(b).len() <= b.len(),
        k < until_zero(b).len() ==> until_zero(b)[k] == b[k] && b[k] != 0,
        until_zero(b).len() < b.len() ==> b[until_zero(b).len() as int] == 0,
    decreases b.len(),
{
    if b.len() > 0 && b[0] != 0 {
        if k > 0 {
            law_text_ends_at_its_first_zero(b.drop_first(), k - 1);
        } else {
            law_text_ends_at_its_first_zero(b.drop_first(), 0);
        }
    }
}

/// The name blocks of the handheld: serial number and place name up to their first zero,
/// where they are valid text, and the first four bytes of the BLE name.
pub proof fn law_handheld_reads_names(g: GatewayView, func: u8, k: int)
    requires
        func == 3 || func == 4,
        g.config is Some,
        g.config->0.shaped(),
        0 <= k < 4,
    ensures
        ({
            let c = g.config->0;
            let sn = android_read(g, func, 0x0894, 9);
            let name = android_read(g, func, 0x089D, 8);
            let id = android_read(g, func, 0x08E2, 4);
            &&& sn is Some && name is Some && id is Some
            &&& valid_utf8(until_zero(c.sn)) ==> sn->0.data == until_zero(c.sn)
            &&& valid_utf8(until_zero(c.name)) ==> name->0.data == until_zero(c.name)
            &&& id->0.data.len() == 4
            &&& id->0.data[k] == if k < until_zero(c.ble_name).len() {
                c.ble_name[k]
            } else {
                0
            }
        }),
{
    let c = g.config->0;
    law_text_ends_at_its_first_zero(c.sn, 0);
    law_text_ends_at_its_first_zero(c.name, 0);
    law_text_ends_at_its_first_zero(c.ble_name, k);
    if valid_utf8(until_zero(c.sn)) {
        decode_utf8_encode_utf8(until_zero(c.sn));
    }
    if valid_utf8(until_zero(c.name)) {
        decode_utf8_encode_utf8(until_zero(c.name));
    }
    assert(android_read(g, func, 0x08E2, 4)->0.data == ble_id_of(c));
}

/// The baud rates of the handheld's codes, from 0 on.
pub open spec fn handheld_rates() -> Seq<u32> {
    seq![1200, 2400, 4800, 9600, 19200, 38400, 57600, 115200, 230400, 460800, 921600]
}

/// The port blocks of the handheld, at 0x08A6, 0x08AB and 0x08B0: the line in one byte,
/// with the code of its rate highest and 3 for a rate without a code, the mode, and four
/// words.
pub proof fn law_handheld_reads_ports(g: GatewayView, func: u8, i: int, addr: u16, code: int)
    requires
        func == 3 || func == 4,
        g.config is Some,
        g.config->0.shaped(),
        0 <= i < 3,
        addr == 0x08A6 + 5 * i,
        0 <= code <= 10,
        g.config->0.rs485[i].parity < 4,
        g.config->0.rs485[i].baudrate == handheld_rates()[code] || (code == 3 && !handheld_rates().contains(
            g.config->0.rs485[i].baudrate,
        )),
    ensures
        ({
            let p = g.config->0.rs485[i];
            let r = android_read(g, func, addr, 5);
            let d = r->0.data;
            &&& r is Some
            &&& r->0.g == g
            &&& d.len() == 10
            &&& d[0] == 16 * code + 4 * p.parity + (if p.stop_bits >= 2 {
                2int
            } else {
                0
            }) + (if p.data_bits == 7 {
                1int
            } else {
                0
            })
            &&& d[1] == p.mode
            &&& d[2] == 0
            &&& d[3] == p.slave_addr
            &&& 256 * d[4] + d[5] == p.retry_count
            &&& 256 * d[6] + d[7] == p.timeout_ms
            &&& 256 * d[8] + d[9] == p.interval_ms
        }),
{
    let p = g.config->0.rs485[i];
    assert((addr - 0x08A6) / 5 == i) by {
        assert(5 * i / 5 == i);
    }
    assert(addr == 0x08A6 || addr == 0x08AB || addr == 0x08B0);
    let s = handheld_rates();
    if p.baudrate == s[code] {
        assert(baud_index(p.baudrate) == code);
    } else {
        assert forall|k: int| 0 <= k < 11 implies s[k] != p.baudrate by {
            assert(s.contains(s[k]));
        }
        assert(s[0] == 1200 && s[1] == 2400 && s[2] == 4800 && s[3] == 9600 && s[4] == 19200 && s[5] == 38400);
        assert(s[6] == 57600 && s[7] == 115200 && s[8] == 230400 && s[9] == 460800 && s[10] == 921600);
        assert(baud_index(p.baudrate) == 3);
    }
    assert(android_read(g, func, addr, 5)->0.data == port_data(p));
}

/// Only functions 3 and 4 are read commands, and there are none without a configuration.
pub proof fn law_other_functions_are_no_reads(g: GatewayView, func: u8, addr: u16, cnt: u16)
    requires
        func != 3 && func != 4 || g.config is None,
    ensures
        android_read(g, func, addr, cnt) is None,
{
}

proof fn lemma_settled_reads(g: GatewayView, addr: u16, n: nat)
    requires
        settled(g),
        addr + n <= 0x1_0000,
    ensures
        input_words(g, addr, n).g == g,
        input_words(g, addr, n).words.len() == n,
        forall|k: int|
            0 <= k < n ==> #[trigger] input_words(g, addr, n).words[k] == match input_reg(g, (addr + k) as u16) {
                Some(v) => v,
                None => 0,
            },
        hold_words(g, addr, n).g == g,
        hold_words(g, addr, n).words.len() == n,
        forall|k: int|
            0 <= k < n ==> #[trigger] hold_words(g, addr, n).words[k] == match hold_reg(g, (addr + k) as u16) {
                Some(v) => v,
                None => 0,
            },
    decreases n,
{
    reveal(input_words);
    reveal(hold_words);
    if n > 0 {
        lemma_settled_reads(g, addr, (n - 1) as nat);
        let a = (addr + (n - 1)) as u16;
        crate::bus::backends::law_reads_repeat(g, a);
    }
}

/// The other reads give registers as words: with function 4 input registers, with
/// function 3 holding registers, 125 at most, and at 128 up to four analogue inputs with
/// either. A register that does not exist is zero.
pub proof fn law_handheld_reads_registers(g: GatewayView, func: u8, addr: u16, cnt: u16, k: int)
    requires
        settled(g),
        g.config is Some,
        func == 3 || func == 4,
        0 < addr < 0x0878,
        addr != 0x0200,
        0 <= k < cnt,
        k < 125,
        addr == 0x0080 ==> k < 4,
    ensures
        ({
            let r = android_read(g, func, addr, cnt);
            let d = r->0.data;
            let top = if addr == 0x0080 {
                4int
            } else {
                125
            };
            let shown = if func == 4 || addr == 0x0080 {
                input_reg(g, (addr + k) as u16)
            } else {
                hold_reg(g, (addr + k) as u16)
            };
            &&& r is Some
            &&& r->0.g == g
            &&& d.len() == 2 * (if cnt < top {
                cnt as int
            } else {
                top
            })
            &&& 256 * d[2 * k] + d[2 * k + 1] == match shown {
                Some(v) => v,
                None => 0,
            }
        }),
{
    let top = if addr == 0x0080 {
        4int
    } else {
        125
    };
    let n = if cnt < top {
        cnt as nat
    } else {
        top as nat
    };
    lemma_settled_reads(g, addr, n);
    lemma_words_high_first(input_words(g, addr, n).words, k);
    lemma_words_high_first(hold_words(g, addr, n).words, k);
}

proof fn lemma_point_byte(g: GatewayView, addr: int, left: int, n: nat, j: int)
    requires
        n <= 8,
        0 <= j < 8,
    ensures
        bit(point_byte(g, addr, left, n) as u64, j) <==> j < n && j < left && point_on(g, addr + j),
    decreases n,
{
    let y = j as u64;
    if n == 0 {
        assert((0u64 >> y) & 1 == 0) by (bit_vector);
    } else {
        lemma_point_byte(g, addr, left, (n - 1) as nat, j);
        let before = point_byte(g, addr, left, (n - 1) as nat);
        let x = (n - 1) as u8;
        let both = before | (1u8 << x);
        assert(((both as u64) >> y) & 1 == 1 <==> ((before as u64) >> y) & 1 == 1 || y == x as u64) by (bit_vector)
            requires
                both == before | (1u8 << x),
                x < 8,
                y < 8,
        ;
    }
}

/// Reads at 0 and 512 give points, eight a byte, the first in the lowest bit: as many as
/// are asked for, 2000 at most. The bits behind them are zero.
pub proof fn law_handheld_reads_points(g: GatewayView, func: u8, addr: u16, cnt: u16, i: int)
    requires
        g.config is Some,
        func == 3 || func == 4,
        addr == 0 || addr == 512,
        0 <= i,
    ensures
        ({
            let r = android_read(g, func, addr, cnt);
            let d = r->0.data;
            let n = if cnt < 2000 {
                cnt as int
            } else {
                2000
            };
            &&& r is Some
            &&& r->0.g == g
            &&& 8 * d.len() >= n > 8 * (d.len() - 1)
            &&& i < n ==> (packed_bit(d, i) <==> coil(g, (addr + i) as u16) == Some(true))
            &&& n <= i < 8 * d.len() ==> !packed_bit(d, i)
        }),
{
    reveal(point_bytes);
    let d = android_read(g, func, addr, cnt)->0.data;
    let n = if cnt < 2000 {
        cnt as int
    } else {
        2000
    };
    assert(d == point_bytes(g, addr as int, n));
    if i < 8 * d.len() {
        let k = i / 8;
        assert(d[k] == point_byte(g, addr + 8 * k, n - 8 * k, 8));
        lemma_point_byte(g, addr + 8 * k, n - 8 * k, 8, i % 8);
        assert(8 * k + i % 8 == i);
    }
}

// ---- Commands ----

/// Whether a byte string is a whole frame with a right checksum and function.
pub open spec fn asks(data: Seq<u8>, func: u8) -> bool {
    whole(data) && intact(data) && data[7] == func
}

/// The link after a frame was answered with a payload, where there is room.
pub open spec fn replied(l: LinkView, data: Seq<u8>, pdu: Seq<u8>) -> LinkView {
    LinkView {
        tx: l.tx + ble_frame((256 * data[0] + data[1]) as u16, (256 * data[2] + data[3]) as u16, pdu),
        ..l
    }
}

/// A heartbeat is answered under its own numbers with the unit, that the device runs, and
/// its BLE address, and is counted.
pub proof fn law_heartbeat_is_answered(l: LinkView, g: GatewayView, data: Seq<u8>, mac: Seq<u8>, now: u64)
    requires
        asks(data, 0x11),
        mac.len() == 6,
        l.tx.len() <= 1500,
        l.beats < 0xFFFF,
    ensures
        ({
            let e = frame_effect(l, g, data, mac, now);
            &&& e.out is Done
            &&& e.g == g
            &&& e.l == (LinkView {
                beats: (l.beats + 1) as u16,
                ..replied(l, data, seq![data[6], 0x11u8, data[6], 1] + mac)
            })
        }),
{
    reveal(sent);
}

/// The number of functions, register 0x08FC, is read with 0xB0.
pub proof fn law_function_count_is_read(l: LinkView, g: GatewayView, data: Seq<u8>, mac: Seq<u8>, now: u64)
    requires
        asks(data, 0xB0),
        settled(g),
        l.tx.len() <= 1500,
    ensures
        ({
            let e = frame_effect(l, g, data, mac, now);
            let v = match hold_reg(g, 0x08FC) {
                Some(v) => v,
                None => 0,
            };
            &&& e.out is Done
            &&& e.g == g
            &&& e.l == replied(l, data, seq![data[6], 0xB0u8, (v / 256) as u8, (v % 256) as u8])
        }),
{
    reveal(sent);
    lemma_settled_reads(g, 0x08FC, 1);
    let v = match hold_reg(g, 0x08FC) {
        Some(v) => v,
        None => 0,
    };
    let r = hold_words(g, 0x08FC, 1);
    assert(r.words[0] == v);
    assert(seq![data[6], 0xB0u8] + be_bytes(r.words) =~= seq![data[6], 0xB0u8, (v / 256) as u8, (v % 256) as u8]);
}

/// 0xB1 writes the two bytes behind the function to register 0x08FC, and is answered
/// without data.
pub proof fn law_function_count_is_written(l: LinkView, g: GatewayView, data: Seq<u8>, mac: Seq<u8>, now: u64)
    requires
        asks(data, 0xB1),
        l.tx.len() <= 1500,
    ensures
        ({
            let e = frame_effect(l, g, data, mac, now);
            &&& e.out is Done
            &&& e.g == crate::bus::writes::hold_written(g, 0x08FC, (256 * data[8] + data[9]) as u16).g
            &&& e.l == replied(l, data, seq![data[6], 0xB1u8])
        }),
{
    reveal(sent);
    reveal(crate::ble_at::binary::registers_written);
    let v = (256 * data[8] + data[9]) as u16;
    let one = seq![v];
    assert(crate::ble_at::binary::registers_written(g, 0x08FC, one, 0).g == g);
    assert(crate::ble_at::binary::registers_written(g, 0x08FC, one, 1).g == crate::bus::writes::hold_written(
        g,
        0x08FC,
        one[0],
    ).g);
}

/// The information that the device gives: network with 0xCE, serial number with 0xC2,
/// MAC address with 0xC6, version and date with 0xCF, each behind its function and a
/// zero. Other functions from 0xC0 on are not answered.
pub proof fn law_information_is_given(l: LinkView, g: GatewayView, data: Seq<u8>, mac: Seq<u8>, now: u64)
    requires
        whole(data),
        intact(data),
        0xC0 <= data[7] <= 0xCF,
        g.config is Some,
        g.config->0.shaped(),
        l.tx.len() <= 1500,
    ensures
        ({
            let e = frame_effect(l, g, data, mac, now);
            let c = g.config->0;
            let f = data[7];
            &&& e.g == g
            &&& f == 0xCE ==> e.out is Done && e.l == replied(l, data, seq![0xCEu8, 0] + c.ip + c.mask + c.gateway)
            &&& f == 0xC2 ==> e.out is Done && e.l == replied(l, data, seq![0xC2u8, 0] + c.sn.subrange(0, 18))
            &&& f == 0xC6 ==> e.out is Done && e.l == replied(l, data, seq![0xC6u8, 0] + c.eth_mac)
            &&& f == 0xCF ==> e.out is Done && e.l == replied(l, data, seq![0xCFu8, 0, 2, 2, 1, 6, 0x15])
            &&& f != 0xCE && f != 0xC2 && f != 0xC6 && f != 0xCF ==> e.out is Ignored && e.l == l
        }),
{
    reveal(sent);
    let c = g.config->0;
    assert(c.sn.take(18) =~= c.sn.subrange(0, 18));
}

/// A read command is answered under its own numbers: unit, function, the length of the
/// data and the data.
pub proof fn law_read_command_is_answered(l: LinkView, g: GatewayView, data: Seq<u8>, mac: Seq<u8>, now: u64)
    requires
        whole(data),
        intact(data),
        data[7] == 3 || data[7] == 4,
        256 * data[4] + data[5] >= 6,
        l.tx.len() <= 1500,
        g.config matches Some(c) && c.shaped(),
    ensures
        ({
            let e = frame_effect(l, g, data, mac, now);
            let addr = (256 * data[8] + data[9]) as u16;
            let cnt = (256 * data[10] + data[11]) as u16;
            let r = android_read(g, data[7], addr, cnt);
            &&& r is Some ==> e.out is Done && e.g == r->0.g && e.l == replied(
                l,
                data,
                seq![data[6], data[7], r->0.data.len() as u8] + r->0.data,
            )
            &&& r is None ==> e.out is Modbus && e.g == g && e.l == l
        }),
{
    reveal(sent);
    let addr = (256 * data[8] + data[9]) as u16;
    let cnt = (256 * data[10] + data[11]) as u16;
    let r = android_read(g, data[7], addr, cnt);
    if r is Some {
        crate::ble_at::android::law_reply_is_complete(g, data[7], addr, cnt);
        let d = r->0.data;
        assert(crate::ble_at::android::reply_pdu(data[6], data[7], d) =~= seq![data[6], data[7], d.len() as u8] + d);
    }
}

/// Every other frame is a request to a Modbus server, with the unit, the function and the
/// data of the frame; nothing changes.
pub proof fn law_other_frames_are_modbus(l: LinkView, g: GatewayView, data: Seq<u8>, mac: Seq<u8>, now: u64)
    requires
        whole(data),
        intact(data),
        data[7] < 0xB0 || data[7] > 0xD3 || 0xB8 <= data[7] < 0xC0,
        data[7] != 3,
        data[7] != 4,
        data[7] != 0x11,
    ensures
        ({
            let e = frame_effect(l, g, data, mac, now);
            &&& e.l == l
            &&& e.g == g
            &&& e.out == (OutcomeView::Modbus {
                tx_id: (256 * data[0] + data[1]) as u16,
                proto_id: (256 * data[2] + data[3]) as u16,
                unit: data[6],
                func: data[7],
                data: data.subrange(8, 256 * data[4] + data[5] + 6),
            })
        }),
{
}

/// The answer of a Modbus server goes out behind the unit and with a checksum of its own.
pub proof fn law_modbus_answer_is_sealed(unit: u8, response: Seq<u8>, k: int)
    requires
        0 <= k < response.len(),
    ensures
        ({
            let p = modbus_pdu(unit, response);
            let n = response.len() as int;
            &&& p.len() == n + 3
            &&& p[0] == unit
            &&& p[1 + k] == response[k]
            &&& p[n + 1] + 256 * p[n + 2] == crc16(p.take(n + 1))
        }),
{
    let p = modbus_pdu(unit, response);
    assert(p.take(response.len() as int + 1) =~= seq![unit] + response);
}

} // verus!

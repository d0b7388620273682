//! Laws of a client's session: what its writes do, and what a tick does for it.

use crate::ble_at::android::{config_data, fixed_data, hold_words, reply_pdu, settings_of, ReadSettings};
use crate::ble_at::binary::{answered, be_words, config_text_write, frame_effect, opens_text, registers_written, OutcomeView};
use crate::ble_at::frame::{ble_frame, intact, whole};
use crate::ble_at::frame_laws::replied;
use crate::ble_at::link::{fed, report_pdu, sent, target_of, without_returns, LinkView};
use crate::ble_at::logic_handlers::{logic_outcome, sub_key, LogicView};
use crate::ble_at::ota_handlers::{hex_bytes, hex_value, ota_write_reply, OtaInfo};
use crate::ble_at::parser::line_effect;
use crate::ble_at::reply::{err_text, ReplyView, RequestView};
use crate::ble_at::tick::{gap_name, tick_effect, write_effect};
use crate::bus::writes::hold_written;
use crate::bytes::{be16_at, be_bytes};
use crate::device::system_config::CfgView;
use crate::gateway::GatewayView;
use crate::text::{hex, lemma_index_of, trimmed, until_zero};
use crate::text_laws::{law_hexadecimal_form, law_hexadecimal_reads_back};
use vstd::prelude::*;
use vstd::utf8::{decode_utf8, encode_utf8, is_ascii_chars, is_ascii_chars_encode_utf8, valid_utf8};

verus! {

// ---- Text in ----

/// Received text is kept in order behind what is there, as long as it fits in 512 bytes.
pub proof fn law_received_text_is_kept(line: Seq<char>, data: Seq<u8>, n: nat)
    requires
        n <= data.len(),
        line.len() + n <= 512,
        is_ascii_chars(line),
        forall|i: int| 0 <= i < data.len() ==> #[trigger] data[i] < 0x80,
    ensures
        fed(line, data, n) == line + Seq::new(n, |i: int| data[i] as char),
        is_ascii_chars(fed(line, data, n)),
    decreases n,
{
    let all = line + Seq::new(n, |i: int| data[i] as char);
    if n > 0 {
        law_received_text_is_kept(line, data, (n - 1) as nat);
        let before = fed(line, data, (n - 1) as nat);
        let c = data[n - 1] as char;
        assert(data[n - 1] < 0x80);
        let more = before.push(c);
        assert(is_ascii_chars(more));
        is_ascii_chars_encode_utf8(more);
        assert(more =~= all);
    } else {
        assert(all =~= line);
    }
}

/// A line ends before its carriage returns.
pub proof fn law_line_has_no_returns_at_its_end(s: Seq<char>)
    ensures
        without_returns(s).len() > 0 ==> without_returns(s).last() != '\r',
        without_returns(s).len() <= s.len(),
        without_returns(s) == s.take(without_returns(s).len() as int),
        forall|i: int| without_returns(s).len() <= i < s.len() ==> #[trigger] s[i] == '\r',
    decreases s.len(),
{
    if s.len() > 0 && s.last() == '\r' {
        let t = s.drop_last();
        law_line_has_no_returns_at_its_end(t);
        let k = without_returns(s).len() as int;
        assert(t.take(k) =~= s.take(k));
        assert forall|i: int| k <= i < s.len() implies #[trigger] s[i] == '\r' by {
            if i < s.len() - 1 {
                assert(t[i] == s[i]);
            }
        }
    } else {
        assert(s.take(s.len() as int) =~= s);
    }
}

/// What a client writes to the value is text where nothing of a frame waits and it opens
/// with "AT", or is an "A" alone; then it is kept as text and nothing else happens.
/// Anything else is a piece of a frame.
pub proof fn law_written_bytes_are_text_or_frames(
    l: LinkView,
    g: GatewayView,
    need_rsp: bool,
    data: Seq<u8>,
    mac: Seq<u8>,
    now: u64,
)
    requires
        l.handles.len() == 4,
        l.handles[2] != l.handles[3],
        l.gatts_if != 0xFF,
        data.len() > 0,
        l.rx.len() == 0,
    ensures
        ({
            let e = write_effect(l, g, l.handles[2], need_rsp, data, mac, now);
            let is_text = data[0] == 0x41 && (data.len() == 1 || data[1] == 0x54);
            &&& e.respond == need_rsp
            &&& is_text ==> e.g == g && e.l == (LinkView { line: fed(l.line, data, data.len()), ..l })
            &&& !is_text && data.len() < 6 ==> e.g == g && e.l == (LinkView { rx: data, ..l })
        }),
{
    let is_text = data[0] == 0x41 && (data.len() == 1 || data[1] == 0x54);
    assert(Seq::<u8>::empty() + data =~= data);
    assert(l.rx =~= Seq::<u8>::empty());
    if is_text && data.len() == 1 {
        assert(data =~= seq![0x41u8]);
    }
    assert(opens_text(data) == is_text);
}

// ---- Ticks ----

/// With a client, a complete line is carried out: its answer goes out as a frame behind
/// what is queued, and the rest of the text waits.
pub proof fn law_line_is_answered_on_a_tick(l: LinkView, g: GatewayView, ota: OtaInfo, n: int, answer: Seq<char>)
    requires
        target_of(l) is Some,
        !g.ble_name_pending,
        0 <= n < l.line.len(),
        l.line[n] == '\n',
        forall|i: int| 0 <= i < n ==> l.line[i] != '\n',
        line_effect(g, without_returns(l.line.subrange(0, n)), ota).reply == ReplyView::Text(answer),
        encode_utf8(answer).len() <= 504,
        l.tx.len() + encode_utf8(answer).len() + 8 <= 2048,
    ensures
        ({
            let e = tick_effect(l, g, ota);
            &&& e.g == line_effect(g, without_returns(l.line.subrange(0, n)), ota).g
            &&& e.plan.notify == Some(l.tx + ble_frame(0, 0, encode_utf8(answer)))
            &&& e.plan.request is None
            &&& e.l.tx.len() == 0
            &&& e.l.line == l.line.subrange(n + 1, l.line.len() as int)
        }),
{
    lemma_index_of(l.line, '\n', n);
    assert(l.line.take(n) =~= l.line.subrange(0, n));
    assert(l.line.skip(n + 1) =~= l.line.subrange(n + 1, l.line.len() as int));
    assert(l.line.contains('\n')) by {
        assert(l.line[n] == '\n');
    }
    let h = GatewayView { ble_name_pending: false, ..g };
    assert(h =~= g);
    assert(ble_frame(0, 0, encode_utf8(answer)).len() == encode_utf8(answer).len() + 8);
}

/// A changed BLE name is announced once: the configured name, or "Mesh" where it is
/// empty.
pub proof fn law_changed_name_is_announced(l: LinkView, g: GatewayView, ota: OtaInfo)
    ensures
        g.ble_name_pending ==> tick_effect(l, g, ota).plan.name == Some(gap_name(g)),
        !g.ble_name_pending ==> tick_effect(l, g, ota).plan.name is None,
        g.config matches Some(c) && c.ble_name.len() > 0 && c.ble_name[0] == 0 ==> gap_name(g) == "Mesh"@,
        g.config is None ==> gap_name(g) == "Mesh"@,
        g.config matches Some(c) && valid_utf8(until_zero(c.ble_name)) && decode_utf8(until_zero(c.ble_name)).len() > 0
            ==> gap_name(g) == decode_utf8(until_zero(g.config->0.ble_name)),
{
    match g.config {
        Some(c) => {
            if c.ble_name.len() > 0 && c.ble_name[0] == 0 {
                let e = Seq::<u8>::empty();
                assert(until_zero(c.ble_name) =~= e);
                let none = Seq::<char>::empty();
                assert(encode_utf8(none) =~= e);
                vstd::utf8::encode_utf8_valid_utf8(none);
                vstd::utf8::encode_utf8_decode_utf8(none);
            }
        },
        None => {},
    }
}

// ---- Settings and text over frames ----

/// 0xB2, 0xB4 and 0xB6 read up to 120 holding registers, 0xB4 always from 5000 on.
pub proof fn law_handheld_reads_settings(l: LinkView, g: GatewayView, data: Seq<u8>, mac: Seq<u8>, now: u64)
    requires
        whole(data),
        intact(data),
        data[7] == 0xB2 || data[7] == 0xB4 || data[7] == 0xB6,
        256 * data[4] + data[5] >= 6,
        l.tx.len() <= 1500,
    ensures
        ({
            let e = frame_effect(l, g, data, mac, now);
            let addr = if data[7] == 0xB4 {
                5000u16
            } else {
                (256 * data[8] + data[9]) as u16
            };
            let asked = 256 * data[10] + data[11];
            let n: nat = if asked < 120 {
                asked as nat
            } else {
                120
            };
            let r = hold_words(g, addr, n);
            &&& e.out is Done
            &&& e.g == r.g
            &&& r.words.len() == n
            &&& e.l == replied(l, data, seq![data[6], data[7], (2 * n) as u8] + be_bytes(r.words))
        }),
{
    reveal(sent);
    let addr = if data[7] == 0xB4 {
        5000u16
    } else {
        (256 * data[8] + data[9]) as u16
    };
    let asked = 256 * data[10] + data[11];
    let n: nat = if asked < 120 {
        asked as nat
    } else {
        120
    };
    lemma_words_read(g, addr, n);
    let words = hold_words(g, addr, n).words;
    assert(reply_pdu(data[6], data[7], be_bytes(words)) =~= seq![data[6], data[7], (2 * n) as u8] + be_bytes(words));
}

proof fn lemma_words_read(g: GatewayView, addr: u16, n: nat)
    ensures
        hold_words(g, addr, n).words.len() == n,
    decreases n,
{
    reveal(hold_words);
    if n > 0 {
        lemma_words_read(g, addr, (n - 1) as nat);
    }
}

/// 0xB3, 0xB5 and 0xB7 write holding registers, 0xB5 always from 5000 on: one register
/// here. The write is answered where it is accepted. A frame whose lengths do not agree
/// changes nothing and is not answered.
pub proof fn law_handheld_writes_settings(l: LinkView, g: GatewayView, data: Seq<u8>, mac: Seq<u8>, now: u64)
    requires
        whole(data),
        intact(data),
        data[7] == 0xB3 || data[7] == 0xB5 || data[7] == 0xB7,
        256 * data[4] + data[5] == 9,
        l.tx.len() <= 1500,
    ensures
        ({
            let e = frame_effect(l, g, data, mac, now);
            let addr = if data[7] == 0xB5 {
                5000u16
            } else {
                (256 * data[8] + data[9]) as u16
            };
            let w = hold_written(g, addr, (256 * data[13] + data[14]) as u16);
            let agrees = data[10] == 0 && data[11] == 1 && data[12] == 2;
            &&& agrees && w.ok ==> e.out is Done && e.g == w.g && e.l == replied(l, data, seq![data[6], data[7]])
            &&& agrees && !w.ok ==> e.out is Ignored && e.g == w.g && e.l == l
            &&& !agrees ==> e.out is Ignored && e.g == g && e.l == l
        }),
{
    let pdu = data.subrange(8, 15);
    let addr = if data[7] == 0xB5 {
        5000u16
    } else {
        (256 * data[8] + data[9]) as u16
    };
    let tx_id = (256 * data[0] + data[1]) as u16;
    let proto_id = (256 * data[2] + data[3]) as u16;
    let v = (256 * data[13] + data[14]) as u16;
    let agrees = data[10] == 0 && data[11] == 1 && data[12] == 2;
    assert(pdu.len() == 7);
    lemma_write_frame(l, g, data, mac, now);
    let e = config_text_write(l, g, data[7], pdu, tx_id, proto_id, data[6], now);
    if agrees {
        let values = be_words(pdu, 5, 1);
        assert(be16_at(pdu, 5) == v);
        assert(values =~= seq![v]);
        lemma_one_register(g, addr, v);
        lemma_reply(l, registers_written(g, addr, values, 1).g, data, seq![data[6], data[7]], now);
    }
}

proof fn lemma_write_frame(l: LinkView, g: GatewayView, data: Seq<u8>, mac: Seq<u8>, now: u64)
    requires
        whole(data),
        intact(data),
        data[7] == 0xB3 || data[7] == 0xB5 || data[7] == 0xB7,
        256 * data[4] + data[5] == 9,
    ensures
        frame_effect(l, g, data, mac, now) == config_text_write(
            l,
            g,
            data[7],
            data.subrange(8, 15),
            (256 * data[0] + data[1]) as u16,
            (256 * data[2] + data[3]) as u16,
            data[6],
            now,
        ),
{
}

proof fn lemma_one_register(g: GatewayView, addr: u16, v: u16)
    ensures
        registers_written(g, addr, seq![v], 1) == hold_written(g, addr, v),
{
    reveal(registers_written);
    let values = seq![v];
    assert(registers_written(g, addr, values, 0).ok && registers_written(g, addr, values, 0).g == g);
    assert(values[0] == v);
}

proof fn lemma_reply(l: LinkView, g: GatewayView, data: Seq<u8>, pdu: Seq<u8>, now: u64)
    requires
        l.tx.len() <= 1500,
        pdu.len() <= 504,
    ensures
        ({
            let e = answered(l, g, (256 * data[0] + data[1]) as u16, (256 * data[2] + data[3]) as u16, pdu, now);
            e.l == replied(l, data, pdu) && e.g == g && e.out is Done
        }),
{
    reveal(sent);
}

// ---- Updates ----

/// A piece of an update that is sent as hexadecimal digits is written as the bytes that
/// they stand for. An odd number of digits is refused with code 11, too many with 12.
pub proof fn law_update_piece_is_written(args: Seq<char>, chunk_max: usize)
    requires
        args.len() > 0,
        trimmed(args) == args,
        is_ascii_chars(args),
        forall|i: int| 0 <= i < args.len() ==> hex_value((#[trigger] args[i]) as u8) is Some,
    ensures
        ({
            let digits = Seq::new(args.len(), |i: int| args[i] as u8);
            let r = ota_write_reply(args, chunk_max);
            &&& args.len() % 2 == 0 && args.len() <= 2 * chunk_max ==> r == ReplyView::Request(
                RequestView::OtaWrite(hex_bytes(digits)),
            )
            &&& args.len() % 2 == 1 ==> r == ReplyView::Text(err_text(11, "odd hex length"@))
            &&& args.len() % 2 == 0 && args.len() > 2 * chunk_max ==> exists|m: Seq<char>|
                r == ReplyView::Text(#[trigger] err_text(12, m))
        }),
{
    let digits = Seq::new(args.len(), |i: int| args[i] as u8);
    is_ascii_chars_encode_utf8(args);
    assert(encode_utf8(args) =~= digits);
    assert forall|i: int| 0 <= i < digits.len() implies hex_value(#[trigger] digits[i]) is Some by {
        assert(hex_value(args[i] as u8) is Some);
    }
    if args.len() >= 2 {
        crate::ble_at::command_laws::law_update_piece_is_hexadecimal(digits, 0);
    }
    if args.len() % 2 == 0 && args.len() > 2 * chunk_max {
        let m = "chunk too large (max "@ + crate::text::dec(chunk_max as nat) + " bytes)"@;
        assert(ota_write_reply(args, chunk_max) == ReplyView::Text(err_text(12, m)));
    }
}


// ---- Stored settings and reports ----

/// A frame for stored settings is answered under its own numbers, or hands what it asks
/// for on under them.
pub proof fn law_setting_frame_keeps_its_numbers(l: LinkView, g: GatewayView, data: Seq<u8>, mac: Seq<u8>, now: u64)
    requires
        whole(data),
        intact(data),
        0xD0 <= data[7] <= 0xD3,
        l.tx.len() <= 1500,
    ensures
        ({
            let e = frame_effect(l, g, data, mac, now);
            let n = 256 * data[4] + data[5];
            let o = logic_outcome(g, data[7], data.subrange(8, n + 6));
            &&& e.g == g
            &&& o matches LogicView::Reply(r) ==> (r.len() <= 504 ==> e.out is Done && e.l == replied(l, data, r))
            &&& o is Store || o is Load || o is Erase ==> e.l == l && e.out == OutcomeView::Logic(
                (256 * data[0] + data[1]) as u16,
                (256 * data[2] + data[3]) as u16,
                o,
            )
            &&& o is Unhandled ==> e.l == l && e.out is Modbus
        }),
{
    let n = 256 * data[4] + data[5];
    let o = logic_outcome(g, data[7], data.subrange(8, n + 6));
    match o {
        LogicView::Reply(r) => {
            if r.len() <= 504 {
                lemma_reply(l, g, data, r, now);
            }
            reveal(sent);
            assert(r.len() <= 8);
        },
        _ => {},
    }
}

/// A change of the inputs is reported as unit 1 and 0x94 with the sixteen inputs, the
/// first in the lowest bit.
pub proof fn law_input_report(di: u64)
    ensures
        report_pdu(di).len() == 4,
        report_pdu(di)[0] == 1,
        report_pdu(di)[1] == 0x94,
        report_pdu(di)[2] + 256 * report_pdu(di)[3] == di % 65536,
{
    let r = report_pdu(di);
    assert(r[2] == di % 256 && r[3] == (di / 256) % 256);
}

/// Settings are stored under "cfg_" and two hexadecimal digits, each number under its
/// own.
pub proof fn law_settings_have_their_own_key(a: u8, b: u8)
    ensures
        sub_key(a).len() == 6,
        sub_key(a).take(4) == "cfg_"@,
        sub_key(a) == sub_key(b) ==> a == b,
{
    reveal_strlit("cfg_");
    law_hexadecimal_form(a as nat, 2, false);
    law_hexadecimal_form(b as nat, 2, false);
    let (x, y) = (hex(a as nat, 2, false), hex(b as nat, 2, false));
    assert(sub_key(a).take(4) =~= "cfg_"@);
    assert(sub_key(a).skip(4) =~= x);
    assert(sub_key(b).skip(4) =~= y);
    if sub_key(a) == sub_key(b) {
        law_hexadecimal_reads_back(a as nat, 2, false, 255);
        law_hexadecimal_reads_back(b as nat, 2, false, 255);
    }
}

/// The fixed blocks that are made of settings are those that are read of a configuration
/// with these settings.
pub proof fn law_fixed_blocks_show_the_settings(s: ReadSettings, c: CfgView, addr: u16, cnt: u16)
    requires
        settings_of(s, c),
        fixed_data(s, addr, cnt) is Some,
    ensures
        fixed_data(s, addr, cnt) == config_data(c, addr, cnt),
        addr == 0x087C || addr == 0x087E || addr == 0x08A5 || addr == 0x08C7 || addr == 0x08D7 || addr == 0x08E2,
{
    assert(fixed_data(s, addr, cnt)->0 =~= config_data(c, addr, cnt)->0);
}

} // verus!

//! The handheld's binary protocol: frames are put together from what was written,
//! and each is carried out.

use crate::ble_at::android::{
    android_read, handle_ble_android_read_command, hold_words, read_hold_words, reply_pdu, sat_addr, words_response,
};
use crate::ble_at::frame::{binary_frame_total_len, checksum_matches, intact, sealed, total_len, whole};
use crate::ble_at::link::{heartbeat_counter, next_beat, send_ble_frame, sent, BleLink, LinkView};
use crate::ble_at::logic_handlers::{dispatch_logic_cmd, logic_outcome, LogicOutcome, LogicView};
use crate::bounded::{new_response, slice_of, try_extend, try_push, wipe, Items};
use crate::bus::writes::{hold_written, write_hold_reg, Written};
use crate::bytes::{be16_at, be_bytes, get_be16, high, low};
use crate::config::regs;
use crate::device::system_config::CfgView;
use crate::gateway::{Gateway, GatewayView};
use crate::math::lesser;
use crate::modbus::shared::modbus_crc16;
use vstd::prelude::*;
use vstd::slice::{slice_subrange, slice_to_vec};

verus! {

/// A request that a Modbus server is to answer.
pub struct ModbusRequest {
    pub tx_id: u16,
    pub proto_id: u16,
    pub unit: u8,
    pub func: u8,
    pub data: Vec<u8>,
}

/// What became of a frame.
pub enum FrameOutcome {
    /// It is not one of this protocol.
    Ignored,
    /// It was carried out.
    Done,
    /// A Modbus server is to answer it; then `finish_modbus`.
    Modbus(ModbusRequest),
    /// Stored settings are involved; the answer goes out by `send_ble_frame` under the
    /// same transaction and protocol numbers.
    Logic(u16, u16, LogicOutcome),
}

/// What became of a frame, as plain values.
pub enum OutcomeView {
    Ignored,
    Done,
    Modbus { tx_id: u16, proto_id: u16, unit: u8, func: u8, data: Seq<u8> },
    Logic(u16, u16, LogicView),
}

impl View for FrameOutcome {
    type V = OutcomeView;

    open spec fn view(&self) -> OutcomeView {
        match self {
            FrameOutcome::Ignored => OutcomeView::Ignored,
            FrameOutcome::Done => OutcomeView::Done,
            FrameOutcome::Modbus(m) => OutcomeView::Modbus {
                tx_id: m.tx_id,
                proto_id: m.proto_id,
                unit: m.unit,
                func: m.func,
                data: m.data@,
            },
            FrameOutcome::Logic(t, p, o) => OutcomeView::Logic(*t, *p, o@),
        }
    }
}

/// What a frame does: the link and the shared state after it, and what became of it.
pub struct FrameEffect {
    pub l: LinkView,
    pub g: GatewayView,
    pub out: OutcomeView,
}

/// A frame that is answered.
pub open spec fn answered(l: LinkView, g: GatewayView, tx_id: u16, proto_id: u16, pdu: Seq<u8>, now: u64) -> FrameEffect {
    let b = sent(l, g, tx_id, proto_id, pdu, now);
    FrameEffect { l: b.l, g: b.g, out: OutcomeView::Done }
}

/// A frame that is not one of this protocol.
pub open spec fn ignored(l: LinkView, g: GatewayView) -> FrameEffect {
    FrameEffect { l, g, out: OutcomeView::Ignored }
}

// ---- Registers of the handheld ----

/// Holding registers written one after another, up to the first refusal.
#[verifier::opaque]
pub open spec fn registers_written(g: GatewayView, addr: u16, values: Seq<u16>, n: nat) -> Written
    decreases n,
{
    if n == 0 {
        Written { g, ok: true }
    } else {
        let w = registers_written(g, addr, values, (n - 1) as nat);
        if w.ok {
            hold_written(w.g, sat_addr(addr, n - 1), values[n - 1])
        } else {
            w
        }
    }
}

/// Big-endian words in a byte string.
pub open spec fn be_words(s: Seq<u8>, at: int, n: nat) -> Seq<u16> {
    Seq::new(n, |i: int| be16_at(s, at + 2 * i))
}

fn write_registers(gw: &mut Gateway, addr: u16, pdu: &[u8], count: usize) -> (r: bool)
    requires
        pdu@.len() == 5 + 2 * count,
        count <= 120,
    ensures
        r == registers_written(old(gw)@, addr, be_words(pdu@, 5, count as nat), count as nat).ok,
        final(gw)@ == registers_written(old(gw)@, addr, be_words(pdu@, 5, count as nat), count as nat).g,
{
    proof {
        reveal(registers_written);
    }
    let ghost values = be_words(pdu@, 5, count as nat);
    let mut ok: bool = true;
    let mut i: usize = 0;
    while i < count
        invariant
            i <= count <= 120,
            pdu@.len() == 5 + 2 * count,
            values == be_words(pdu@, 5, count as nat),
            ok == registers_written(old(gw)@, addr, values, i as nat).ok,
            gw@ == registers_written(old(gw)@, addr, values, i as nat).g,
        decreases count - i,
    {
        if ok {
            let value: u16 = get_be16(pdu, 5 + 2 * i);
            assert(value == values[i as int]);
            ok = write_hold_reg(gw, addr.saturating_add(i as u16), value);
        }
        proof {
            reveal(registers_written);
        }
        i += 1;
    }
    ok
}

/// Reads of settings and text: function and address, and a count of at most 120.
pub open spec fn config_text_read(
    l: LinkView,
    g: GatewayView,
    func: u8,
    pdu: Seq<u8>,
    tx_id: u16,
    proto_id: u16,
    unit: u8,
    now: u64,
) -> FrameEffect {
    let addr = if func == 0xB4 {
        regs::DEVICE_TEXT_BASE
    } else {
        be16_at(pdu, 0)
    };
    let r = hold_words(g, addr, lesser(be16_at(pdu, 2) as int, 120) as nat);
    answered(l, r.g, tx_id, proto_id, reply_pdu(unit, func, be_bytes(r.words)), now)
}

/// Writes of settings and text. A write whose lengths do not agree changes nothing;
/// one that meets a register that refuses is not answered.
pub open spec fn config_text_write(
    l: LinkView,
    g: GatewayView,
    func: u8,
    pdu: Seq<u8>,
    tx_id: u16,
    proto_id: u16,
    unit: u8,
    now: u64,
) -> FrameEffect {
    let count = be16_at(pdu, 2);
    if pdu.len() < 5 || pdu[4] > 240 || pdu.len() != 5 + pdu[4] || pdu[4] != 2 * count {
        ignored(l, g)
    } else {
        let addr = if func == 0xB5 {
            regs::DEVICE_TEXT_BASE
        } else {
            be16_at(pdu, 0)
        };
        let w = registers_written(g, addr, be_words(pdu, 5, count as nat), count as nat);
        if w.ok {
            answered(l, w.g, tx_id, proto_id, seq![unit, func], now)
        } else {
            ignored(l, w.g)
        }
    }
}

/// Reads and writes of settings and text.
pub open spec fn config_text(
    l: LinkView,
    g: GatewayView,
    func: u8,
    pdu: Seq<u8>,
    tx_id: u16,
    proto_id: u16,
    unit: u8,
    now: u64,
) -> FrameEffect {
    if pdu.len() < 4 {
        ignored(l, g)
    } else if func == 0xB2 || func == 0xB4 || func == 0xB6 {
        config_text_read(l, g, func, pdu, tx_id, proto_id, unit, now)
    } else if func == 0xB3 || func == 0xB5 || func == 0xB7 {
        config_text_write(l, g, func, pdu, tx_id, proto_id, unit, now)
    } else {
        ignored(l, g)
    }
}

/// Carries out reads and writes of settings and text; false where the frame is not
/// answered.
pub fn handle_handheld_config_text(
    link: &mut BleLink,
    gw: &mut Gateway,
    func: u8,
    pdu: &[u8],
    tx_id: u16,
    proto_id: u16,
    unit: u8,
    now: u64,
) -> (r: bool)
    ensures
        ({
            let e = config_text(old(link)@, old(gw)@, func, pdu@, tx_id, proto_id, unit, now);
            &&& r == (e.out is Done)
            &&& final(link)@ == e.l
            &&& final(gw)@ == e.g
        }),
{
    if pdu.len() < 4 {
        return false;
    }
    let addr: u16 = get_be16(pdu, 0);
    let count: usize = get_be16(pdu, 2) as usize;
    if func == 0xB2 || func == 0xB4 || func == 0xB6 {
        let from: u16 = if func == 0xB4 {
            regs::DEVICE_TEXT_BASE
        } else {
            addr
        };
        let n: usize = if count < 120 {
            count
        } else {
            120
        };
        let words = read_hold_words(gw, from, n);
        let rsp = words_response(unit, func, words.as_slice());
        send_ble_frame(link, gw, tx_id, proto_id, slice_of(&rsp), now);
        return true;
    }
    if func == 0xB3 || func == 0xB5 || func == 0xB7 {
        if pdu.len() < 5 {
            return false;
        }
        let size: usize = pdu[4] as usize;
        if size > 240 || pdu.len() != 5 + size || size != 2 * count {
            return false;
        }
        let to: u16 = if func == 0xB5 {
            regs::DEVICE_TEXT_BASE
        } else {
            addr
        };
        if !write_registers(gw, to, pdu, count) {
            return false;
        }
        let rsp: [u8; 2] = [unit, func];
        assert(rsp@ =~= seq![unit, func]);
        send_ble_frame(link, gw, tx_id, proto_id, rsp.as_slice(), now);
        return true;
    }
    false
}

// ---- Information about the device ----

/// Information about the device: network, serial number, firmware, MAC address.
pub open spec fn custom_reply(c: Option<CfgView>, func: u8) -> Option<Seq<u8>> {
    if func == 0xCE {
        Some(
            match c {
                Some(c) => seq![0xCEu8, 0] + c.ip + c.mask + c.gateway,
                None => seq![0xCEu8, 0] + Seq::new(12, |i: int| 0u8),
            },
        )
    } else if func == 0xC2 {
        Some(
            match c {
                Some(c) => seq![0xC2u8, 0] + c.sn.take(18),
                None => seq![0xC2u8, 0] + Seq::new(18, |i: int| 0u8),
            },
        )
    } else if func == 0xCF {
        Some(seq![0xCFu8, 0, 2, 2, 1, 0x06, 0x15])
    } else if func == 0xC6 {
        Some(
            match c {
                Some(c) => seq![0xC6u8, 0] + c.eth_mac,
                None => seq![0xC6u8, 0] + Seq::new(6, |i: int| 0u8),
            },
        )
    } else {
        None
    }
}

fn network_info(gw: &Gateway) -> (r: heapless::Vec<u8, 256>)
    ensures
        Some(r.items()) == custom_reply(gw@.config, 0xCE),
{
    let mut rsp = new_response();
    let _ = try_push(&mut rsp, 0xCE);
    let _ = try_push(&mut rsp, 0);
    match gw.config.snapshot.read() {
        Some(s) => {
            let _ = try_extend(&mut rsp, s.cfg.ip.as_slice());
            let _ = try_extend(&mut rsp, s.cfg.mask.as_slice());
            let _ = try_extend(&mut rsp, s.cfg.gateway.as_slice());
        },
        None => {
            let zeros: [u8; 12] = [0; 12];
            let _ = try_extend(&mut rsp, zeros.as_slice());
        },
    }
    assert(rsp.items() =~= custom_reply(gw@.config, 0xCE)->0);
    rsp
}

fn serial_info(gw: &Gateway) -> (r: heapless::Vec<u8, 256>)
    ensures
        Some(r.items()) == custom_reply(gw@.config, 0xC2),
{
    let mut rsp = new_response();
    let _ = try_push(&mut rsp, 0xC2);
    let _ = try_push(&mut rsp, 0);
    match gw.config.snapshot.read() {
        Some(s) => {
            let _ = try_extend(&mut rsp, slice_subrange(s.cfg.sn.as_slice(), 0, 18));
        },
        None => {
            let zeros: [u8; 18] = [0; 18];
            let _ = try_extend(&mut rsp, zeros.as_slice());
        },
    }
    assert(rsp.items() =~= custom_reply(gw@.config, 0xC2)->0);
    rsp
}

fn mac_info(gw: &Gateway) -> (r: heapless::Vec<u8, 256>)
    ensures
        Some(r.items()) == custom_reply(gw@.config, 0xC6),
{
    let mut rsp = new_response();
    let _ = try_push(&mut rsp, 0xC6);
    let _ = try_push(&mut rsp, 0);
    match gw.config.snapshot.read() {
        Some(s) => {
            let _ = try_extend(&mut rsp, s.cfg.eth_mac.as_slice());
        },
        None => {
            let zeros: [u8; 6] = [0; 6];
            let _ = try_extend(&mut rsp, zeros.as_slice());
        },
    }
    assert(rsp.items() =~= custom_reply(gw@.config, 0xC6)->0);
    rsp
}

fn firmware_info() -> (r: heapless::Vec<u8, 256>)
    ensures
        r.items() == seq![0xCFu8, 0, 2, 2, 1, 0x06, 0x15],
{
    let all: [u8; 7] = [0xCF, 0, 2, 2, 1, 0x06, 0x15];
    let mut rsp = new_response();
    let _ = try_extend(&mut rsp, all.as_slice());
    assert(rsp.items() =~= seq![0xCFu8, 0, 2, 2, 1, 0x06, 0x15]);
    rsp
}

/// What a request for information does.
pub open spec fn custom(l: LinkView, g: GatewayView, func: u8, tx_id: u16, proto_id: u16, now: u64) -> FrameEffect {
    match custom_reply(g.config, func) {
        Some(pdu) => answered(l, g, tx_id, proto_id, pdu, now),
        None => ignored(l, g),
    }
}

/// Answers a request for information; false where there is none of that kind.
pub fn handle_mca_custom_command(
    link: &mut BleLink,
    gw: &mut Gateway,
    func: u8,
    tx_id: u16,
    proto_id: u16,
    now: u64,
) -> (r: bool)
    ensures
        ({
            let e = custom(old(link)@, old(gw)@, func, tx_id, proto_id, now);
            &&& r == (e.out is Done)
            &&& final(link)@ == e.l
            &&& final(gw)@ == e.g
        }),
{
    let rsp = match func {
        0xCE => network_info(gw),
        0xC2 => serial_info(gw),
        0xCF => firmware_info(),
        0xC6 => mac_info(gw),
        _ => {
            return false;
        },
    };
    send_ble_frame(link, gw, tx_id, proto_id, slice_of(&rsp), now);
    true
}

// ---- Modbus ----

/// Answer of a Modbus server, with the unit in front and a checksum of its own.
pub open spec fn modbus_pdu(unit: u8, response: Seq<u8>) -> Seq<u8> {
    sealed(seq![unit] + response)
}

/// Sends the answer of a Modbus server.
pub fn finish_modbus(link: &mut BleLink, gw: &mut Gateway, request: &ModbusRequest, response: &[u8], now: u64)
    requires
        response@.len() <= 253,
    ensures
        ({
            let b = sent(
                old(link)@,
                old(gw)@,
                request.tx_id,
                request.proto_id,
                modbus_pdu(request.unit, response@),
                now,
            );
            &&& final(link)@ == b.l
            &&& final(gw)@ == b.g
        }),
{
    let mut rsp = new_response();
    let _ = try_push(&mut rsp, request.unit);
    let _ = try_extend(&mut rsp, response);
    assert(rsp.items() =~= seq![request.unit] + response@);
    let crc: u16 = modbus_crc16(slice_of(&rsp));
    let _ = try_push(&mut rsp, low(crc));
    let _ = try_push(&mut rsp, high(crc));
    assert(rsp.items() =~= modbus_pdu(request.unit, response@));
    send_ble_frame(link, gw, request.tx_id, request.proto_id, slice_of(&rsp), now);
}

// ---- Frames ----

/// Answer to a heartbeat: the unit, that it runs, and the device's BLE address.
pub open spec fn heartbeat_pdu(unit: u8, mac: Seq<u8>) -> Seq<u8> {
    seq![unit, 0x11, unit, 1] + mac
}

/// Read of the number of functions.
pub open spec fn count_read(l: LinkView, g: GatewayView, unit: u8, tx_id: u16, proto_id: u16, now: u64) -> FrameEffect {
    let r = hold_words(g, regs::FUNC_COUNT, 1);
    answered(l, r.g, tx_id, proto_id, seq![unit, 0xB0] + be_bytes(r.words), now)
}

/// Write of the number of functions.
pub open spec fn count_written(
    l: LinkView,
    g: GatewayView,
    unit: u8,
    v: u16,
    tx_id: u16,
    proto_id: u16,
    now: u64,
) -> FrameEffect {
    answered(l, registers_written(g, regs::FUNC_COUNT, seq![v], 1).g, tx_id, proto_id, seq![unit, 0xB1], now)
}

/// A frame for stored settings.
pub open spec fn logic(l: LinkView, g: GatewayView, data: Seq<u8>, now: u64) -> FrameEffect {
    let tx_id = be16_at(data, 0);
    let proto_id = be16_at(data, 2);
    let pdu = data.subrange(8, be16_at(data, 4) + 6);
    match logic_outcome(g, data[7], pdu) {
        LogicView::Unhandled => modbus(l, g, data),
        LogicView::Reply(rsp) => answered(l, g, tx_id, proto_id, rsp, now),
        o => FrameEffect { l, g, out: OutcomeView::Logic(tx_id, proto_id, o) },
    }
}

/// A frame for a Modbus server.
pub open spec fn modbus(l: LinkView, g: GatewayView, data: Seq<u8>) -> FrameEffect {
    FrameEffect {
        l,
        g,
        out: OutcomeView::Modbus {
            tx_id: be16_at(data, 0),
            proto_id: be16_at(data, 2),
            unit: data[6],
            func: data[7],
            data: data.subrange(8, be16_at(data, 4) + 6),
        },
    }
}

/// A frame whose function is not a read of the handheld's. The number of functions is
/// written from the two bytes behind the function code, whatever the length says.
pub open spec fn other_effect(l: LinkView, g: GatewayView, data: Seq<u8>, now: u64) -> FrameEffect {
    let tx_id = be16_at(data, 0);
    let proto_id = be16_at(data, 2);
    let unit = data[6];
    let func = data[7];
    let pdu = data.subrange(8, be16_at(data, 4) + 6);
    if func == 0xB0 {
        count_read(l, g, unit, tx_id, proto_id, now)
    } else if func == 0xB1 {
        count_written(l, g, unit, be16_at(data, 8), tx_id, proto_id, now)
    } else if 0xB2 <= func <= 0xB7 {
        config_text(l, g, func, pdu, tx_id, proto_id, unit, now)
    } else if 0xC0 <= func <= 0xCF {
        custom(l, g, func, tx_id, proto_id, now)
    } else if 0xD0 <= func <= 0xD3 {
        logic(l, g, data, now)
    } else {
        modbus(l, g, data)
    }
}

/// What a frame does. `mac` is the device's BLE address.
pub open spec fn frame_effect(l: LinkView, g: GatewayView, data: Seq<u8>, mac: Seq<u8>, now: u64) -> FrameEffect {
    let tx_id = be16_at(data, 0);
    let proto_id = be16_at(data, 2);
    let unit = data[6];
    let func = data[7];
    let pdu = data.subrange(8, be16_at(data, 4) + 6);
    if !whole(data) {
        ignored(l, g)
    } else if !intact(data) {
        FrameEffect { l, g, out: OutcomeView::Done }
    } else if func == 0x11 {
        answered(
            LinkView { beats: next_beat(l.beats), ..l },
            g,
            tx_id,
            proto_id,
            heartbeat_pdu(unit, mac),
            now,
        )
    } else if (func == 0x03 || func == 0x04) && pdu.len() >= 4 {
        match android_read(g, func, be16_at(pdu, 0), be16_at(pdu, 2)) {
            Some(e) => answered(l, e.g, tx_id, proto_id, reply_pdu(unit, func, e.data), now),
            None => modbus(l, g, data),
        }
    } else {
        other_effect(l, g, data, now)
    }
}

fn modbus_request(data: &[u8]) -> (r: FrameOutcome)
    requires
        whole(data@),
    ensures
        forall|l: LinkView, g: GatewayView| r@ == (#[trigger] modbus(l, g, data@)).out,
{
    let end: usize = get_be16(data, 4) as usize + 6;
    let rest = slice_subrange(data, 8, end);
    FrameOutcome::Modbus(
        ModbusRequest {
            tx_id: get_be16(data, 0),
            proto_id: get_be16(data, 2),
            unit: data[6],
            func: data[7],
            data: slice_to_vec(rest),
        },
    )
}

fn done_if(done: bool) -> (r: FrameOutcome)
    ensures
        r@ == if done {
            OutcomeView::Done
        } else {
            OutcomeView::Ignored
        },
{
    if done {
        FrameOutcome::Done
    } else {
        FrameOutcome::Ignored
    }
}

fn handle_logic(link: &mut BleLink, gw: &mut Gateway, data: &[u8], now: u64) -> (r: FrameOutcome)
    requires
        whole(data@),
    ensures
        r@ == logic(old(link)@, old(gw)@, data@, now).out,
        final(link)@ == logic(old(link)@, old(gw)@, data@, now).l,
        final(gw)@ == logic(old(link)@, old(gw)@, data@, now).g,
{
    let end: usize = get_be16(data, 4) as usize + 6;
    let pdu = slice_subrange(data, 8, end);
    let tx_id: u16 = get_be16(data, 0);
    let proto_id: u16 = get_be16(data, 2);
    match dispatch_logic_cmd(gw, data[7], pdu) {
        LogicOutcome::Unhandled => modbus_request(data),
        LogicOutcome::Reply(rsp) => {
            send_ble_frame(link, gw, tx_id, proto_id, slice_of(&rsp), now);
            FrameOutcome::Done
        },
        o => FrameOutcome::Logic(tx_id, proto_id, o),
    }
}

fn read_count(link: &mut BleLink, gw: &mut Gateway, unit: u8, tx_id: u16, proto_id: u16, now: u64)
    ensures
        final(link)@ == count_read(old(link)@, old(gw)@, unit, tx_id, proto_id, now).l,
        final(gw)@ == count_read(old(link)@, old(gw)@, unit, tx_id, proto_id, now).g,
{
    let v: u16 = read_hold_words(gw, regs::FUNC_COUNT, 1)[0];
    let rsp: [u8; 4] = [unit, 0xB0, high(v), low(v)];
    assert(rsp@ =~= seq![unit, 0xB0] + be_bytes(hold_words(old(gw)@, regs::FUNC_COUNT, 1).words));
    send_ble_frame(link, gw, tx_id, proto_id, rsp.as_slice(), now);
}

fn write_count(link: &mut BleLink, gw: &mut Gateway, unit: u8, v: u16, tx_id: u16, proto_id: u16, now: u64)
    ensures
        final(link)@ == count_written(old(link)@, old(gw)@, unit, v, tx_id, proto_id, now).l,
        final(gw)@ == count_written(old(link)@, old(gw)@, unit, v, tx_id, proto_id, now).g,
{
    let _ = write_hold_reg(gw, regs::FUNC_COUNT, v);
    proof {
        reveal_with_fuel(registers_written, 2);
    }
    let rsp: [u8; 2] = [unit, 0xB1];
    assert(rsp@ =~= seq![unit, 0xB1]);
    send_ble_frame(link, gw, tx_id, proto_id, rsp.as_slice(), now);
}

fn handle_other(link: &mut BleLink, gw: &mut Gateway, data: &[u8], now: u64) -> (r: FrameOutcome)
    requires
        whole(data@),
    ensures
        r@ == other_effect(old(link)@, old(gw)@, data@, now).out,
        final(link)@ == other_effect(old(link)@, old(gw)@, data@, now).l,
        final(gw)@ == other_effect(old(link)@, old(gw)@, data@, now).g,
{
    let tx_id: u16 = get_be16(data, 0);
    let proto_id: u16 = get_be16(data, 2);
    let unit: u8 = data[6];
    let func: u8 = data[7];
    let end: usize = get_be16(data, 4) as usize + 6;
    if func == 0xB0 {
        read_count(link, gw, unit, tx_id, proto_id, now);
        return FrameOutcome::Done;
    }
    if func == 0xB1 {
        write_count(link, gw, unit, get_be16(data, 8), tx_id, proto_id, now);
        return FrameOutcome::Done;
    }
    if 0xB2 <= func && func <= 0xB7 {
        let pdu = slice_subrange(data, 8, end);
        return done_if(handle_handheld_config_text(link, gw, func, pdu, tx_id, proto_id, unit, now));
    }
    if 0xC0 <= func && func <= 0xCF {
        return done_if(handle_mca_custom_command(link, gw, func, tx_id, proto_id, now));
    }
    if 0xD0 <= func && func <= 0xD3 {
        return handle_logic(link, gw, data, now);
    }
    modbus_request(data)
}

/// Carries out a frame.
pub fn try_handle_binary_protocol(
    link: &mut BleLink,
    gw: &mut Gateway,
    data: &[u8],
    mac: &[u8; 6],
    now: u64,
) -> (r: FrameOutcome)
    ensures
        r@ == frame_effect(old(link)@, old(gw)@, data@, mac@, now).out,
        final(link)@ == frame_effect(old(link)@, old(gw)@, data@, mac@, now).l,
        final(gw)@ == frame_effect(old(link)@, old(gw)@, data@, mac@, now).g,
{
    if data.len() < 10 {
        return FrameOutcome::Ignored;
    }
    let length: usize = get_be16(data, 4) as usize;
    if length < 2 || data.len() < length + 8 {
        return FrameOutcome::Ignored;
    }
    if !checksum_matches(data) {
        return FrameOutcome::Done;
    }
    let tx_id: u16 = get_be16(data, 0);
    let proto_id: u16 = get_be16(data, 2);
    let unit: u8 = data[6];
    let func: u8 = data[7];
    if func == 0x11 {
        let _ = heartbeat_counter(link);
        let rsp: [u8; 10] = [unit, 0x11, unit, 1, mac[0], mac[1], mac[2], mac[3], mac[4], mac[5]];
        assert(rsp@ =~= heartbeat_pdu(unit, mac@));
        send_ble_frame(link, gw, tx_id, proto_id, rsp.as_slice(), now);
        return FrameOutcome::Done;
    }
    if (func == 0x03 || func == 0x04) && length >= 6 {
        let pdu = slice_subrange(data, 8, length + 6);
        let addr: u16 = get_be16(pdu, 0);
        let count: u16 = get_be16(pdu, 2);
        return match handle_ble_android_read_command(gw, unit, func, addr, count) {
            Some(rsp) => {
                send_ble_frame(link, gw, tx_id, proto_id, slice_of(&rsp), now);
                FrameOutcome::Done
            },
            None => modbus_request(data),
        };
    }
    handle_other(link, gw, data, now)
}

// ---- Reassembly ----

/// Whether received bytes are text: they open with the letters of a command.
pub open spec fn opens_text(data: Seq<u8>) -> bool {
    (data.len() >= 2 && data[0] == 0x41 && data[1] == 0x54) || data == seq![0x41u8]
}

/// What received bytes do. They are put together to one frame, and the frame is
/// carried out once it is complete. What cannot become a frame is dropped; bytes
/// that are text are ignored.
pub open spec fn feed_effect(l: LinkView, g: GatewayView, data: Seq<u8>, mac: Seq<u8>, now: u64) -> FrameEffect {
    let all = l.rx + data;
    let dropped = LinkView { rx: Seq::empty(), ..l };
    let waiting = LinkView { rx: all, ..l };
    if l.rx.len() == 0 && opens_text(data) {
        ignored(l, g)
    } else if all.len() > 512 {
        FrameEffect { l: dropped, g, out: OutcomeView::Done }
    } else if all.len() < 6 {
        FrameEffect { l: waiting, g, out: OutcomeView::Done }
    } else {
        match total_len(all) {
            None => FrameEffect { l: dropped, g, out: OutcomeView::Done },
            Some(n) => if all.len() < n {
                FrameEffect { l: waiting, g, out: OutcomeView::Done }
            } else if all.len() > n {
                FrameEffect { l: dropped, g, out: OutcomeView::Done }
            } else {
                frame_effect(dropped, g, all, mac, now)
            },
        }
    }
}

/// Receives bytes; `Ignored` where they are text.
pub fn try_feed_binary_protocol(
    link: &mut BleLink,
    gw: &mut Gateway,
    data: &[u8],
    mac: &[u8; 6],
    now: u64,
) -> (r: FrameOutcome)
    ensures
        r@ == feed_effect(old(link)@, old(gw)@, data@, mac@, now).out,
        final(link)@ == feed_effect(old(link)@, old(gw)@, data@, mac@, now).l,
        final(gw)@ == feed_effect(old(link)@, old(gw)@, data@, mac@, now).g,
{
    if slice_of(&link.rx).len() == 0 {
        if data.len() >= 2 && data[0] == 0x41 && data[1] == 0x54 {
            return FrameOutcome::Ignored;
        }
        if data.len() == 1 && data[0] == 0x41 {
            assert(data@ =~= seq![0x41u8]);
            return FrameOutcome::Ignored;
        }
    }
    assert(!(link@.rx.len() == 0 && opens_text(data@)));
    let ghost dropped = LinkView { rx: Seq::empty(), ..link@ };
    if !try_extend(&mut link.rx, data) {
        wipe(&mut link.rx);
        assert(link@ =~= dropped);
        return FrameOutcome::Done;
    }
    assert(link@ =~= (LinkView { rx: old(link)@.rx + data@, ..old(link)@ }));
    let mut frame: Vec<u8> = Vec::new();
    let all = slice_of(&link.rx);
    if all.len() < 6 {
        return FrameOutcome::Done;
    }
    let complete: bool = match binary_frame_total_len(all) {
        Some(n) => {
            if all.len() < n {
                return FrameOutcome::Done;
            }
            all.len() == n
        },
        None => false,
    };
    if complete {
        frame = slice_to_vec(all);
    }
    wipe(&mut link.rx);
    assert(link@ =~= dropped);
    if complete {
        try_handle_binary_protocol(link, gw, frame.as_slice(), mac, now)
    } else {
        FrameOutcome::Done
    }
}

} // verus!

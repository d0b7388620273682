//! Read commands of the handheld.
//!
//! The handheld reads known blocks by address and count and expects a length byte
//! followed by the data in a form of its own.

use crate::bounded::{new_response, try_extend, try_push, Items};
use crate::bus::backends::{
    after_hold_read, after_input_read, coil, hold_reg, input_reg, read_coil, read_hold_reg, read_input_reg,
};
use crate::bytes::{be_bytes, hi, high, lo, low};
use crate::config::hw_version;
use crate::device::system_config::{CfgView, Rs485Config, SystemConfig};
use crate::gateway::{Gateway, GatewayView};
use crate::math::lesser;
use crate::text::{shown, until_zero, zero_position};
use vstd::prelude::*;
use vstd::slice::slice_subrange;
use vstd::utf8::encode_utf8;

verus! {

// ---- Parts of replies ----

/// Bytes, each as a big-endian word.
pub open spec fn widened(b: Seq<u8>) -> Seq<u8> {
    Seq::new(
        2 * b.len(),
        |i: int|
            if i % 2 == 0 {
                0
            } else {
                b[i / 2]
            },
    )
}

/// Data with a length byte in front.
pub open spec fn prefixed(data: Seq<u8>) -> Seq<u8> {
    seq![data.len() as u8] + data
}

/// A word, high byte first.
pub open spec fn be_word(v: u16) -> Seq<u8> {
    seq![hi(v), lo(v)]
}

/// At most the first `n` bytes.
pub open spec fn at_most(b: Seq<u8>, n: int) -> Seq<u8> {
    if b.len() > n {
        b.take(n)
    } else {
        b
    }
}

/// The code of a baud rate in the handheld's port settings; an unknown rate counts
/// as 9600.
pub open spec fn baud_index(baud: u32) -> u8 {
    if baud == 1200 {
        0
    } else if baud == 2400 {
        1
    } else if baud == 4800 {
        2
    } else if baud == 9600 {
        3
    } else if baud == 19200 {
        4
    } else if baud == 38400 {
        5
    } else if baud == 57600 {
        6
    } else if baud == 115200 {
        7
    } else if baud == 230400 {
        8
    } else if baud == 460800 {
        9
    } else if baud == 921600 {
        10
    } else {
        3
    }
}

/// The code of a baud rate in the handheld's port settings.
pub fn baud_to_index(baud: u32) -> (r: u8)
    ensures
        r == baud_index(baud),
        r <= 10,
{
    match baud {
        1200 => 0,
        2400 => 1,
        4800 => 2,
        9600 => 3,
        19200 => 4,
        38400 => 5,
        57600 => 6,
        115200 => 7,
        230400 => 8,
        460800 => 9,
        921600 => 10,
        _ => 3,
    }
}

/// Port settings as the handheld reads them: a packed byte, the mode, and the
/// address, retries, timeout and interval as words.
pub open spec fn port_data(p: Rs485Config) -> Seq<u8> {
    let packed = baud_index(p.baudrate) * 16 + (p.parity % 4) * 4 + (if p.stop_bits >= 2 {
        2int
    } else {
        0
    }) + (if p.data_bits == 7 {
        1int
    } else {
        0
    });
    seq![packed as u8, p.mode, 0, p.slave_addr] + be_word(p.retry_count) + be_word(p.timeout_ms) + be_word(
        p.interval_ms,
    )
}

fn extend_widened(d: &mut heapless::Vec<u8, 256>, b: &[u8])
    requires
        old(d).items().len() + 2 * b@.len() <= 256,
    ensures
        final(d).items() == old(d).items() + widened(b@),
{
    let mut i: usize = 0;
    assert(d.items() + widened(b@.take(0)) =~= d.items());
    while i < b.len()
        invariant
            i <= b@.len(),
            old(d).items().len() + 2 * b@.len() <= 256,
            d.items() == old(d).items() + widened(b@.take(i as int)),
        decreases b@.len() - i,
    {
        let _ = try_push(d, 0);
        let _ = try_push(d, b[i]);
        i += 1;
        assert(d.items() =~= old(d).items() + widened(b@.take(i as int)));
    }
    assert(b@.take(b@.len() as int) =~= b@);
}

fn extend_word(d: &mut heapless::Vec<u8, 256>, v: u16)
    requires
        old(d).items().len() + 2 <= 256,
    ensures
        final(d).items() == old(d).items() + be_word(v),
{
    let _ = try_push(d, high(v));
    let _ = try_push(d, low(v));
    assert(d.items() =~= old(d).items() + be_word(v));
}

// ---- Whole replies ----

/// Reply with unit, function, and data behind a length byte.
pub open spec fn reply_pdu(unit: u8, func: u8, data: Seq<u8>) -> Seq<u8> {
    seq![unit, func] + prefixed(data)
}

/// Makes a reply with unit, function, and data behind a length byte.
pub fn data_response(unit: u8, func: u8, data: &[u8]) -> (r: heapless::Vec<u8, 256>)
    requires
        data@.len() <= 250,
    ensures
        r.items() == reply_pdu(unit, func, data@),
{
    let mut d = new_response();
    let _ = try_push(&mut d, unit);
    let _ = try_push(&mut d, func);
    let _ = try_push(&mut d, data.len() as u8);
    let _ = try_extend(&mut d, data);
    assert(d.items() =~= reply_pdu(unit, func, data@));
    d
}

/// Makes a reply with words.
pub fn words_response(unit: u8, func: u8, words: &[u16]) -> (r: heapless::Vec<u8, 256>)
    requires
        words@.len() <= 125,
    ensures
        r.items() == reply_pdu(unit, func, be_bytes(words@)),
{
    let mut d = new_response();
    let _ = try_push(&mut d, unit);
    let _ = try_push(&mut d, func);
    let _ = try_push(&mut d, (words.len() * 2) as u8);
    let ghost head = d.items();
    let mut i: usize = 0;
    assert(head + be_bytes(words@.take(0)) =~= head);
    while i < words.len()
        invariant
            i <= words@.len() <= 125,
            head.len() == 3,
            d.items() == head + be_bytes(words@.take(i as int)),
        decreases words@.len() - i,
    {
        extend_word(&mut d, words[i]);
        i += 1;
        assert(d.items() =~= head + be_bytes(words@.take(i as int)));
    }
    assert(words@.take(words@.len() as int) =~= words@);
    assert(d.items() =~= reply_pdu(unit, func, be_bytes(words@)));
    d
}

/// Makes a reply with text, of which at most 250 bytes are sent.
pub fn text_response(unit: u8, func: u8, s: &str) -> (r: heapless::Vec<u8, 256>)
    ensures
        r.items() == reply_pdu(unit, func, at_most(encode_utf8(s@), 250)),
{
    let bytes = s.as_bytes();
    let n: usize = if bytes.len() > 250 {
        250
    } else {
        bytes.len()
    };
    let head = slice_subrange(bytes, 0, n);
    assert(head@ =~= at_most(encode_utf8(s@), 250));
    data_response(unit, func, head)
}

/// Settings that the fixed read commands report.
pub struct ReadSettings {
    pub ip: [u8; 4],
    pub mask: [u8; 4],
    pub gateway: [u8; 4],
    pub eth_mac: [u8; 6],
    /// The four bytes that are read as the BLE identity.
    pub ble_id: [u8; 4],
    pub hw_version: u16,
    pub fw_version: u16,
    pub fw_date: u16,
    pub do_count: u8,
    pub di_count: u8,
    pub ai_count: u8,
    pub rs485_count: u8,
}

/// Data of a fixed read command: hardware, firmware, product, network, MAC address
/// and BLE identity.
pub open spec fn fixed_data(s: ReadSettings, addr: u16, cnt: u16) -> Option<Seq<u8>> {
    if addr == 0x087C && cnt == 2 {
        Some(seq![s.do_count, s.di_count, s.ai_count, s.rs485_count])
    } else if addr == 0x087E && cnt == 2 {
        Some(be_word(s.fw_version) + be_word(s.fw_date))
    } else if addr == 0x08A5 && cnt == 1 {
        Some(be_word(s.hw_version))
    } else if addr == 0x08C7 && cnt == 12 {
        Some(widened(s.ip@) + widened(s.mask@) + widened(s.gateway@))
    } else if addr == 0x08D7 && cnt == 6 {
        Some(widened(s.eth_mac@))
    } else if addr == 0x08E2 && cnt == 4 {
        Some(s.ble_id@)
    } else {
        None
    }
}

/// Makes the reply to a fixed read command.
pub fn build_android_read_response_pdu(unit: u8, func: u8, reg_addr: u16, reg_cnt: u16, s: &ReadSettings) -> (r:
    Option<heapless::Vec<u8, 256>>)
    ensures
        r is Some <==> fixed_data(*s, reg_addr, reg_cnt) is Some,
        r is Some ==> r->0.items() == reply_pdu(unit, func, fixed_data(*s, reg_addr, reg_cnt)->0),
{
    let mut d = new_response();
    let _ = try_push(&mut d, unit);
    let _ = try_push(&mut d, func);
    if reg_addr == 0x087C && reg_cnt == 2 {
        let data: [u8; 5] = [4, s.do_count, s.di_count, s.ai_count, s.rs485_count];
        let _ = try_extend(&mut d, data.as_slice());
    } else if reg_addr == 0x087E && reg_cnt == 2 {
        let _ = try_push(&mut d, 4);
        extend_word(&mut d, s.fw_version);
        extend_word(&mut d, s.fw_date);
    } else if reg_addr == 0x08A5 && reg_cnt == 1 {
        let _ = try_push(&mut d, 2);
        extend_word(&mut d, s.hw_version);
    } else if reg_addr == 0x08C7 && reg_cnt == 12 {
        let _ = try_push(&mut d, 24);
        extend_widened(&mut d, s.ip.as_slice());
        extend_widened(&mut d, s.mask.as_slice());
        extend_widened(&mut d, s.gateway.as_slice());
    } else if reg_addr == 0x08D7 && reg_cnt == 6 {
        let _ = try_push(&mut d, 12);
        extend_widened(&mut d, s.eth_mac.as_slice());
    } else if reg_addr == 0x08E2 && reg_cnt == 4 {
        let _ = try_push(&mut d, 4);
        let _ = try_extend(&mut d, s.ble_id.as_slice());
    } else {
        return None;
    }
    assert(d.items() =~= reply_pdu(unit, func, fixed_data(*s, reg_addr, reg_cnt)->0));
    Some(d)
}

/// The BLE identity: the first four bytes of the name, up to its end.
pub open spec fn ble_id_of(c: CfgView) -> Seq<u8> {
    crate::device::system_config::padded(at_most(until_zero(c.ble_name), 4), 4)
}

/// Whether settings are those of a configuration on this board.
pub open spec fn settings_of(s: ReadSettings, c: CfgView) -> bool {
    &&& s.ip@ == c.ip
    &&& s.mask@ == c.mask
    &&& s.gateway@ == c.gateway
    &&& s.eth_mac@ == c.eth_mac
    &&& s.ble_id@ == ble_id_of(c)
    &&& s.hw_version == c.hw_version
    &&& s.fw_version == c.fw_version
    &&& s.fw_date == c.fw_date
    &&& s.do_count == hw_version::DO_COUNT
    &&& s.di_count == hw_version::DI_COUNT
    &&& s.ai_count == hw_version::AI_COUNT
    &&& s.rs485_count == 2
}

/// The settings of a configuration on this board.
pub fn read_settings(c: &SystemConfig) -> (r: ReadSettings)
    ensures
        settings_of(r, c@),
{
    let n: usize = zero_position(c.ble_name.as_slice());
    let mut id: [u8; 4] = [0u8; 4];
    let mut i: usize = 0;
    while i < 4
        invariant
            i <= 4,
            n == until_zero(c@.ble_name).len(),
            n <= 8,
            until_zero(c@.ble_name) == c@.ble_name.take(n as int),
            forall|j: int| 0 <= j < i ==> id@[j] == ble_id_of(c@)[j],
        decreases 4 - i,
    {
        id[i] = if i < n {
            c.ble_name[i]
        } else {
            0
        };
        i += 1;
    }
    assert(id@ =~= ble_id_of(c@));
    ReadSettings {
        ip: c.ip,
        mask: c.mask,
        gateway: c.gateway,
        eth_mac: c.eth_mac,
        ble_id: id,
        hw_version: c.hw_version,
        fw_version: c.fw_version,
        fw_date: c.fw_date,
        do_count: hw_version::DO_COUNT as u8,
        di_count: hw_version::DI_COUNT as u8,
        ai_count: hw_version::AI_COUNT as u8,
        rs485_count: 2,
    }
}

// ---- Reads of the register map ----

/// An address, held at the end of the address space.
pub open spec fn sat_addr(addr: u16, i: int) -> u16 {
    if addr + i > 0xFFFF {
        0xFFFF
    } else {
        (addr + i) as u16
    }
}

/// Words read one after another: the state after it, and the words.
pub struct Reads {
    pub g: GatewayView,
    pub words: Seq<u16>,
}

pub open spec fn word_or_zero(v: Option<u16>) -> u16 {
    match v {
        Some(x) => x,
        None => 0,
    }
}

/// `n` holding registers; one that does not exist reads as zero.
#[verifier::opaque]
pub open spec fn hold_words(g: GatewayView, addr: u16, n: nat) -> Reads
    decreases n,
{
    if n == 0 {
        Reads { g, words: Seq::empty() }
    } else {
        let b = hold_words(g, addr, (n - 1) as nat);
        let a = sat_addr(addr, n - 1);
        Reads { g: after_hold_read(b.g, a), words: b.words.push(word_or_zero(hold_reg(b.g, a))) }
    }
}

/// `n` input registers; one that does not exist reads as zero.
#[verifier::opaque]
pub open spec fn input_words(g: GatewayView, addr: u16, n: nat) -> Reads
    decreases n,
{
    if n == 0 {
        Reads { g, words: Seq::empty() }
    } else {
        let b = input_words(g, addr, (n - 1) as nat);
        let a = sat_addr(addr, n - 1);
        Reads { g: after_input_read(b.g, a), words: b.words.push(word_or_zero(input_reg(b.g, a))) }
    }
}

/// Reads holding registers one after another.
pub fn read_hold_words(gw: &mut Gateway, addr: u16, n: usize) -> (r: Vec<u16>)
    requires
        n <= 0xFFFF,
    ensures
        r@ == hold_words(old(gw)@, addr, n as nat).words,
        r@.len() == n,
        final(gw)@ == hold_words(old(gw)@, addr, n as nat).g,
{
    proof {
        reveal(hold_words);
    }
    let mut out: Vec<u16> = Vec::new();
    let mut i: usize = 0;
    while i < n
        invariant
            i <= n <= 0xFFFF,
            out@.len() == i,
            out@ == hold_words(old(gw)@, addr, i as nat).words,
            gw@ == hold_words(old(gw)@, addr, i as nat).g,
        decreases n - i,
    {
        proof {
            reveal(hold_words);
        }
        let v: u16 = match read_hold_reg(gw, addr.saturating_add(i as u16)) {
            Some(v) => v,
            None => 0,
        };
        out.push(v);
        i += 1;
    }
    out
}

/// Reads input registers one after another.
pub fn read_input_words(gw: &mut Gateway, addr: u16, n: usize) -> (r: Vec<u16>)
    requires
        n <= 0xFFFF,
    ensures
        r@ == input_words(old(gw)@, addr, n as nat).words,
        r@.len() == n,
        final(gw)@ == input_words(old(gw)@, addr, n as nat).g,
{
    proof {
        reveal(input_words);
    }
    let mut out: Vec<u16> = Vec::new();
    let mut i: usize = 0;
    while i < n
        invariant
            i <= n <= 0xFFFF,
            out@.len() == i,
            out@ == input_words(old(gw)@, addr, i as nat).words,
            gw@ == input_words(old(gw)@, addr, i as nat).g,
        decreases n - i,
    {
        proof {
            reveal(input_words);
        }
        let v: u16 = match read_input_reg(gw, addr.saturating_add(i as u16)) {
            Some(v) => v,
            None => 0,
        };
        out.push(v);
        i += 1;
    }
    out
}

/// Whether a point is on; one that does not exist is off.
pub open spec fn point_on(g: GatewayView, addr: int) -> bool {
    0 <= addr <= 0xFFFF && coil(g, addr as u16) == Some(true)
}

/// The first `j` of up to eight points from `addr` on, lowest bit first; `left` of
/// them count.
pub open spec fn point_byte(g: GatewayView, addr: int, left: int, j: nat) -> u8
    decreases j,
{
    if j == 0 {
        0
    } else {
        let before = point_byte(g, addr, left, (j - 1) as nat);
        if j - 1 < left && point_on(g, addr + j - 1) {
            before | (1u8 << ((j - 1) as u8))
        } else {
            before
        }
    }
}

/// `n` points from `addr` on, eight a byte.
#[verifier::opaque]
pub open spec fn point_bytes(g: GatewayView, addr: int, n: int) -> Seq<u8> {
    Seq::new(((n + 7) / 8) as nat, |k: int| point_byte(g, addr + 8 * k, n - 8 * k, 8))
}

fn read_point_byte(gw: &Gateway, addr: u16, left: usize) -> (r: u8)
    requires
        addr <= 0x1000,
    ensures
        r == point_byte(gw@, addr as int, left as int, 8),
{
    let mut acc: u8 = 0;
    let mut j: usize = 0;
    while j < 8
        invariant
            j <= 8,
            addr <= 0x1000,
            acc == point_byte(gw@, addr as int, left as int, j as nat),
        decreases 8 - j,
    {
        if j < left {
            let on: bool = match read_coil(gw, addr + j as u16) {
                Some(v) => v,
                None => false,
            };
            if on {
                acc = acc | (1u8 << (j as u8));
            }
        }
        j += 1;
    }
    acc
}

fn read_points(gw: &Gateway, addr: u16, n: usize) -> (r: Vec<u8>)
    requires
        addr <= 0x0200,
        n <= 2000,
    ensures
        r@ == point_bytes(gw@, addr as int, n as int),
        r@.len() == (n + 7) / 8,
{
    proof {
        reveal(point_bytes);
    }
    let size: usize = (n + 7) / 8;
    let mut out: Vec<u8> = Vec::new();
    let mut k: usize = 0;
    while k < size
        invariant
            k <= size,
            size == (n + 7) / 8,
            n <= 2000,
            addr <= 0x0200,
            out@.len() == k,
            forall|i: int| 0 <= i < k ==> out@[i] == #[trigger] point_bytes(gw@, addr as int, n as int)[i],
        decreases size - k,
    {
        proof {
            reveal(point_bytes);
        }
        out.push(read_point_byte(gw, addr + (8 * k) as u16, n - 8 * k));
        k += 1;
    }
    assert(out@ =~= point_bytes(gw@, addr as int, n as int));
    out
}

// ---- Dispatch ----

/// What a read command does: the state after it, and the data.
pub struct ReadEffect {
    pub g: GatewayView,
    pub data: Seq<u8>,
}

/// Reads by address: analogue inputs, points, and registers of the user's own. The
/// data always fits behind the length byte.
pub open spec fn open_read(g: GatewayView, func: u8, addr: u16, cnt: u16) -> Option<ReadEffect> {
    if addr == 0x0080 {
        let r = input_words(g, addr, lesser(cnt as int, hw_version::AI_COUNT as int) as nat);
        Some(ReadEffect { g: r.g, data: be_bytes(r.words) })
    } else if addr == 0x0000 || addr == 0x0200 {
        Some(ReadEffect { g, data: point_bytes(g, addr as int, lesser(cnt as int, 2000)) })
    } else if func == 0x04 && !(0x087C <= addr <= 0x087F) && addr < 0x4000 {
        let r = input_words(g, addr, lesser(cnt as int, 125) as nat);
        Some(ReadEffect { g: r.g, data: be_bytes(r.words) })
    } else if func == 0x03 && !(0x087C <= addr <= 0x08FF) && addr < 0x4000 {
        let r = hold_words(g, addr, lesser(cnt as int, 125) as nat);
        Some(ReadEffect { g: r.g, data: be_bytes(r.words) })
    } else {
        None
    }
}

/// Data of the fixed read commands of a configuration.
pub open spec fn config_data(c: CfgView, addr: u16, cnt: u16) -> Option<Seq<u8>> {
    if addr == 0x087C && cnt == 2 {
        Some(seq![hw_version::DO_COUNT as u8, hw_version::DI_COUNT as u8, hw_version::AI_COUNT as u8, 2])
    } else if addr == 0x087E && cnt == 2 {
        Some(be_word(c.fw_version) + be_word(c.fw_date))
    } else if addr == 0x08A5 && cnt == 1 {
        Some(be_word(c.hw_version))
    } else if addr == 0x08C7 && cnt == 12 {
        Some(widened(c.ip) + widened(c.mask) + widened(c.gateway))
    } else if addr == 0x08D7 && cnt == 6 {
        Some(widened(c.eth_mac))
    } else if addr == 0x08E2 && cnt == 4 {
        Some(ble_id_of(c))
    } else if addr == 0x0894 && cnt == 9 {
        Some(at_most(encode_utf8(shown(until_zero(c.sn))), 250))
    } else if addr == 0x089D && cnt == 8 {
        Some(at_most(encode_utf8(shown(until_zero(c.name))), 250))
    } else if (addr == 0x08A6 || addr == 0x08AB || addr == 0x08B0) && cnt == 5 {
        Some(port_data(c.rs485[(addr - 0x08A6) / 5]))
    } else {
        None
    }
}

/// What a read command does; `None` where it is not one of the handheld's.
pub open spec fn android_read(g: GatewayView, func: u8, addr: u16, cnt: u16) -> Option<ReadEffect> {
    if func != 0x03 && func != 0x04 {
        None
    } else {
        match g.config {
            None => None,
            Some(c) => match config_data(c, addr, cnt) {
                Some(data) => Some(ReadEffect { g, data }),
                None => open_read(g, func, addr, cnt),
            },
        }
    }
}

fn port_response(unit: u8, func: u8, p: &Rs485Config) -> (r: heapless::Vec<u8, 256>)
    ensures
        r.items() == reply_pdu(unit, func, port_data(*p)),
{
    let stop: u8 = if p.stop_bits >= 2 {
        2
    } else {
        0
    };
    let seven: u8 = if p.data_bits == 7 {
        1
    } else {
        0
    };
    let packed: u8 = baud_to_index(p.baudrate) * 16 + (p.parity % 4) * 4 + stop + seven;
    let data: [u8; 10] = [
        packed,
        p.mode,
        0,
        p.slave_addr,
        high(p.retry_count),
        low(p.retry_count),
        high(p.timeout_ms),
        low(p.timeout_ms),
        high(p.interval_ms),
        low(p.interval_ms),
    ];
    assert(data@ =~= port_data(*p));
    data_response(unit, func, data.as_slice())
}

fn config_response(c: &SystemConfig, unit: u8, func: u8, addr: u16, cnt: u16) -> (r: Option<heapless::Vec<u8, 256>>)
    ensures
        r is Some <==> config_data(c@, addr, cnt) is Some,
        r is Some ==> r->0.items() == reply_pdu(unit, func, config_data(c@, addr, cnt)->0),
{
    if addr == 0x0894 && cnt == 9 {
        let sn = c.sn_str();
        return Some(text_response(unit, func, sn.as_str()));
    }
    if addr == 0x089D && cnt == 8 {
        let name = c.name_str();
        return Some(text_response(unit, func, name.as_str()));
    }
    if (addr == 0x08A6 || addr == 0x08AB || addr == 0x08B0) && cnt == 5 {
        let port: usize = ((addr - 0x08A6) / 5) as usize;
        return Some(port_response(unit, func, &c.rs485[port]));
    }
    let s = read_settings(c);
    build_android_read_response_pdu(unit, func, addr, cnt, &s)
}

/// Carries out a read command of the handheld; `None` where it is not one.
pub fn handle_ble_android_read_command(gw: &mut Gateway, unit: u8, func: u8, reg_addr: u16, reg_cnt: u16) -> (r:
    Option<heapless::Vec<u8, 256>>)
    ensures
        r is Some <==> android_read(old(gw)@, func, reg_addr, reg_cnt) is Some,
        r is Some ==> r->0.items() == reply_pdu(unit, func, android_read(old(gw)@, func, reg_addr, reg_cnt)->0.data)
            && final(gw)@ == android_read(old(gw)@, func, reg_addr, reg_cnt)->0.g,
        r is None ==> final(gw)@ == old(gw)@,
{
    if func != 0x03 && func != 0x04 {
        return None;
    }
    let snapshot = match gw.config.snapshot.read() {
        Some(c) => c,
        None => {
            return None;
        },
    };
    if let Some(d) = config_response(&snapshot.cfg, unit, func, reg_addr, reg_cnt) {
        return Some(d);
    }
    if reg_addr == 0x0080 {
        let n: u16 = if reg_cnt < hw_version::AI_COUNT {
            reg_cnt
        } else {
            hw_version::AI_COUNT
        };
        let words = read_input_words(gw, reg_addr, n as usize);
        return Some(words_response(unit, func, words.as_slice()));
    }
    if reg_addr == 0x0000 || reg_addr == 0x0200 {
        let n: usize = if reg_cnt < 2000 {
            reg_cnt as usize
        } else {
            2000
        };
        let bytes = read_points(gw, reg_addr, n);
        return Some(data_response(unit, func, bytes.as_slice()));
    }
    let n: usize = if reg_cnt < 125 {
        reg_cnt as usize
    } else {
        125
    };
    if func == 0x04 && !(0x087C <= reg_addr && reg_addr <= 0x087F) && reg_addr < 0x4000 {
        let words = read_input_words(gw, reg_addr, n);
        return Some(words_response(unit, func, words.as_slice()));
    }
    if func == 0x03 && !(0x087C <= reg_addr && reg_addr <= 0x08FF) && reg_addr < 0x4000 {
        let words = read_hold_words(gw, reg_addr, n);
        return Some(words_response(unit, func, words.as_slice()));
    }
    None
}

// ---- Laws ----

proof fn lemma_word_counts(g: GatewayView, addr: u16, n: nat)
    ensures
        hold_words(g, addr, n).words.len() == n,
        input_words(g, addr, n).words.len() == n,
    decreases n,
{
    reveal(hold_words);
    reveal(input_words);
    if n > 0 {
        lemma_word_counts(g, addr, (n - 1) as nat);
    }
}

/// The data of every reply fits behind its length byte: what the length byte says is
/// what follows.
pub proof fn law_reply_is_complete(g: GatewayView, func: u8, addr: u16, cnt: u16)
    requires
        android_read(g, func, addr, cnt) is Some,
        g.config matches Some(c) && c.shaped(),
    ensures
        android_read(g, func, addr, cnt)->0.data.len() <= 250,
        prefixed(android_read(g, func, addr, cnt)->0.data)[0] == android_read(g, func, addr, cnt)->0.data.len(),
{
    reveal(point_bytes);
    lemma_word_counts(g, addr, lesser(cnt as int, hw_version::AI_COUNT as int) as nat);
    lemma_word_counts(g, addr, lesser(cnt as int, 125) as nat);
}

/// The network reply is 24 bytes behind its length byte, whatever the settings are.
pub proof fn law_network_reply_is_never_cut(c: CfgView)
    requires
        c.shaped(),
    ensures
        config_data(c, 0x08C7, 12) matches Some(d) && prefixed(d).len() == 25 && prefixed(d)[0] == 24,
{
}

} // verus!

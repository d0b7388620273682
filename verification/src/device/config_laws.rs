//! Laws of the configuration registers and of the stored configuration.

use crate::device::system_config::{
    baud_code, baud_rate, blob_byte, blob_port, cfg_blob, cfg_default, cfg_of_blob, cfg_read, cfg_write, cfg_write_result,
    port_byte, port_word, port_with_word, CfgView, Rs485Config,
};
use vstd::prelude::*;

verus! {

/// The baud rates of codes 1 to 15.
pub open spec fn standard_rates() -> Seq<u32> {
    seq![1200, 2400, 4800, 9600, 14400, 19200, 38400, 57600, 115200, 128000, 153600, 230400, 256000, 460800, 921600]
}

/// A higher baud code is a higher rate.
pub proof fn law_rates_rise_with_their_codes(a: int, b: int)
    requires
        1 <= a < b <= 15,
    ensures
        baud_rate(a) < baud_rate(b),
        baud_rate(a) == standard_rates()[a - 1],
        baud_rate(b) == standard_rates()[b - 1],
        baud_code(baud_rate(a)) == a,
{
}

/// The first register of a serial port's block, 2214, 2219 or 2224, sets its line: the
/// rate of the code in the highest four bits, the parity in the next two, the second
/// stop bit, the seventh data bit, and the master where the low byte is 1. The rest of
/// the port and the other ports stay.
pub proof fn law_line_register_sets_the_line(c: CfgView, i: int, addr: u16, v: u16)
    requires
        c.shaped(),
        0 <= i < 3,
        addr == 2214 + 5 * i,
    ensures
        ({
            let d = cfg_write(c, addr, v);
            let p = d.rs485[i];
            let code = v as int / 4096;
            &&& d == (CfgView { rs485: c.rs485.update(i, p), ..c })
            &&& p == (Rs485Config {
                baudrate: p.baudrate,
                parity: p.parity,
                stop_bits: p.stop_bits,
                data_bits: p.data_bits,
                mode: p.mode,
                ..c.rs485[i]
            })
            &&& code >= 1 ==> p.baudrate == standard_rates()[code - 1]
            &&& code == 0 ==> p.baudrate == 9600
            &&& p.parity < 4
            &&& p.stop_bits == 1 || p.stop_bits == 2
            &&& p.data_bits == 7 || p.data_bits == 8
            &&& p.mode == 0 || p.mode == 1
            &&& p.mode == 0 <==> v % 256 == 1
            &&& v == code * 4096 + p.parity * 1024 + (p.stop_bits - 1) * 512 + (8 - p.data_bits) * 256 + v % 256
        }),
{
    lemma_line_word(c.rs485[i], v);
    assert(5 * i / 5 == i && (5 * i) % 5 == 0);
}

proof fn lemma_line_word(p: Rs485Config, v: u16)
    ensures
        ({
            let q = port_with_word(p, v);
            let code = v as int / 4096;
            &&& code >= 1 ==> q.baudrate == standard_rates()[code - 1]
            &&& code == 0 ==> q.baudrate == 9600
            &&& q.parity < 4
            &&& q.stop_bits == 1 || q.stop_bits == 2
            &&& q.data_bits == 7 || q.data_bits == 8
            &&& v == code * 4096 + q.parity * 1024 + (q.stop_bits - 1) * 512 + (8 - q.data_bits) * 256 + v % 256
        }),
{
    let h = v as int / 256;
    assert(v as int / 512 == h / 2);
    assert(v as int / 1024 == h / 4);
    assert(v as int / 4096 == h / 16);
    assert(h / 4 == (h / 16) * 4 + (h / 4) % 4);
    assert(h / 2 == (h / 4) * 2 + (h / 2) % 2);
    assert(h == (h / 2) * 2 + h % 2);
    let code = v as int / 4096;
    assert(0 <= code <= 15);
    if code >= 1 {
        assert(baud_rate(code) == standard_rates()[code - 1]);
    }
}

/// The first register of a serial port's block reads as its line: the code of the
/// rate, 4 for a rate without a code, then parity, second stop bit, seventh data bit
/// and master.
pub proof fn law_line_register_shows_the_line(c: CfgView, i: int, addr: u16, code: int)
    requires
        c.shaped(),
        0 <= i < 3,
        addr == 2214 + 5 * i,
        1 <= code <= 15,
        c.rs485[i].parity < 4,
        1 <= c.rs485[i].stop_bits <= 2,
        c.rs485[i].baudrate == standard_rates()[code - 1] || (code == 4 && !standard_rates().contains(
            c.rs485[i].baudrate,
        )),
    ensures
        ({
            let p = c.rs485[i];
            cfg_read(c, addr) == Some(
                (code * 4096 + p.parity * 1024 + (p.stop_bits - 1) * 512 + (if p.data_bits == 7 {
                    256int
                } else {
                    0
                }) + (if p.mode == 0 {
                    1int
                } else {
                    0
                })) as u16,
            )
        }),
{
    let p = c.rs485[i];
    assert(5 * i / 5 == i && (5 * i) % 5 == 0);
    if p.baudrate == standard_rates()[code - 1] {
        assert(baud_code(p.baudrate) == code);
    } else {
        lemma_no_code(p.baudrate);
    }
    assert(port_word(p) == cfg_read(c, addr)->0);
}

proof fn lemma_no_code(baud: u32)
    requires
        !standard_rates().contains(baud),
    ensures
        baud_code(baud) == 4,
{
    let s = standard_rates();
    assert forall|k: int| 0 <= k < 15 implies s[k] != baud by {
        assert(s.contains(s[k]));
    }
    assert(s[0] == 1200 && s[1] == 2400 && s[2] == 4800 && s[3] == 9600 && s[4] == 14400 && s[5] == 19200);
    assert(s[6] == 38400 && s[7] == 57600 && s[8] == 115200 && s[9] == 128000 && s[10] == 153600);
    assert(s[11] == 230400 && s[12] == 256000 && s[13] == 460800 && s[14] == 921600);
}

/// The other four registers of a serial port's block are its address, retries, timeout
/// and interval.
pub proof fn law_port_registers(c: CfgView, i: int, addr: u16, v: u16)
    requires
        c.shaped(),
        0 <= i < 3,
        addr == 2214 + 5 * i,
    ensures
        cfg_read(c, (addr + 1) as u16) == Some(c.rs485[i].slave_addr as u16),
        cfg_read(c, (addr + 2) as u16) == Some(c.rs485[i].retry_count),
        cfg_read(c, (addr + 3) as u16) == Some(c.rs485[i].timeout_ms),
        cfg_read(c, (addr + 4) as u16) == Some(c.rs485[i].interval_ms),
        cfg_write(c, (addr + 1) as u16, v) == (CfgView {
            rs485: c.rs485.update(i, Rs485Config { slave_addr: (v % 256) as u8, ..c.rs485[i] }),
            ..c
        }),
        cfg_write(c, (addr + 2) as u16, v) == (CfgView {
            rs485: c.rs485.update(i, Rs485Config { retry_count: v, ..c.rs485[i] }),
            ..c
        }),
        cfg_write(c, (addr + 3) as u16, v) == (CfgView {
            rs485: c.rs485.update(i, Rs485Config { timeout_ms: v, ..c.rs485[i] }),
            ..c
        }),
        cfg_write(c, (addr + 4) as u16, v) == (CfgView {
            rs485: c.rs485.update(i, Rs485Config { interval_ms: v, ..c.rs485[i] }),
            ..c
        }),
{
    assert((5 * i + 1) / 5 == i && (5 * i + 2) / 5 == i && (5 * i + 3) / 5 == i && (5 * i + 4) / 5 == i);
}

/// A text field with the two characters of a word, high byte first, at word `k`.
pub open spec fn text_after(s: Seq<u8>, k: int, v: u16) -> Seq<u8> {
    Seq::new(
        s.len(),
        |j: int|
            if j == 2 * k {
                (v / 256) as u8
            } else if j == 2 * k + 1 {
                (v % 256) as u8
            } else {
                s[j]
            },
    )
}

/// The text registers hold two characters each, high byte first: the serial number
/// from 2196, the place name from 2205, the BLE name from 2274.
pub proof fn law_text_registers(c: CfgView, k: int, v: u16)
    requires
        c.shaped(),
        0 <= k,
    ensures
        k < 9 ==> cfg_read(c, (2196 + k) as u16) == Some((256 * c.sn[2 * k] + c.sn[2 * k + 1]) as u16),
        k < 9 ==> cfg_write(c, (2196 + k) as u16, v) == (CfgView { sn: text_after(c.sn, k, v), ..c }),
        k < 8 ==> cfg_read(c, (2205 + k) as u16) == Some((256 * c.name[2 * k] + c.name[2 * k + 1]) as u16),
        k < 8 ==> cfg_write(c, (2205 + k) as u16, v) == (CfgView { name: text_after(c.name, k, v), ..c }),
        k < 4 ==> cfg_read(c, (2274 + k) as u16) == Some((256 * c.ble_name[2 * k] + c.ble_name[2 * k + 1]) as u16),
        k < 4 ==> cfg_write(c, (2274 + k) as u16, v) == (CfgView { ble_name: text_after(c.ble_name, k, v), ..c }),
{
    if k < 9 {
        assert(cfg_write(c, (2196 + k) as u16, v).sn =~= text_after(c.sn, k, v));
    }
    if k < 8 {
        assert(cfg_write(c, (2205 + k) as u16, v).name =~= text_after(c.name, k, v));
    }
    if k < 4 {
        assert(cfg_write(c, (2274 + k) as u16, v).ble_name =~= text_after(c.ble_name, k, v));
    }
}

/// The network registers hold one byte each: address from 2247, mask from 2251,
/// gateway from 2255, name server from 2259, MAC address from 2263. The high byte of
/// what is written is left out.
pub proof fn law_network_registers(c: CfgView, k: int, v: u16)
    requires
        c.shaped(),
        0 <= k,
    ensures
        k < 4 ==> cfg_read(c, (2247 + k) as u16) == Some(c.ip[k] as u16),
        k < 4 ==> cfg_read(c, (2251 + k) as u16) == Some(c.mask[k] as u16),
        k < 4 ==> cfg_read(c, (2255 + k) as u16) == Some(c.gateway[k] as u16),
        k < 4 ==> cfg_read(c, (2259 + k) as u16) == Some(c.dns[k] as u16),
        k < 6 ==> cfg_read(c, (2263 + k) as u16) == Some(c.eth_mac[k] as u16),
        k < 4 ==> cfg_write(c, (2247 + k) as u16, v) == (CfgView { ip: c.ip.update(k, (v % 256) as u8), ..c }),
        k < 4 ==> cfg_write(c, (2251 + k) as u16, v) == (CfgView { mask: c.mask.update(k, (v % 256) as u8), ..c }),
        k < 4 ==> cfg_write(c, (2255 + k) as u16, v) == (CfgView {
            gateway: c.gateway.update(k, (v % 256) as u8),
            ..c
        }),
        k < 4 ==> cfg_write(c, (2259 + k) as u16, v) == (CfgView { dns: c.dns.update(k, (v % 256) as u8), ..c }),
        k < 6 ==> cfg_write(c, (2263 + k) as u16, v) == (CfgView {
            eth_mac: c.eth_mac.update(k, (v % 256) as u8),
            ..c
        }),
{
}

/// The single registers: hardware version 2213, firmware version 0x087E, version of the
/// configuration 0xFF00, DHCP switch 0xFF03, and the listening ports from 2243, which
/// take any number but zero. Applying and resetting read as zero, and so do the error
/// counters.
pub proof fn law_single_registers(c: CfgView, k: int, v: u16)
    requires
        c.shaped(),
        0 <= k < 4,
    ensures
        cfg_read(c, 2213) == Some(c.hw_version),
        cfg_read(c, 0x087E) == Some(c.fw_version),
        cfg_read(c, 0xFF00) == Some(c.cfg_version),
        cfg_read(c, 0xFF01) == Some(0u16),
        cfg_read(c, 0xFF02) == Some(0u16),
        cfg_read(c, 0xFF03) == Some(
            if c.dhcp {
                1u16
            } else {
                0
            },
        ),
        cfg_read(c, (0x0880 + k) as u16) == Some(0u16),
        cfg_read(c, (2243 + k) as u16) == Some(c.tcp_ports[k]),
        cfg_write(c, 2213, v) == (CfgView { hw_version: v, ..c }),
        cfg_write(c, 0x087E, v) == (CfgView { fw_version: v, ..c }),
        cfg_write(c, 0xFF00, v) == (CfgView { cfg_version: v, ..c }),
        cfg_write(c, 0xFF01, v) == c,
        cfg_write(c, 0xFF02, v) == c,
        cfg_write(c, 0xFF03, v) == (CfgView { dhcp: v != 0, ..c }),
        v != 0 ==> cfg_write(c, (2243 + k) as u16, v) == (CfgView { tcp_ports: c.tcp_ports.update(k, v), ..c }),
        cfg_write(c, (2243 + k) as u16, 0) == c,
        cfg_write_result((2243 + k) as u16, 0) is NotFound,
{
}

/// Whether a register is one of the configuration's that can be written.
pub open spec fn is_setting(addr: u16) -> bool {
    ||| 2196 <= addr <= 2228
    ||| 2243 <= addr <= 2268
    ||| 2274 <= addr <= 2277
    ||| addr == 0x087E
    ||| 0xFF00 <= addr <= 0xFF03
}

/// What a write asks for: network settings, DHCP and the apply register are applied;
/// names, the hardware version, the serial and the listening ports are persisted; the
/// versions are only written; 0xD5D5 in 0xFF02 resets. Any other register is not found.
pub proof fn law_writes_ask_for(addr: u16, v: u16)
    ensures
        ({
            let r = cfg_write_result(addr, v);
            let applied = 2247 <= addr <= 2268 || addr == 0xFF01 || addr == 0xFF03;
            let persisted = 2196 <= addr <= 2228 || 2274 <= addr <= 2277 || (2243 <= addr <= 2246 && v != 0);
            let reset = addr == 0xFF02 && v == 0xD5D5;
            &&& applied <==> r is Apply
            &&& persisted <==> r is Persist
            &&& reset <==> r is Reset
            &&& !is_setting(addr) || (2243 <= addr <= 2246 && v == 0) <==> r is NotFound
            &&& addr == 0x087E || addr == 0xFF00 ==> r is Written
        }),
{
}

/// A register that can neither be written nor shows errors has no configuration value.
pub proof fn law_other_registers_hold_no_setting(c: CfgView, addr: u16, v: u16)
    requires
        !is_setting(addr),
    ensures
        cfg_write(c, addr, v) == c,
        cfg_read(c, addr) is Some <==> 0x0880 <= addr <= 0x0883,
{
}

// ---- The stored form ----

/// The stored form keeps every field at its place, numbers low byte first.
pub proof fn law_stored_fields_have_their_places(c: CfgView, k: int)
    requires
        c.shaped(),
        0 <= k,
    ensures
        ({
            let b = cfg_blob(c);
            &&& b.len() == 152
            &&& k < 32 ==> b[k] == c.sn[k]
            &&& k < 16 ==> b[32 + k] == c.name[k]
            &&& b[48] + 256 * b[49] == c.hw_version
            &&& b[50] + 256 * b[51] == c.fw_version
            &&& b[52] + 256 * b[53] == c.cfg_version
            &&& k < 6 ==> b[54 + k] == c.eth_mac[k]
            &&& b[60] == 1 <==> c.dhcp
            &&& b[60] <= 1
            &&& k < 4 ==> b[61 + k] == c.ip[k]
            &&& k < 4 ==> b[65 + k] == c.mask[k]
            &&& k < 4 ==> b[69 + k] == c.gateway[k]
            &&& k < 4 ==> b[73 + k] == c.dns[k]
            &&& k < 6 ==> b[77 + k] == c.ble_mac[k]
            &&& k < 8 ==> b[83 + k] == c.ble_name[k]
            &&& b[91] == 0
            &&& k < 4 ==> b[137 + 2 * k] + 256 * b[138 + 2 * k] == c.tcp_ports[k]
            &&& k < 7 ==> b[145 + k] == 0
        }),
{
    let b = cfg_blob(c);
    crate::bytes::law_word_of_bytes(c.hw_version);
    crate::bytes::law_word_of_bytes(c.fw_version);
    crate::bytes::law_word_of_bytes(c.cfg_version);
    if k < 4 {
        assert((2 * k) / 2 == k && (2 * k) % 2 == 0 && (2 * k + 1) / 2 == k && (2 * k + 1) % 2 == 1);
        assert(b[137 + 2 * k] == blob_byte(c, 137 + 2 * k));
        assert(b[138 + 2 * k] == blob_byte(c, 138 + 2 * k));
    }
}

/// The stored form of a serial port takes 15 bytes from 92, 107 or 122 on.
pub proof fn law_stored_ports_have_their_places(c: CfgView, i: int)
    requires
        c.shaped(),
        0 <= i < 3,
    ensures
        ({
            let b = cfg_blob(c);
            let at = 92 + 15 * i;
            let p = c.rs485[i];
            &&& b[at] + 256 * b[at + 1] + 65536 * b[at + 2] + 16777216 * b[at + 3] == p.baudrate
            &&& b[at + 4] == p.data_bits
            &&& b[at + 5] == p.stop_bits
            &&& b[at + 6] == p.parity
            &&& b[at + 7] == p.slave_addr
            &&& b[at + 8] == p.mode
            &&& b[at + 9] + 256 * b[at + 10] == p.retry_count
            &&& b[at + 11] + 256 * b[at + 12] == p.timeout_ms
            &&& b[at + 13] + 256 * b[at + 14] == p.interval_ms
        }),
{
    let b = cfg_blob(c);
    let at = 92 + 15 * i;
    let p = c.rs485[i];
    assert forall|k: int| 0 <= k < 15 implies #[trigger] b[at + k] == port_byte(p, k) by {
        assert((15 * i + k) / 15 == i && (15 * i + k) % 15 == k);
        assert(b[at + k] == blob_byte(c, at + k));
    }
    assert(b[at + 0] == port_byte(p, 0));
    crate::bytes::law_dword_of_bytes(p.baudrate);
    assert(b[at + 1] == port_byte(p, 1) && b[at + 2] == port_byte(p, 2) && b[at + 3] == port_byte(p, 3));
    assert(b[at + 9] == port_byte(p, 9) && b[at + 10] == port_byte(p, 10));
    assert(b[at + 11] == port_byte(p, 11) && b[at + 12] == port_byte(p, 12));
    assert(b[at + 13] == port_byte(p, 13) && b[at + 14] == port_byte(p, 14));
}

/// A zero stands for the usual value in the fields of a stored form that must not be
/// zero.
pub proof fn law_stored_zeros_stand_for_the_usual(b: Seq<u8>, i: int, k: int)
    requires
        b.len() >= 145,
        0 <= i < 3,
        0 <= k < 4,
    ensures
        ({
            let c = cfg_of_blob(b);
            let at = 92 + 15 * i;
            let p = c.rs485[i];
            &&& p.baudrate == 9600 || p.baudrate != 0
            &&& b[at] == 0 && b[at + 1] == 0 && b[at + 2] == 0 && b[at + 3] == 0 ==> p.baudrate == 9600
            &&& b[at + 4] == 0 ==> p.data_bits == 8
            &&& b[at + 4] != 0 ==> p.data_bits == b[at + 4]
            &&& b[at + 5] == 0 ==> p.stop_bits == 1
            &&& b[at + 5] != 0 ==> p.stop_bits == b[at + 5]
            &&& b[137 + 2 * k] == 0 && b[138 + 2 * k] == 0 ==> c.tcp_ports[k] == seq![502u16, 503, 504, 5002][k]
            &&& b[137 + 2 * k] != 0 || b[138 + 2 * k] != 0 ==> c.tcp_ports[k] == b[137 + 2 * k] + 256 * b[138 + 2
                * k]
        }),
{
    let p = cfg_of_blob(b).rs485[i];
    assert(p == blob_port(b, 92 + 15 * i)) by {
        assert(i == 0 || i == 1 || i == 2);
    }
}


/// A stored form of 144 bytes or more is taken field by field; the listening ports are
/// the usual ones where it has no more. A shorter one stands for the factory settings.
pub proof fn law_stored_form_is_taken(b: Seq<u8>, k: int)
    requires
        0 <= k,
    ensures
        ({
            let c = cfg_of_blob(b);
            &&& b.len() < 144 ==> c == cfg_default()
            &&& b.len() >= 144 ==> {
                &&& k < 32 ==> c.sn[k] == b[k]
                &&& k < 16 ==> c.name[k] == b[32 + k]
                &&& c.hw_version == b[48] + 256 * b[49]
                &&& c.fw_version == b[50] + 256 * b[51]
                &&& c.cfg_version == b[52] + 256 * b[53]
                &&& k < 6 ==> c.eth_mac[k] == b[54 + k]
                &&& c.dhcp <==> b[60] != 0
                &&& k < 4 ==> c.ip[k] == b[61 + k]
                &&& k < 4 ==> c.mask[k] == b[65 + k]
                &&& k < 4 ==> c.gateway[k] == b[69 + k]
                &&& k < 4 ==> c.dns[k] == b[73 + k]
                &&& k < 6 ==> c.ble_mac[k] == b[77 + k]
                &&& k < 8 ==> c.ble_name[k] == b[83 + k]
                &&& c.rs485.len() == 3
                &&& k < 3 ==> c.rs485[k].parity == b[98 + 15 * k] && c.rs485[k].slave_addr == b[99 + 15 * k]
                    && c.rs485[k].mode == b[100 + 15 * k]
                &&& k < 3 ==> c.rs485[k].retry_count == b[101 + 15 * k] + 256 * b[102 + 15 * k]
                &&& k < 3 ==> c.rs485[k].timeout_ms == b[103 + 15 * k] + 256 * b[104 + 15 * k]
                &&& k < 3 ==> c.rs485[k].interval_ms == b[105 + 15 * k] + 256 * b[106 + 15 * k]
                &&& b.len() == 144 ==> c.tcp_ports == seq![502u16, 503, 504, 5002]
            }
        }),
{
    if b.len() >= 144 && k < 3 {
        let p = cfg_of_blob(b).rs485[k];
        assert(p == blob_port(b, 92 + 15 * k)) by {
            assert(k == 0 || k == 1 || k == 2);
        }
    }
}

/// The factory settings: "ESP32-001", "GW-ESP32" and "Mesh", 192.168.51.221 without DHCP,
/// three ports at 9600 8N1, of which the third is a slave, and the usual listening ports.
pub proof fn law_factory_settings(k: int)
    requires
        0 <= k,
    ensures
        ({
            let c = cfg_default();
            let sn = seq![0x45u8, 0x53, 0x50, 0x33, 0x32, 0x2D, 0x30, 0x30, 0x31];
            let name = seq![0x47u8, 0x57, 0x2D, 0x45, 0x53, 0x50, 0x33, 0x32];
            let ble = seq![0x4Du8, 0x65, 0x73, 0x68];
            &&& c.shaped()
            &&& k < 32 ==> c.sn[k] == if k < 9 {
                sn[k]
            } else {
                0
            }
            &&& k < 16 ==> c.name[k] == if k < 8 {
                name[k]
            } else {
                0
            }
            &&& k < 8 ==> c.ble_name[k] == if k < 4 {
                ble[k]
            } else {
                0
            }
            &&& c.ip == seq![192u8, 168, 51, 221] && c.mask == seq![255u8, 255, 255, 0]
            &&& c.gateway == seq![192u8, 168, 51, 1] && c.dns == c.gateway
            &&& !c.dhcp && !c.ble_mesh_enable && c.cfg_version == 0
            &&& k < 6 ==> c.eth_mac[k] == 0 && c.ble_mac[k] == 0
            &&& k < 3 ==> c.rs485[k] == (Rs485Config {
                baudrate: 9600,
                data_bits: 8,
                stop_bits: 1,
                parity: 0,
                slave_addr: 1,
                mode: if k == 2 {
                    1
                } else {
                    0
                },
                retry_count: 0,
                timeout_ms: 1000,
                interval_ms: 20,
            })
            &&& c.tcp_ports == seq![502u16, 503, 504, 5002]
            &&& c.hw_version == 0x00F3 && c.fw_version == 221 && c.fw_date == 0x0615
        }),
{
    if k < 3 {
        assert(k == 0 || k == 1 || k == 2);
    }
}

} // verus!

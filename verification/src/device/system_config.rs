//! System configuration: identity, network, BLE and serial-port settings, their
//! registers and their persistent form.

use crate::bytes::{
    byte_of, dbyte, get_le16, get_le32, hi, high, le16_at, le32_at, lo, low, make_word, word,
};
use crate::config::{hw_version, regs, APP_VERSION};
use crate::text::{
    chars, dec, field_text, hex, shown, number, parse_number, push_dec, push_hex, split, split_at_each,
    until_zero,
};
use vstd::prelude::*;

verus! {

/// NVS key of the configuration blob.
pub const NVS_KEY_BLOB: &'static str = "sys_cfg";

/// NVS key of the mark that a blob was stored.
pub const NVS_KEY_MAGIC: &'static str = "sys_cfg_mag";

/// The mark, "GWCF".
pub const NVS_MAGIC: u32 = 0x4757_4346;

/// Size of the blob.
pub const CFG_BLOB_SIZE: usize = 152;

/// Size of the blob before it held the TCP ports.
pub const CFG_BLOB_LEGACY_SIZE: usize = 144;

/// Channels of the sensor calibration registers.
pub const SENSOR_CHANNELS: usize = 8;

/// Settings of a serial port.
#[derive(Clone, Copy, Debug, PartialEq, Eq, Structural)]
pub struct Rs485Config {
    pub baudrate: u32,
    pub data_bits: u8,
    pub stop_bits: u8,
    /// 0 none, 1 odd, 2 even.
    pub parity: u8,
    pub slave_addr: u8,
    /// 0 master, 1 slave, 2 gateway, 3 transparent.
    pub mode: u8,
    pub retry_count: u16,
    pub timeout_ms: u16,
    pub interval_ms: u16,
}

/// 9600 baud, 8 data bits, 1 stop bit, no parity, in the given mode.
pub open spec fn rs485_default(mode: u8) -> Rs485Config {
    Rs485Config {
        baudrate: 9600,
        data_bits: 8,
        stop_bits: 1,
        parity: 0,
        slave_addr: 1,
        mode,
        retry_count: 0,
        timeout_ms: 1000,
        interval_ms: 20,
    }
}

impl Default for Rs485Config {
    fn default() -> (r: Self)
        ensures
            r == rs485_default(0),
    {
        Rs485Config {
            baudrate: 9600,
            data_bits: 8,
            stop_bits: 1,
            parity: 0,
            slave_addr: 1,
            mode: 0,
            retry_count: 0,
            timeout_ms: 1000,
            interval_ms: 20,
        }
    }
}

/// The system configuration.
#[derive(Clone, Copy, Debug)]
pub struct SystemConfig {
    pub sn: [u8; 32],
    pub name: [u8; 16],
    pub hw_version: u16,
    pub fw_version: u16,
    /// Firmware date code, month and day.
    pub fw_date: u16,
    pub cfg_version: u16,
    pub eth_mac: [u8; 6],
    pub dhcp: bool,
    pub ip: [u8; 4],
    pub mask: [u8; 4],
    pub gateway: [u8; 4],
    pub dns: [u8; 4],
    pub ble_mac: [u8; 6],
    pub ble_name: [u8; 8],
    pub ble_mesh_enable: bool,
    pub rs485: [Rs485Config; 3],
    pub tcp_ports: [u16; 4],
}

/// The configuration as plain values.
#[verifier::ext_equal]
pub struct CfgView {
    pub sn: Seq<u8>,
    pub name: Seq<u8>,
    pub hw_version: u16,
    pub fw_version: u16,
    pub fw_date: u16,
    pub cfg_version: u16,
    pub eth_mac: Seq<u8>,
    pub dhcp: bool,
    pub ip: Seq<u8>,
    pub mask: Seq<u8>,
    pub gateway: Seq<u8>,
    pub dns: Seq<u8>,
    pub ble_mac: Seq<u8>,
    pub ble_name: Seq<u8>,
    pub ble_mesh_enable: bool,
    pub rs485: Seq<Rs485Config>,
    pub tcp_ports: Seq<u16>,
}

impl View for SystemConfig {
    type V = CfgView;

    open spec fn view(&self) -> CfgView {
        CfgView {
            sn: self.sn@,
            name: self.name@,
            hw_version: self.hw_version,
            fw_version: self.fw_version,
            fw_date: self.fw_date,
            cfg_version: self.cfg_version,
            eth_mac: self.eth_mac@,
            dhcp: self.dhcp,
            ip: self.ip@,
            mask: self.mask@,
            gateway: self.gateway@,
            dns: self.dns@,
            ble_mac: self.ble_mac@,
            ble_name: self.ble_name@,
            ble_mesh_enable: self.ble_mesh_enable,
            rs485: self.rs485@,
            tcp_ports: self.tcp_ports@,
        }
    }
}

impl CfgView {
    /// The fields have the lengths that a configuration has.
    pub open spec fn shaped(self) -> bool {
        &&& self.sn.len() == 32
        &&& self.name.len() == 16
        &&& self.eth_mac.len() == 6
        &&& self.ip.len() == 4
        &&& self.mask.len() == 4
        &&& self.gateway.len() == 4
        &&& self.dns.len() == 4
        &&& self.ble_mac.len() == 6
        &&& self.ble_name.len() == 8
        &&& self.rs485.len() == 3
        &&& self.tcp_ports.len() == 4
    }
}

/// What a register write asks of the caller.
#[derive(Debug, Clone, Copy, PartialEq, Eq, Structural)]
pub enum WriteResult {
    /// Written; nothing to persist.
    Written,
    /// Written; persist, the version stays.
    Persist,
    /// Written; persist and raise the version.
    Apply,
    /// Restore the factory settings and persist them.
    Reset,
    /// Not a configuration register.
    NotFound,
}

// ---- Registers ----

/// Register code of a baud rate; an unknown rate counts as 9600.
pub open spec fn baud_code(baud: u32) -> u16 {
    if baud == 1200 {
        1
    } else if baud == 2400 {
        2
    } else if baud == 4800 {
        3
    } else if baud == 9600 {
        4
    } else if baud == 14400 {
        5
    } else if baud == 19200 {
        6
    } else if baud == 38400 {
        7
    } else if baud == 57600 {
        8
    } else if baud == 115200 {
        9
    } else if baud == 128000 {
        10
    } else if baud == 153600 {
        11
    } else if baud == 230400 {
        12
    } else if baud == 256000 {
        13
    } else if baud == 460800 {
        14
    } else if baud == 921600 {
        15
    } else {
        4
    }
}

/// Baud rate of a register code.
pub open spec fn baud_rate(code: int) -> u32 {
    if code == 1 {
        1200
    } else if code == 2 {
        2400
    } else if code == 3 {
        4800
    } else if code == 5 {
        14400
    } else if code == 6 {
        19200
    } else if code == 7 {
        38400
    } else if code == 8 {
        57600
    } else if code == 9 {
        115200
    } else if code == 10 {
        128000
    } else if code == 11 {
        153600
    } else if code == 12 {
        230400
    } else if code == 13 {
        256000
    } else if code == 14 {
        460800
    } else if code == 15 {
        921600
    } else {
        9600
    }
}

/// First word of a port block: baud code in bits 15-12, parity in 11-10, a
/// second stop bit in 9, seven data bits in 8, master in the low byte.
pub open spec fn port_word(p: Rs485Config) -> u16 {
    (baud_code(p.baudrate) * 4096 + (p.parity % 4) * 1024 + (if p.stop_bits == 0 {
        0
    } else {
        (p.stop_bits - 1) % 2
    }) * 512 + (if p.data_bits == 7 {
        256int
    } else {
        0
    }) + (if p.mode == 0 {
        1int
    } else {
        0
    })) as u16
}

/// A port with the settings of the first word of its block.
pub open spec fn port_with_word(p: Rs485Config, v: u16) -> Rs485Config {
    Rs485Config {
        baudrate: baud_rate(v as int / 4096),
        parity: ((v / 1024) % 4) as u8,
        stop_bits: ((v / 512) % 2 + 1) as u8,
        data_bits: if (v / 256) % 2 != 0 {
            7
        } else {
            8
        },
        mode: if v % 256 == 1 {
            0
        } else {
            1
        },
        ..p
    }
}

/// Word `off` of a port block.
pub open spec fn port_read(p: Rs485Config, off: int) -> u16 {
    if off == 0 {
        port_word(p)
    } else if off == 1 {
        p.slave_addr as u16
    } else if off == 2 {
        p.retry_count
    } else if off == 3 {
        p.timeout_ms
    } else {
        p.interval_ms
    }
}

/// The port after word `off` of its block was written.
pub open spec fn port_write(p: Rs485Config, off: int, v: u16) -> Rs485Config {
    if off == 0 {
        port_with_word(p, v)
    } else if off == 1 {
        Rs485Config { slave_addr: lo(v), ..p }
    } else if off == 2 {
        Rs485Config { retry_count: v, ..p }
    } else if off == 3 {
        Rs485Config { timeout_ms: v, ..p }
    } else {
        Rs485Config { interval_ms: v, ..p }
    }
}

/// Big-endian word `k` of a text field.
pub open spec fn text_word(s: Seq<u8>, k: int) -> u16 {
    word(s[2 * k], s[2 * k + 1])
}

/// The text field with big-endian word `k` written.
pub open spec fn with_text_word(s: Seq<u8>, k: int, v: u16) -> Seq<u8> {
    s.update(2 * k, hi(v)).update(2 * k + 1, lo(v))
}

/// Whether `addr` is one of `n` registers from `base` on.
pub open spec fn within(addr: u16, base: u16, n: int) -> bool {
    base <= addr < base + n
}

/// Value of a configuration register; `None` where there is none.
pub open spec fn cfg_read(c: CfgView, addr: u16) -> Option<u16> {
    if within(addr, regs::HOLD_485_1_COMERR, 4) {
        Some(0)
    } else if within(addr, regs::HOLD_SN_BASE, 9) {
        Some(text_word(c.sn, addr - regs::HOLD_SN_BASE))
    } else if within(addr, regs::HOLD_PLACE_BASE, 8) {
        Some(text_word(c.name, addr - regs::HOLD_PLACE_BASE))
    } else if addr == regs::HOLD_HW_VER {
        Some(c.hw_version)
    } else if addr == regs::CFG_FW_VER {
        Some(c.fw_version)
    } else if addr == regs::CFG_CFG_VER {
        Some(c.cfg_version)
    } else if addr == regs::CFG_APPLY || addr == regs::CFG_RESET_DEFAULT {
        Some(0)
    } else if addr == regs::CFG_DHCP {
        Some(if c.dhcp {
            1
        } else {
            0
        })
    } else if within(addr, regs::HOLD_IP_BASE, 4) {
        Some(c.ip[addr - regs::HOLD_IP_BASE] as u16)
    } else if within(addr, regs::HOLD_MASK_BASE, 4) {
        Some(c.mask[addr - regs::HOLD_MASK_BASE] as u16)
    } else if within(addr, regs::HOLD_GW_BASE, 4) {
        Some(c.gateway[addr - regs::HOLD_GW_BASE] as u16)
    } else if within(addr, regs::HOLD_DNS_BASE, 4) {
        Some(c.dns[addr - regs::HOLD_DNS_BASE] as u16)
    } else if within(addr, regs::HOLD_MAC_BASE, 6) {
        Some(c.eth_mac[addr - regs::HOLD_MAC_BASE] as u16)
    } else if within(addr, regs::HOLD_BLE_ADDR_BASE, 4) {
        Some(text_word(c.ble_name, addr - regs::HOLD_BLE_ADDR_BASE))
    } else if within(addr, regs::HOLD_RS485_BASE, 15) {
        let off = addr - regs::HOLD_RS485_BASE;
        Some(port_read(c.rs485[off / 5], off % 5))
    } else if within(addr, regs::HOLD_TCP_COM_BASE, 4) {
        Some(c.tcp_ports[addr - regs::HOLD_TCP_COM_BASE])
    } else {
        None
    }
}

/// What a write to a configuration register asks of the caller.
pub open spec fn cfg_write_result(addr: u16, v: u16) -> WriteResult {
    if within(addr, regs::HOLD_SN_BASE, 9) || within(addr, regs::HOLD_PLACE_BASE, 8) || addr
        == regs::HOLD_HW_VER {
        WriteResult::Persist
    } else if addr == regs::CFG_FW_VER || addr == regs::CFG_CFG_VER {
        WriteResult::Written
    } else if addr == regs::CFG_APPLY {
        WriteResult::Apply
    } else if addr == regs::CFG_RESET_DEFAULT {
        if v == 0xD5D5 {
            WriteResult::Reset
        } else {
            WriteResult::Written
        }
    } else if addr == regs::CFG_DHCP || within(addr, regs::HOLD_IP_BASE, 22) {
        WriteResult::Apply
    } else if within(addr, regs::HOLD_BLE_ADDR_BASE, 4) || within(addr, regs::HOLD_RS485_BASE, 15) {
        WriteResult::Persist
    } else if within(addr, regs::HOLD_TCP_COM_BASE, 4) && v != 0 {
        WriteResult::Persist
    } else {
        WriteResult::NotFound
    }
}

/// The configuration after a register was written.
pub open spec fn cfg_write(c: CfgView, addr: u16, v: u16) -> CfgView {
    if within(addr, regs::HOLD_SN_BASE, 9) {
        CfgView { sn: with_text_word(c.sn, addr - regs::HOLD_SN_BASE, v), ..c }
    } else if within(addr, regs::HOLD_PLACE_BASE, 8) {
        CfgView { name: with_text_word(c.name, addr - regs::HOLD_PLACE_BASE, v), ..c }
    } else if addr == regs::HOLD_HW_VER {
        CfgView { hw_version: v, ..c }
    } else if addr == regs::CFG_FW_VER {
        CfgView { fw_version: v, ..c }
    } else if addr == regs::CFG_CFG_VER {
        CfgView { cfg_version: v, ..c }
    } else if addr == regs::CFG_DHCP {
        CfgView { dhcp: v != 0, ..c }
    } else if within(addr, regs::HOLD_IP_BASE, 4) {
        CfgView { ip: c.ip.update(addr - regs::HOLD_IP_BASE, lo(v)), ..c }
    } else if within(addr, regs::HOLD_MASK_BASE, 4) {
        CfgView { mask: c.mask.update(addr - regs::HOLD_MASK_BASE, lo(v)), ..c }
    } else if within(addr, regs::HOLD_GW_BASE, 4) {
        CfgView { gateway: c.gateway.update(addr - regs::HOLD_GW_BASE, lo(v)), ..c }
    } else if within(addr, regs::HOLD_DNS_BASE, 4) {
        CfgView { dns: c.dns.update(addr - regs::HOLD_DNS_BASE, lo(v)), ..c }
    } else if within(addr, regs::HOLD_MAC_BASE, 6) {
        CfgView { eth_mac: c.eth_mac.update(addr - regs::HOLD_MAC_BASE, lo(v)), ..c }
    } else if within(addr, regs::HOLD_BLE_ADDR_BASE, 4) {
        CfgView { ble_name: with_text_word(c.ble_name, addr - regs::HOLD_BLE_ADDR_BASE, v), ..c }
    } else if within(addr, regs::HOLD_RS485_BASE, 15) {
        let off = addr - regs::HOLD_RS485_BASE;
        CfgView { rs485: c.rs485.update(off / 5, port_write(c.rs485[off / 5], off % 5, v)), ..c }
    } else if within(addr, regs::HOLD_TCP_COM_BASE, 4) && v != 0 {
        CfgView { tcp_ports: c.tcp_ports.update(addr - regs::HOLD_TCP_COM_BASE, v), ..c }
    } else {
        c
    }
}

// ---- Persistent form ----

/// Little-endian byte `k` of a word.
pub open spec fn wbyte(v: u16, k: int) -> u8 {
    if k == 0 {
        lo(v)
    } else {
        hi(v)
    }
}

/// Byte `k` of the 15-byte form of a port.
pub open spec fn port_byte(p: Rs485Config, k: int) -> u8 {
    if k < 4 {
        dbyte(p.baudrate, k)
    } else if k == 4 {
        p.data_bits
    } else if k == 5 {
        p.stop_bits
    } else if k == 6 {
        p.parity
    } else if k == 7 {
        p.slave_addr
    } else if k == 8 {
        p.mode
    } else if k < 11 {
        wbyte(p.retry_count, k - 9)
    } else if k < 13 {
        wbyte(p.timeout_ms, k - 11)
    } else {
        wbyte(p.interval_ms, k - 13)
    }
}

/// Byte `i` of the blob.
pub open spec fn blob_byte(c: CfgView, i: int) -> u8 {
    if i < 32 {
        c.sn[i]
    } else if i < 48 {
        c.name[i - 32]
    } else if i < 50 {
        wbyte(c.hw_version, i - 48)
    } else if i < 52 {
        wbyte(c.fw_version, i - 50)
    } else if i < 54 {
        wbyte(c.cfg_version, i - 52)
    } else if i < 60 {
        c.eth_mac[i - 54]
    } else if i < 61 {
        if c.dhcp {
            1
        } else {
            0
        }
    } else if i < 65 {
        c.ip[i - 61]
    } else if i < 69 {
        c.mask[i - 65]
    } else if i < 73 {
        c.gateway[i - 69]
    } else if i < 77 {
        c.dns[i - 73]
    } else if i < 83 {
        c.ble_mac[i - 77]
    } else if i < 91 {
        c.ble_name[i - 83]
    } else if i < 92 {
        0
    } else if i < 137 {
        port_byte(c.rs485[(i - 92) / 15], (i - 92) % 15)
    } else if i < 145 {
        wbyte(c.tcp_ports[(i - 137) / 2], (i - 137) % 2)
    } else {
        0
    }
}

/// The blob of a configuration.
pub open spec fn cfg_blob(c: CfgView) -> Seq<u8> {
    Seq::new(152, |i: int| blob_byte(c, i))
}

/// The port stored at `off`; a zero in a field that must not be zero stands for
/// the default.
pub open spec fn blob_port(b: Seq<u8>, off: int) -> Rs485Config {
    Rs485Config {
        baudrate: if le32_at(b, off) == 0 {
            9600
        } else {
            le32_at(b, off)
        },
        data_bits: if b[off + 4] == 0 {
            8
        } else {
            b[off + 4]
        },
        stop_bits: if b[off + 5] == 0 {
            1
        } else {
            b[off + 5]
        },
        parity: b[off + 6],
        slave_addr: b[off + 7],
        mode: b[off + 8],
        retry_count: le16_at(b, off + 9),
        timeout_ms: le16_at(b, off + 11),
        interval_ms: le16_at(b, off + 13),
    }
}

/// Default listening ports.
pub open spec fn ports_default() -> Seq<u16> {
    seq![502, 503, 504, 5002]
}

/// The listening port `i` of a blob; zero stands for the default.
pub open spec fn blob_tcp_port(b: Seq<u8>, i: int) -> u16 {
    if le16_at(b, 137 + 2 * i) == 0 {
        ports_default()[i]
    } else {
        le16_at(b, 137 + 2 * i)
    }
}

/// The configuration that a blob holds; a blob that is too short holds the
/// factory settings.
pub open spec fn cfg_of_blob(b: Seq<u8>) -> CfgView {
    if b.len() < 144 {
        cfg_default()
    } else {
        CfgView {
            sn: b.subrange(0, 32),
            name: b.subrange(32, 48),
            hw_version: le16_at(b, 48),
            fw_version: le16_at(b, 50),
            cfg_version: le16_at(b, 52),
            eth_mac: b.subrange(54, 60),
            dhcp: b[60] != 0,
            ip: b.subrange(61, 65),
            mask: b.subrange(65, 69),
            gateway: b.subrange(69, 73),
            dns: b.subrange(73, 77),
            ble_mac: b.subrange(77, 83),
            ble_name: b.subrange(83, 91),
            rs485: seq![blob_port(b, 92), blob_port(b, 107), blob_port(b, 122)],
            tcp_ports: if b.len() >= 145 {
                Seq::new(4, |i: int| blob_tcp_port(b, i))
            } else {
                ports_default()
            },
            ..cfg_default()
        }
    }
}

/// A byte string padded with zeros.
pub open spec fn padded(s: Seq<u8>, n: nat) -> Seq<u8> {
    Seq::new(
        n,
        |i: int|
            if i < s.len() {
                s[i]
            } else {
                0
            },
    )
}

/// Factory settings.
pub open spec fn cfg_default() -> CfgView {
    CfgView {
        // "ESP32-001"
        sn: padded(seq![0x45, 0x53, 0x50, 0x33, 0x32, 0x2D, 0x30, 0x30, 0x31], 32),
        // "GW-ESP32"
        name: padded(seq![0x47, 0x57, 0x2D, 0x45, 0x53, 0x50, 0x33, 0x32], 16),
        hw_version: hw_version::MODEL_CODE,
        fw_version: 221,
        fw_date: 0x0615,
        cfg_version: 0,
        eth_mac: padded(seq![], 6),
        dhcp: false,
        ip: seq![192, 168, 51, 221],
        mask: seq![255, 255, 255, 0],
        gateway: seq![192, 168, 51, 1],
        dns: seq![192, 168, 51, 1],
        ble_mac: padded(seq![], 6),
        // "Mesh"
        ble_name: padded(seq![0x4D, 0x65, 0x73, 0x68], 8),
        ble_mesh_enable: false,
        rs485: seq![rs485_default(0), rs485_default(0), rs485_default(1)],
        tcp_ports: ports_default(),
    }
}

/// The register code of a baud rate.
fn code_of_baud(baud: u32) -> (r: u16)
    ensures
        r == baud_code(baud),
        r <= 15,
{
    match baud {
        1200 => 1,
        2400 => 2,
        4800 => 3,
        9600 => 4,
        14400 => 5,
        19200 => 6,
        38400 => 7,
        57600 => 8,
        115200 => 9,
        128000 => 10,
        153600 => 11,
        230400 => 12,
        256000 => 13,
        460800 => 14,
        921600 => 15,
        _ => 4,
    }
}

/// The baud rate of a register code.
fn baud_of_code(code: u16) -> (r: u32)
    ensures
        r == baud_rate(code as int),
{
    match code {
        1 => 1200,
        2 => 2400,
        3 => 4800,
        5 => 14400,
        6 => 19200,
        7 => 38400,
        8 => 57600,
        9 => 115200,
        10 => 128000,
        11 => 153600,
        12 => 230400,
        13 => 256000,
        14 => 460800,
        15 => 921600,
        _ => 9600,
    }
}

impl Rs485Config {
    /// Word `off` of the register block of the port.
    fn read_word(&self, off: u16) -> (r: u16)
        requires
            off < 5,
        ensures
            r == port_read(*self, off as int),
    {
        match off {
            0 => {
                let stop: u16 = if self.stop_bits == 0 {
                    0
                } else {
                    ((self.stop_bits - 1) % 2) as u16
                };
                let seven: u16 = if self.data_bits == 7 {
                    256
                } else {
                    0
                };
                let master: u16 = if self.mode == 0 {
                    1
                } else {
                    0
                };
                code_of_baud(self.baudrate) * 4096 + ((self.parity % 4) as u16) * 1024 + stop * 512 + seven + master
            },
            1 => self.slave_addr as u16,
            2 => self.retry_count,
            3 => self.timeout_ms,
            _ => self.interval_ms,
        }
    }

    /// Writes word `off` of the register block of the port.
    fn write_word(&mut self, off: u16, v: u16)
        requires
            off < 5,
        ensures
            *final(self) == port_write(*old(self), off as int, v),
    {
        match off {
            0 => {
                self.baudrate = baud_of_code(v / 4096);
                self.parity = ((v / 1024) % 4) as u8;
                self.stop_bits = ((v / 512) % 2 + 1) as u8;
                self.data_bits = if (v / 256) % 2 != 0 {
                    7
                } else {
                    8
                };
                self.mode = if v % 256 == 1 {
                    0
                } else {
                    1
                };
            },
            1 => {
                self.slave_addr = low(v);
            },
            2 => {
                self.retry_count = v;
            },
            3 => {
                self.timeout_ms = v;
            },
            _ => {
                self.interval_ms = v;
            },
        }
    }
}

impl SystemConfig {
    /// Factory settings.
    pub fn defaults() -> (r: Self)
        ensures
            r@ == cfg_default(),
    {
        let mut sn: [u8; 32] = [0u8; 32];
        sn[0] = 0x45;
        sn[1] = 0x53;
        sn[2] = 0x50;
        sn[3] = 0x33;
        sn[4] = 0x32;
        sn[5] = 0x2D;
        sn[6] = 0x30;
        sn[7] = 0x30;
        sn[8] = 0x31;
        let mut name: [u8; 16] = [0u8; 16];
        name[0] = 0x47;
        name[1] = 0x57;
        name[2] = 0x2D;
        name[3] = 0x45;
        name[4] = 0x53;
        name[5] = 0x50;
        name[6] = 0x33;
        name[7] = 0x32;
        let mut slave = Rs485Config::default();
        slave.mode = 1;
        let r = SystemConfig {
            sn,
            name,
            hw_version: hw_version::MODEL_CODE,
            fw_version: 221,
            fw_date: 0x0615,
            cfg_version: 0,
            eth_mac: [0u8; 6],
            dhcp: false,
            ip: [192, 168, 51, 221],
            mask: [255, 255, 255, 0],
            gateway: [192, 168, 51, 1],
            dns: [192, 168, 51, 1],
            ble_mac: [0u8; 6],
            ble_name: [0x4D, 0x65, 0x73, 0x68, 0, 0, 0, 0],
            ble_mesh_enable: false,
            rs485: [Rs485Config::default(), Rs485Config::default(), slave],
            tcp_ports: [502, 503, 504, 5002],
        };
        assert(r@ =~= cfg_default());
        r
    }

    /// Reads a configuration register.
    pub fn read_reg(&self, addr: u16) -> (r: Option<u16>)
        ensures
            r == cfg_read(self@, addr),
    {
        if regs::HOLD_485_1_COMERR <= addr && addr <= regs::HOLD_485_2_APPERR {
            return Some(0);
        }
        if regs::HOLD_SN_BASE <= addr && addr < regs::HOLD_SN_BASE + regs::HOLD_SN_COUNT {
            let i: usize = (addr - regs::HOLD_SN_BASE) as usize * 2;
            return Some(make_word(self.sn[i], self.sn[i + 1]));
        }
        if regs::HOLD_PLACE_BASE <= addr && addr < regs::HOLD_PLACE_BASE + regs::HOLD_PLACE_COUNT {
            let i: usize = (addr - regs::HOLD_PLACE_BASE) as usize * 2;
            return Some(make_word(self.name[i], self.name[i + 1]));
        }
        if addr == regs::HOLD_HW_VER {
            return Some(self.hw_version);
        }
        if addr == regs::CFG_FW_VER {
            return Some(self.fw_version);
        }
        if addr == regs::CFG_CFG_VER {
            return Some(self.cfg_version);
        }
        if addr == regs::CFG_APPLY || addr == regs::CFG_RESET_DEFAULT {
            return Some(0);
        }
        if addr == regs::CFG_DHCP {
            return Some(
                if self.dhcp {
                    1
                } else {
                    0
                },
            );
        }
        if let Some(v) = read_ipv4(&self.ip, regs::HOLD_IP_BASE, addr) {
            return Some(v);
        }
        if let Some(v) = read_ipv4(&self.mask, regs::HOLD_MASK_BASE, addr) {
            return Some(v);
        }
        if let Some(v) = read_ipv4(&self.gateway, regs::HOLD_GW_BASE, addr) {
            return Some(v);
        }
        if let Some(v) = read_ipv4(&self.dns, regs::HOLD_DNS_BASE, addr) {
            return Some(v);
        }
        if let Some(v) = read_mac(&self.eth_mac, regs::HOLD_MAC_BASE, addr) {
            return Some(v);
        }
        if regs::HOLD_BLE_ADDR_BASE <= addr && addr < regs::HOLD_BLE_ADDR_BASE + regs::HOLD_BLE_ADDR_COUNT {
            let i: usize = (addr - regs::HOLD_BLE_ADDR_BASE) as usize * 2;
            return Some(make_word(self.ble_name[i], self.ble_name[i + 1]));
        }
        if regs::HOLD_RS485_BASE <= addr && addr < regs::HOLD_RS485_BASE + 15 {
            let off: u16 = addr - regs::HOLD_RS485_BASE;
            let port: usize = (off / 5) as usize;
            return Some(self.rs485[port].read_word(off % 5));
        }
        if regs::HOLD_TCP_COM_BASE <= addr && addr < regs::HOLD_TCP_COM_BASE + regs::HOLD_TCP_COM_COUNT {
            let i: usize = (addr - regs::HOLD_TCP_COM_BASE) as usize;
            return Some(self.tcp_ports[i]);
        }
        None
    }

    /// Writes a configuration register.
    pub fn write_reg(&mut self, addr: u16, value: u16) -> (r: WriteResult)
        ensures
            r == cfg_write_result(addr, value),
            final(self)@ == cfg_write(old(self)@, addr, value),
    {
        if regs::HOLD_SN_BASE <= addr && addr < regs::HOLD_SN_BASE + regs::HOLD_SN_COUNT {
            let i: usize = (addr - regs::HOLD_SN_BASE) as usize * 2;
            self.sn[i] = high(value);
            self.sn[i + 1] = low(value);
            return WriteResult::Persist;
        }
        if regs::HOLD_PLACE_BASE <= addr && addr < regs::HOLD_PLACE_BASE + regs::HOLD_PLACE_COUNT {
            let i: usize = (addr - regs::HOLD_PLACE_BASE) as usize * 2;
            self.name[i] = high(value);
            self.name[i + 1] = low(value);
            return WriteResult::Persist;
        }
        if addr == regs::HOLD_HW_VER {
            self.hw_version = value;
            return WriteResult::Persist;
        }
        if addr == regs::CFG_FW_VER {
            self.fw_version = value;
            return WriteResult::Written;
        }
        if addr == regs::CFG_CFG_VER {
            self.cfg_version = value;
            return WriteResult::Written;
        }
        if addr == regs::CFG_APPLY {
            return WriteResult::Apply;
        }
        if addr == regs::CFG_RESET_DEFAULT {
            return if value == 0xD5D5 {
                WriteResult::Reset
            } else {
                WriteResult::Written
            };
        }
        if addr == regs::CFG_DHCP {
            self.dhcp = value != 0;
            return WriteResult::Apply;
        }
        if write_ipv4(&mut self.ip, regs::HOLD_IP_BASE, addr, value) {
            return WriteResult::Apply;
        }
        if write_ipv4(&mut self.mask, regs::HOLD_MASK_BASE, addr, value) {
            return WriteResult::Apply;
        }
        if write_ipv4(&mut self.gateway, regs::HOLD_GW_BASE, addr, value) {
            return WriteResult::Apply;
        }
        if write_ipv4(&mut self.dns, regs::HOLD_DNS_BASE, addr, value) {
            return WriteResult::Apply;
        }
        if write_mac(&mut self.eth_mac, regs::HOLD_MAC_BASE, addr, value) {
            return WriteResult::Apply;
        }
        if regs::HOLD_BLE_ADDR_BASE <= addr && addr < regs::HOLD_BLE_ADDR_BASE + regs::HOLD_BLE_ADDR_COUNT {
            let i: usize = (addr - regs::HOLD_BLE_ADDR_BASE) as usize * 2;
            self.ble_name[i] = high(value);
            self.ble_name[i + 1] = low(value);
            return WriteResult::Persist;
        }
        if regs::HOLD_RS485_BASE <= addr && addr < regs::HOLD_RS485_BASE + 15 {
            let off: u16 = addr - regs::HOLD_RS485_BASE;
            let port: usize = (off / 5) as usize;
            let mut p = self.rs485[port];
            p.write_word(off % 5, value);
            self.rs485[port] = p;
            return WriteResult::Persist;
        }
        if regs::HOLD_TCP_COM_BASE <= addr && addr < regs::HOLD_TCP_COM_BASE + regs::HOLD_TCP_COM_COUNT {
            if value == 0 {
                return WriteResult::NotFound;
            }
            let i: usize = (addr - regs::HOLD_TCP_COM_BASE) as usize;
            self.tcp_ports[i] = value;
            return WriteResult::Persist;
        }
        WriteResult::NotFound
    }
}

/// Register of an IPv4 address: one byte a register.
fn read_ipv4(bytes: &[u8; 4], base: u16, addr: u16) -> (r: Option<u16>)
    ensures
        r == (if within(addr, base, 4) {
            Some(bytes@[addr - base] as u16)
        } else {
            None::<u16>
        }),
{
    if addr < base || addr - base >= 4 {
        return None;
    }
    Some(bytes[(addr - base) as usize] as u16)
}

/// Writes a register of an IPv4 address; says whether it is one.
fn write_ipv4(bytes: &mut [u8; 4], base: u16, addr: u16, value: u16) -> (r: bool)
    ensures
        r == within(addr, base, 4),
        final(bytes)@ == (if r {
            old(bytes)@.update(addr - base, lo(value))
        } else {
            old(bytes)@
        }),
{
    if addr < base || addr - base >= 4 {
        return false;
    }
    bytes[(addr - base) as usize] = low(value);
    true
}

/// Register of a MAC address: one byte a register.
fn read_mac(bytes: &[u8; 6], base: u16, addr: u16) -> (r: Option<u16>)
    ensures
        r == (if within(addr, base, 6) {
            Some(bytes@[addr - base] as u16)
        } else {
            None::<u16>
        }),
{
    if addr < base || addr - base >= 6 {
        return None;
    }
    Some(bytes[(addr - base) as usize] as u16)
}

/// Writes a register of a MAC address; says whether it is one.
fn write_mac(bytes: &mut [u8; 6], base: u16, addr: u16, value: u16) -> (r: bool)
    ensures
        r == within(addr, base, 6),
        final(bytes)@ == (if r {
            old(bytes)@.update(addr - base, lo(value))
        } else {
            old(bytes)@
        }),
{
    if addr < base || addr - base >= 6 {
        return false;
    }
    bytes[(addr - base) as usize] = low(value);
    true
}

// ---- Persistent form ----

fn word_byte(v: u16, k: usize) -> (r: u8)
    ensures
        r == wbyte(v, k as int),
{
    if k == 0 {
        low(v)
    } else {
        high(v)
    }
}

impl Rs485Config {
    fn blob_byte(&self, k: usize) -> (r: u8)
        requires
            k < 15,
        ensures
            r == port_byte(*self, k as int),
    {
        if k < 4 {
            byte_of(self.baudrate, k)
        } else if k == 4 {
            self.data_bits
        } else if k == 5 {
            self.stop_bits
        } else if k == 6 {
            self.parity
        } else if k == 7 {
            self.slave_addr
        } else if k == 8 {
            self.mode
        } else if k < 11 {
            word_byte(self.retry_count, k - 9)
        } else if k < 13 {
            word_byte(self.timeout_ms, k - 11)
        } else {
            word_byte(self.interval_ms, k - 13)
        }
    }

    /// The port stored at `off` of a blob.
    fn from_blob(b: &[u8], off: usize) -> (r: Self)
        requires
            off + 15 <= b@.len(),
            off <= 1000,
        ensures
            r == blob_port(b@, off as int),
    {
        let baud: u32 = get_le32(b, off);
        Rs485Config {
            baudrate: if baud == 0 {
                9600
            } else {
                baud
            },
            data_bits: if b[off + 4] == 0 {
                8
            } else {
                b[off + 4]
            },
            stop_bits: if b[off + 5] == 0 {
                1
            } else {
                b[off + 5]
            },
            parity: b[off + 6],
            slave_addr: b[off + 7],
            mode: b[off + 8],
            retry_count: get_le16(b, off + 9),
            timeout_ms: get_le16(b, off + 11),
            interval_ms: get_le16(b, off + 13),
        }
    }
}

/// Copies part of a byte string over a field.
fn copy_field<const N: usize>(field: &mut [u8; N], b: &[u8], off: usize)
    requires
        off + N <= b@.len(),
        off <= 1000,
        N <= 1000,
    ensures
        final(field)@ == b@.subrange(off as int, off + N),
{
    let mut i: usize = 0;
    while i < N
        invariant
            i <= N,
            off + N <= b@.len(),
            off <= 1000,
            N <= 1000,
            forall|j: int| 0 <= j < i ==> field@[j] == b@[off + j],
        decreases N - i,
    {
        field[i] = b[off + i];
        i += 1;
    }
    assert(field@ =~= b@.subrange(off as int, off + N));
}

impl SystemConfig {
    fn blob_byte(&self, i: usize) -> (r: u8)
        requires
            i < 152,
        ensures
            r == blob_byte(self@, i as int),
    {
        if i < 32 {
            self.sn[i]
        } else if i < 48 {
            self.name[i - 32]
        } else if i < 50 {
            word_byte(self.hw_version, i - 48)
        } else if i < 52 {
            word_byte(self.fw_version, i - 50)
        } else if i < 54 {
            word_byte(self.cfg_version, i - 52)
        } else if i < 60 {
            self.eth_mac[i - 54]
        } else if i < 61 {
            if self.dhcp {
                1
            } else {
                0
            }
        } else if i < 65 {
            self.ip[i - 61]
        } else if i < 69 {
            self.mask[i - 65]
        } else if i < 73 {
            self.gateway[i - 69]
        } else if i < 77 {
            self.dns[i - 73]
        } else if i < 83 {
            self.ble_mac[i - 77]
        } else if i < 91 {
            self.ble_name[i - 83]
        } else if i < 92 {
            0
        } else if i < 137 {
            self.rs485[(i - 92) / 15].blob_byte((i - 92) % 15)
        } else if i < 145 {
            word_byte(self.tcp_ports[(i - 137) / 2], (i - 137) % 2)
        } else {
            0
        }
    }

    /// The blob of the configuration.
    pub fn encode(&self) -> (r: Vec<u8>)
        ensures
            r@ == cfg_blob(self@),
    {
        let mut b: Vec<u8> = Vec::new();
        let mut i: usize = 0;
        while i < CFG_BLOB_SIZE
            invariant
                i <= 152,
                b@.len() == i,
                forall|j: int| 0 <= j < i ==> b@[j] == blob_byte(self@, j),
            decreases 152 - i,
        {
            b.push(self.blob_byte(i));
            i += 1;
        }
        assert(b@ =~= cfg_blob(self@));
        b
    }

    /// The configuration that a blob holds.
    pub fn decode(b: &[u8]) -> (r: Self)
        ensures
            r@ == cfg_of_blob(b@),
    {
        let mut s = SystemConfig::defaults();
        if b.len() < CFG_BLOB_LEGACY_SIZE {
            return s;
        }
        copy_field(&mut s.sn, b, 0);
        copy_field(&mut s.name, b, 32);
        s.hw_version = get_le16(b, 48);
        s.fw_version = get_le16(b, 50);
        s.cfg_version = get_le16(b, 52);
        copy_field(&mut s.eth_mac, b, 54);
        s.dhcp = b[60] != 0;
        copy_field(&mut s.ip, b, 61);
        copy_field(&mut s.mask, b, 65);
        copy_field(&mut s.gateway, b, 69);
        copy_field(&mut s.dns, b, 73);
        copy_field(&mut s.ble_mac, b, 77);
        copy_field(&mut s.ble_name, b, 83);
        s.rs485 = [Rs485Config::from_blob(b, 92), Rs485Config::from_blob(b, 107), Rs485Config::from_blob(b, 122)];
        if b.len() >= 145 {
            let mut i: usize = 0;
            let ghost before = s@;
            while i < 4
                invariant
                    i <= 4,
                    b@.len() >= 145,
                    before.tcp_ports == ports_default(),
                    s@ == (CfgView { tcp_ports: s@.tcp_ports, ..before }),
                    forall|j: int| 0 <= j < i ==> s@.tcp_ports[j] == blob_tcp_port(b@, j),
                    forall|j: int| i <= j < 4 ==> s@.tcp_ports[j] == ports_default()[j],
                decreases 4 - i,
            {
                let port: u16 = get_le16(b, 137 + i * 2);
                if port != 0 {
                    s.tcp_ports[i] = port;
                }
                i += 1;
            }
        }
        assert(s@ =~= cfg_of_blob(b@));
        s
    }

    /// The configuration to start with, given the stored mark and blob.
    pub fn load_from_nvs(magic: Option<u32>, blob: Option<&[u8]>) -> (r: Self)
        ensures
            r@ == (if magic == Some(NVS_MAGIC) && blob is Some {
                cfg_of_blob(blob->0@)
            } else {
                cfg_default()
            }),
    {
        match (magic, blob) {
            (Some(m), Some(b)) => {
                if m == NVS_MAGIC {
                    SystemConfig::decode(b)
                } else {
                    SystemConfig::defaults()
                }
            },
            _ => SystemConfig::defaults(),
        }
    }

    /// Takes the hardware addresses for those that were never set.
    pub fn fill_hw_macs(&mut self, hw_eth: [u8; 6], hw_ble: [u8; 6])
        ensures
            final(self)@ == (CfgView {
                eth_mac: if old(self)@.eth_mac == padded(seq![], 6) {
                    hw_eth@
                } else {
                    old(self)@.eth_mac
                },
                ble_mac: if old(self)@.ble_mac == padded(seq![], 6) {
                    hw_ble@
                } else {
                    old(self)@.ble_mac
                },
                ..old(self)@
            }),
    {
        if is_unset(&self.eth_mac) {
            self.eth_mac = hw_eth;
        }
        if is_unset(&self.ble_mac) {
            self.ble_mac = hw_ble;
        }
    }

    /// Version register of a version text: hundreds are the major, tens the minor
    /// version, the patch level is added; missing or unreadable parts count as
    /// zero.
    pub fn fw_version_of(version: &str) -> (r: u16)
        ensures
            r == version_code(version@),
    {
        let all = chars(version);
        let parts = split_at_each(all.as_slice(), '.');
        let major: u64 = part_number(&parts, 0);
        let minor: u64 = part_number(&parts, 1);
        let patch: u64 = part_number(&parts, 2);
        let a: u64 = cap32(major * 100);
        let b: u64 = cap32(a + cap32(minor * 10));
        let c: u64 = cap32(b + patch);
        if c > 0xFFFF {
            0xFFFF
        } else {
            c as u16
        }
    }

    /// Version register of this firmware.
    pub fn fw_version_from_cargo() -> (r: u16)
        ensures
            r == version_code(APP_VERSION@),
    {
        SystemConfig::fw_version_of(APP_VERSION)
    }

    /// Date code of this firmware.
    pub fn fw_date_default() -> (r: u16)
        ensures
            r == 0x0615,
    {
        0x0615
    }

    // ---- Text forms ----

    /// Serial number.
    pub fn sn_str(&self) -> (r: String)
        ensures
            r@ == shown(until_zero(self@.sn)),
    {
        field_text(self.sn.as_slice())
    }

    /// Place name.
    pub fn name_str(&self) -> (r: String)
        ensures
            r@ == shown(until_zero(self@.name)),
    {
        field_text(self.name.as_slice())
    }

    /// BLE name.
    pub fn ble_name_str(&self) -> (r: String)
        ensures
            r@ == shown(until_zero(self@.ble_name)),
    {
        field_text(self.ble_name.as_slice())
    }

    pub fn ip_str(&self) -> (r: String)
        ensures
            r@ == ipv4_text(self@.ip),
    {
        ipv4_str(&self.ip)
    }

    pub fn mask_str(&self) -> (r: String)
        ensures
            r@ == ipv4_text(self@.mask),
    {
        ipv4_str(&self.mask)
    }

    pub fn gw_str(&self) -> (r: String)
        ensures
            r@ == ipv4_text(self@.gateway),
    {
        ipv4_str(&self.gateway)
    }

    pub fn dns_str(&self) -> (r: String)
        ensures
            r@ == ipv4_text(self@.dns),
    {
        ipv4_str(&self.dns)
    }

    pub fn mac_str(&self) -> (r: String)
        ensures
            r@ == mac_text(self@.eth_mac),
    {
        mac_str(&self.eth_mac)
    }

    pub fn ble_mac_str(&self) -> (r: String)
        ensures
            r@ == mac_text(self@.ble_mac),
    {
        mac_str(&self.ble_mac)
    }
}

fn is_unset(mac: &[u8; 6]) -> (r: bool)
    ensures
        r == (mac@ == padded(seq![], 6)),
{
    let mut i: usize = 0;
    while i < 6
        invariant
            i <= 6,
            forall|j: int| 0 <= j < i ==> mac@[j] == 0,
        decreases 6 - i,
    {
        if mac[i] != 0 {
            assert(padded(seq![], 6)[i as int] == 0);
            return false;
        }
        i += 1;
    }
    assert(mac@ =~= padded(seq![], 6));
    true
}

/// A number capped at the largest double word.
pub open spec fn capped32(n: int) -> int {
    if n > 0xFFFF_FFFF {
        0xFFFF_FFFF
    } else {
        n
    }
}

fn cap32(n: u64) -> (r: u64)
    ensures
        r == capped32(n as int),
{
    if n > 0xFFFF_FFFF {
        0xFFFF_FFFF
    } else {
        n
    }
}

/// Part `i` of a version as a number; zero where it is missing or unreadable.
pub open spec fn version_part(v: Seq<char>, i: int) -> int {
    let parts = split(v, '.');
    if i < parts.len() && number(parts[i], 10, 0xFFFF_FFFF) is Some {
        number(parts[i], 10, 0xFFFF_FFFF)->0 as int
    } else {
        0
    }
}

fn part_number(parts: &Vec<&[char]>, i: usize) -> (r: u64)
    ensures
        r == (if i < parts@.len() && number(parts@[i as int]@, 10, 0xFFFF_FFFF) is Some {
            number(parts@[i as int]@, 10, 0xFFFF_FFFF)->0 as int
        } else {
            0
        }),
        r <= 0xFFFF_FFFF,
{
    if i < parts.len() {
        match parse_number(parts[i], 10, 0xFFFF_FFFF) {
            Some(v) => v,
            None => 0,
        }
    } else {
        0
    }
}

/// Version register of a version text.
pub open spec fn version_code(v: Seq<char>) -> u16 {
    let sum = capped32(
        capped32(capped32(version_part(v, 0) * 100) + capped32(version_part(v, 1) * 10)) + version_part(v, 2),
    );
    if sum > 0xFFFF {
        0xFFFF
    } else {
        sum as u16
    }
}

/// Dotted form of an address.
pub open spec fn ipv4_text(b: Seq<u8>) -> Seq<char> {
    dec(b[0] as nat) + "."@ + dec(b[1] as nat) + "."@ + dec(b[2] as nat) + "."@ + dec(b[3] as nat)
}

/// Appends an address in dotted form.
pub fn push_ipv4(s: &mut String, b: &[u8; 4])
    ensures
        final(s)@ == old(s)@ + ipv4_text(b@),
{
    push_dec(s, b[0] as u64);
    s.push_str(".");
    push_dec(s, b[1] as u64);
    s.push_str(".");
    push_dec(s, b[2] as u64);
    s.push_str(".");
    push_dec(s, b[3] as u64);
    assert(s@ =~= old(s)@ + ipv4_text(b@));
}

/// An address in dotted form.
pub fn ipv4_str(b: &[u8; 4]) -> (r: String)
    ensures
        r@ == ipv4_text(b@),
{
    let mut s = String::new();
    push_ipv4(&mut s, b);
    assert(s@ =~= ipv4_text(b@));
    s
}

/// Colon-separated form of a MAC address, from byte `i` on.
pub open spec fn mac_text_from(b: Seq<u8>, i: int) -> Seq<char>
    decreases b.len() - i,
{
    if i >= b.len() {
        Seq::empty()
    } else {
        (if i > 0 {
            ":"@
        } else {
            Seq::empty()
        }) + hex(b[i] as nat, 2, true) + mac_text_from(b, i + 1)
    }
}

/// Colon-separated form of a MAC address.
pub open spec fn mac_text(b: Seq<u8>) -> Seq<char> {
    mac_text_from(b, 0)
}

/// Appends a MAC address in colon-separated form.
pub fn push_mac(s: &mut String, b: &[u8; 6])
    ensures
        final(s)@ == old(s)@ + mac_text(b@),
{
    let mut i: usize = 0;
    while i < 6
        invariant
            i <= 6,
            s@ + mac_text_from(b@, i as int) == old(s)@ + mac_text(b@),
        decreases 6 - i,
    {
        let ghost before = s@;
        if i > 0 {
            s.push_str(":");
        }
        push_hex(s, b[i] as u64, 2, true);
        proof {
            assert(s@ + mac_text_from(b@, i + 1) =~= before + mac_text_from(b@, i as int));
        }
        i += 1;
    }
    assert(s@ + mac_text_from(b@, 6) =~= s@);
}

/// A MAC address in colon-separated form.
pub fn mac_str(b: &[u8; 6]) -> (r: String)
    ensures
        r@ == mac_text(b@),
{
    let mut s = String::new();
    push_mac(&mut s, b);
    assert(s@ =~= mac_text(b@));
    s
}

/// The `n` numbers of an address text, separated by `sep`.
pub open spec fn address_value(s: Seq<char>, sep: char, radix: nat, n: nat) -> Option<Seq<u8>> {
    let parts = split(s, sep);
    if parts.len() == n && (forall|i: int| 0 <= i < n ==> number(#[trigger] parts[i], radix, 255) is Some) {
        Some(Seq::new(n, |i: int| number(parts[i], radix, 255)->0 as u8))
    } else {
        None
    }
}

/// Parses the numbers of an address.
fn parse_address<const N: usize>(s: &[char], sep: char, radix: u64, zero: [u8; N]) -> (r: Option<[u8; N]>)
    requires
        2 <= radix <= 36,
    ensures
        r is Some <==> address_value(s@, sep, radix as nat, N as nat) is Some,
        r is Some ==> r->0@ == address_value(s@, sep, radix as nat, N as nat)->0,
{
    let parts = split_at_each(s, sep);
    if parts.len() != N {
        return None;
    }
    let ghost sp = split(s@, sep);
    let mut out: [u8; N] = zero;
    let mut i: usize = 0;
    while i < N
        invariant
            i <= N,
            2 <= radix <= 36,
            parts@.len() == N,
            sp == split(s@, sep),
            sp.len() == N,
            forall|j: int| 0 <= j < N ==> (#[trigger] parts@[j])@ == sp[j],
            forall|j: int| 0 <= j < i ==> number(#[trigger] sp[j], radix as nat, 255) is Some,
            forall|j: int| 0 <= j < i ==> out@[j] == number(#[trigger] sp[j], radix as nat, 255)->0 as u8,
        decreases N - i,
    {
        assert(parts@[i as int]@ == sp[i as int]);
        match parse_number(parts[i], radix, 255) {
            Some(v) => {
                out[i] = v as u8;
            },
            None => {
                return None;
            },
        }
        i += 1;
    }
    assert(out@ =~= address_value(s@, sep, radix as nat, N as nat)->0);
    Some(out)
}

/// Parses a dotted address.
pub fn parse_ipv4(s: &str) -> (r: Option<[u8; 4]>)
    ensures
        r is Some <==> address_value(s@, '.', 10, 4) is Some,
        r is Some ==> r->0@ == address_value(s@, '.', 10, 4)->0,
{
    let v = chars(s);
    parse_address(v.as_slice(), '.', 10, [0u8; 4])
}

/// Parses a dotted address out of characters.
pub fn parse_ipv4_chars(s: &[char]) -> (r: Option<[u8; 4]>)
    ensures
        r is Some <==> address_value(s@, '.', 10, 4) is Some,
        r is Some ==> r->0@ == address_value(s@, '.', 10, 4)->0,
{
    parse_address(s, '.', 10, [0u8; 4])
}

/// Parses a colon-separated MAC address.
pub fn parse_mac(s: &str) -> (r: Option<[u8; 6]>)
    ensures
        r is Some <==> address_value(s@, ':', 16, 6) is Some,
        r is Some ==> r->0@ == address_value(s@, ':', 16, 6)->0,
{
    let v = chars(s);
    parse_address(v.as_slice(), ':', 16, [0u8; 6])
}

// ---- Laws ----

/// Whether a register reads back what is written to it: the text, version and
/// port registers do so for every value, an address byte for a byte, the DHCP
/// switch for 0 and 1, and the first word of a port block where its low byte is
/// 0 or 1 and its baud code is not 0.
pub open spec fn reads_back(addr: u16, v: u16) -> bool {
    ||| within(addr, regs::HOLD_SN_BASE, 9)
    ||| within(addr, regs::HOLD_PLACE_BASE, 8)
    ||| addr == regs::HOLD_HW_VER
    ||| addr == regs::CFG_FW_VER
    ||| addr == regs::CFG_CFG_VER
    ||| addr == regs::CFG_DHCP && v <= 1
    ||| within(addr, regs::HOLD_IP_BASE, 22) && v <= 255
    ||| within(addr, regs::HOLD_BLE_ADDR_BASE, 4)
    ||| within(addr, regs::HOLD_TCP_COM_BASE, 4) && v != 0
    ||| within(addr, regs::HOLD_RS485_BASE, 15) && ({
        let off = (addr - regs::HOLD_RS485_BASE) % 5;
        &&& off == 0 ==> v % 256 <= 1 && v >= 4096
        &&& off == 1 ==> v <= 255
    })
}

proof fn lemma_baud_code(code: int)
    requires
        1 <= code <= 15,
    ensures
        baud_code(baud_rate(code)) == code,
{
}

proof fn lemma_word_parts(v: int)
    requires
        0 <= v <= 0xFFFF,
    ensures
        v == (v / 4096) * 4096 + ((v / 1024) % 4) * 1024 + ((v / 512) % 2) * 512 + ((v / 256) % 2) * 256 + v % 256,
{
    let h = v / 256;
    assert(v / 512 == h / 2);
    assert(v / 1024 == h / 4);
    assert(v / 4096 == h / 16);
    assert(h / 4 == (h / 16) * 4 + (h / 4) % 4);
    assert(h / 2 == (h / 4) * 2 + (h / 2) % 2);
    assert(h == (h / 2) * 2 + h % 2);
}

proof fn lemma_port_word(p: Rs485Config, v: u16)
    requires
        v % 256 <= 1,
        v >= 4096,
    ensures
        port_word(port_with_word(p, v)) == v,
{
    let q = port_with_word(p, v);
    lemma_baud_code(v as int / 4096);
    lemma_word_parts(v as int);
    assert(baud_code(q.baudrate) == v / 4096);
    assert(q.parity % 4 == (v / 1024) % 4);
    assert((q.stop_bits - 1) % 2 == (v / 512) % 2);
    assert((if q.data_bits == 7 {
        256int
    } else {
        0
    }) == ((v / 256) % 2) * 256);
}

/// A written configuration register reads back.
pub proof fn law_write_read_back(c: CfgView, addr: u16, v: u16)
    requires
        c.shaped(),
        reads_back(addr, v),
    ensures
        cfg_read(cfg_write(c, addr, v), addr) == Some(v),
{
    if within(addr, regs::HOLD_RS485_BASE, 15) {
        let off = (addr - regs::HOLD_RS485_BASE) % 5;
        let i = (addr - regs::HOLD_RS485_BASE) / 5;
        let p = c.rs485[i];
        assert(cfg_write(c, addr, v).rs485[i] == port_write(p, off, v));
        if off == 0 {
            lemma_port_word(p, v);
        }
        assert(port_read(port_write(p, off, v), off) == v);
    } else if within(addr, regs::HOLD_SN_BASE, 9) {
        lemma_text_word(c.sn, addr - regs::HOLD_SN_BASE, v);
    } else if within(addr, regs::HOLD_PLACE_BASE, 8) {
        lemma_text_word(c.name, addr - regs::HOLD_PLACE_BASE, v);
    } else if within(addr, regs::HOLD_BLE_ADDR_BASE, 4) {
        lemma_text_word(c.ble_name, addr - regs::HOLD_BLE_ADDR_BASE, v);
    }
}

proof fn lemma_text_word(s: Seq<u8>, k: int, v: u16)
    requires
        0 <= k,
        2 * k + 1 < s.len(),
    ensures
        text_word(with_text_word(s, k, v), k) == v,
{
    crate::bytes::law_word_of_bytes(v);
}

/// A configuration write leaves every other configuration register alone.
pub proof fn law_write_keeps_others(c: CfgView, addr: u16, v: u16, other: u16)
    requires
        c.shaped(),
        other != addr,
    ensures
        cfg_read(cfg_write(c, addr, v), other) == cfg_read(c, other),
{
    if within(addr, regs::HOLD_RS485_BASE, 15) && within(other, regs::HOLD_RS485_BASE, 15) {
        let (a, b) = (addr - regs::HOLD_RS485_BASE, other - regs::HOLD_RS485_BASE);
        assert(a / 5 == b / 5 ==> a % 5 != b % 5);
    }
}

/// A write that is not found, or only asks for something, changes nothing.
pub proof fn law_refused_write_changes_nothing(c: CfgView, addr: u16, v: u16)
    requires
        cfg_write_result(addr, v) is NotFound || cfg_write_result(addr, v) is Reset,
    ensures
        cfg_write(c, addr, v) == c,
{
}

/// No configuration register overlaps the control-logic table or the user area.
pub proof fn law_logic_area_is_not_configuration(c: CfgView, addr: u16, v: u16)
    requires
        regs::HOLD_DEVICE_CONFIG <= addr <= regs::HOLD_CFG_END,
    ensures
        cfg_read(c, addr) is None,
        cfg_write_result(addr, v) is NotFound,
{
}

/// Settings that a blob can hold: no zero where a zero stands for a default.
pub open spec fn storable(c: CfgView) -> bool {
    &&& c.shaped()
    &&& c.fw_date == 0x0615
    &&& !c.ble_mesh_enable
    &&& forall|i: int|
        0 <= i < 3 ==> (#[trigger] c.rs485[i]).baudrate != 0 && c.rs485[i].data_bits != 0 && c.rs485[i].stop_bits
            != 0
    &&& forall|i: int| 0 <= i < 4 ==> #[trigger] c.tcp_ports[i] != 0
}

proof fn lemma_port_bytes(b: Seq<u8>, off: int, p: Rs485Config)
    requires
        forall|k: int| 0 <= k < 15 ==> #[trigger] b[off + k] == port_byte(p, k),
        p.baudrate != 0,
        p.data_bits != 0,
        p.stop_bits != 0,
    ensures
        blob_port(b, off) == p,
{
    assert(b[off + 0] == port_byte(p, 0));
    assert(b[off + 1] == port_byte(p, 1));
    assert(b[off + 2] == port_byte(p, 2));
    assert(b[off + 3] == port_byte(p, 3));
    crate::bytes::law_dword_of_bytes(p.baudrate);
    assert(le32_at(b, off) == p.baudrate);
    assert(b[off + 9] == port_byte(p, 9) && b[off + 10] == port_byte(p, 10));
    assert(b[off + 11] == port_byte(p, 11) && b[off + 12] == port_byte(p, 12));
    assert(b[off + 13] == port_byte(p, 13) && b[off + 14] == port_byte(p, 14));
    assert(b[off + 4] == p.data_bits && b[off + 5] == p.stop_bits && b[off + 6] == p.parity && b[off + 7]
        == p.slave_addr && b[off + 8] == p.mode);
}

proof fn lemma_blob_bytes(c: CfgView)
    requires
        c.shaped(),
    ensures
        cfg_of_blob(cfg_blob(c)).sn == c.sn,
        cfg_of_blob(cfg_blob(c)).name == c.name,
        cfg_of_blob(cfg_blob(c)).eth_mac == c.eth_mac,
        cfg_of_blob(cfg_blob(c)).ip == c.ip,
        cfg_of_blob(cfg_blob(c)).mask == c.mask,
        cfg_of_blob(cfg_blob(c)).gateway == c.gateway,
        cfg_of_blob(cfg_blob(c)).dns == c.dns,
        cfg_of_blob(cfg_blob(c)).ble_mac == c.ble_mac,
        cfg_of_blob(cfg_blob(c)).ble_name == c.ble_name,
{
    let b = cfg_blob(c);
    assert(b.subrange(0, 32) =~= c.sn);
    assert(b.subrange(32, 48) =~= c.name);
    assert(b.subrange(54, 60) =~= c.eth_mac);
    assert(b.subrange(61, 65) =~= c.ip);
    assert(b.subrange(65, 69) =~= c.mask);
    assert(b.subrange(69, 73) =~= c.gateway);
    assert(b.subrange(73, 77) =~= c.dns);
    assert(b.subrange(77, 83) =~= c.ble_mac);
    assert(b.subrange(83, 91) =~= c.ble_name);
}

proof fn lemma_blob_port(c: CfgView, i: int)
    requires
        storable(c),
        0 <= i < 3,
    ensures
        blob_port(cfg_blob(c), 92 + 15 * i) == c.rs485[i],
{
    let b = cfg_blob(c);
    let off = 92 + 15 * i;
    assert forall|k: int| 0 <= k < 15 implies #[trigger] b[off + k] == port_byte(c.rs485[i], k) by {
        assert((off + k - 92) / 15 == i && (off + k - 92) % 15 == k);
    }
    lemma_port_bytes(b, off, c.rs485[i]);
}

proof fn lemma_blob_tcp_ports(c: CfgView)
    requires
        storable(c),
    ensures
        Seq::new(4, |i: int| blob_tcp_port(cfg_blob(c), i)) == c.tcp_ports,
{
    let b = cfg_blob(c);
    assert forall|i: int| 0 <= i < 4 implies blob_tcp_port(b, i) == #[trigger] c.tcp_ports[i] by {
        assert(b[137 + 2 * i] == wbyte(c.tcp_ports[i], 0));
        assert(b[137 + 2 * i + 1] == wbyte(c.tcp_ports[i], 1));
        crate::bytes::law_word_of_bytes(c.tcp_ports[i]);
    }
    assert(Seq::new(4, |i: int| blob_tcp_port(b, i)) =~= c.tcp_ports);
}

/// A stored configuration loads as it was.
pub proof fn law_blob_roundtrip(c: CfgView)
    requires
        storable(c),
    ensures
        cfg_of_blob(cfg_blob(c)) == c,
{
    let b = cfg_blob(c);
    let d = cfg_of_blob(b);
    lemma_blob_bytes(c);
    lemma_blob_port(c, 0);
    lemma_blob_port(c, 1);
    lemma_blob_port(c, 2);
    lemma_blob_tcp_ports(c);
    assert(d.rs485 =~= c.rs485);
    crate::bytes::law_word_of_bytes(c.hw_version);
    crate::bytes::law_word_of_bytes(c.fw_version);
    crate::bytes::law_word_of_bytes(c.cfg_version);
    assert(b[48] == lo(c.hw_version) && b[49] == hi(c.hw_version));
    assert(b[50] == lo(c.fw_version) && b[51] == hi(c.fw_version));
    assert(b[52] == lo(c.cfg_version) && b[53] == hi(c.cfg_version));
    assert(d.hw_version == c.hw_version);
    assert(d.dhcp == c.dhcp);
    assert(d =~= c);
}

} // verus!

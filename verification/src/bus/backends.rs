//! The Modbus view of the gateway: coils, discrete inputs, input registers and
//! holding registers.

use crate::bits::{bit, get_bit};
use crate::bus::io_state::channel;
use crate::bus::storage_state::StorageView;
use crate::bytes::{be_bytes, high, low, make_word, word};
use crate::config::{hw_version, regs};
use crate::control_logic::{
    analog_result_version, analog_result_word, feedback_at, feedback_word, holding_of, refreshed, result_word,
};
use crate::device::system_config::{cfg_read, CfgView};
use crate::device::PROTO_MAGIC;
use crate::error::recovery::{code_of_mode, mode_code};
use crate::error::ringlog::LogEntry;
use crate::gateway::{Gateway, GatewayView};
use crate::modbus::rtu_master::polled_word;
use vstd::prelude::*;

pub use crate::bus::modify::{
    config_modify, config_modify_with_result, storage_modify, storage_modify_holding, storage_restore_legacy_state,
    storage_set_snapshot,
};
pub use crate::bus::writes::{write_coil, write_coils, write_hold_reg, write_hold_regs};

verus! {

// ---- Coils and discrete inputs ----

/// A coil: the inputs from 0 on, the outputs from 0x0200 on, stored coils above
/// them. The rest of the window up to 0x07FF reads as off.
pub open spec fn coil(g: GatewayView, addr: u16) -> Option<bool> {
    if addr < regs::LEGACY_POINT_WINDOW_COUNT {
        Some(addr < hw_version::DI_COUNT && bit(g.io.di, addr as int))
    } else if addr < regs::COIL_DO_BASE {
        Some(false)
    } else if addr < regs::COIL_DO_END {
        Some(bit(g.io.do_, addr - regs::COIL_DO_BASE))
    } else if addr <= regs::LEGACY_COIL_END {
        match g.storage.snapshot {
            Some(s) => Some(s.legacy_coils[addr - regs::LEGACY_COIL_BASE] != 0),
            None => None,
        }
    } else {
        None
    }
}

/// Reads a coil (FC 01).
pub fn read_coil(gw: &Gateway, addr: u16) -> (r: Option<bool>)
    ensures
        r == coil(gw@, addr),
{
    if addr < regs::LEGACY_POINT_WINDOW_COUNT {
        return Some((addr as usize) < hw_version::DI_COUNT && gw.io.di.get_bit(addr as usize));
    }
    if regs::COIL_DO_BASE <= addr && addr < regs::COIL_DO_END {
        return Some(gw.io.do_.get_bit((addr - regs::COIL_DO_BASE) as usize));
    }
    if regs::COIL_DO_END <= addr && addr <= regs::LEGACY_COIL_END {
        return match gw.storage.snapshot.read() {
            Some(s) => Some(s.legacy_coils[(addr - regs::LEGACY_COIL_BASE) as usize] != 0),
            None => None,
        };
    }
    if addr < regs::COIL_DO_BASE {
        return Some(false);
    }
    None
}

/// Reads a discrete input (FC 02); the window is that of the coils.
pub fn read_disc(gw: &Gateway, addr: u16) -> (r: Option<bool>)
    ensures
        r == coil(gw@, addr),
{
    read_coil(gw, addr)
}

// ---- Input registers ----

/// A counter in one register.
pub open spec fn clipped(n: u32) -> u16 {
    if n > 0xFFFF {
        0xFFFF
    } else {
        n as u16
    }
}

fn clip(n: u32) -> (r: u16)
    ensures
        r == clipped(n),
{
    if n > 0xFFFF {
        0xFFFF
    } else {
        n as u16
    }
}

/// Big-endian word `k` of a configuration field; zero without a configuration.
pub open spec fn field_word(field: Option<Seq<u8>>, k: int) -> u16 {
    match field {
        Some(s) => word(s[2 * k], s[2 * k + 1]),
        None => 0,
    }
}

/// The configuration registers among the input registers: firmware date, hardware
/// version, and the address, mask, gateway, MAC and BLE name two bytes a register.
pub open spec fn config_input(c: Option<CfgView>, addr: u16) -> Option<u16> {
    if addr == regs::INREG_FW_DATE {
        Some(
            match c {
                Some(v) => v.fw_date,
                None => 0x0615,
            },
        )
    } else if addr == regs::INREG_HW_VER {
        Some(
            match c {
                Some(v) => v.hw_version,
                None => hw_version::MODEL_CODE,
            },
        )
    } else if c is None && (2247 <= addr <= 2252 || 2263 <= addr <= 2265 || 2274 <= addr <= 2277) {
        Some(0)
    } else if c is None {
        None
    } else if 2247 <= addr <= 2248 {
        Some(field_word(Some(c->0.ip), addr - 2247))
    } else if 2249 <= addr <= 2250 {
        Some(field_word(Some(c->0.mask), addr - 2249))
    } else if 2251 <= addr <= 2252 {
        Some(field_word(Some(c->0.gateway), addr - 2251))
    } else if 2263 <= addr <= 2265 {
        Some(field_word(Some(c->0.eth_mac), addr - 2263))
    } else if 2274 <= addr <= 2277 {
        Some(field_word(Some(c->0.ble_name), addr - 2274))
    } else {
        None
    }
}

/// Word `field` of a log entry.
pub open spec fn log_word(e: LogEntry, field: int) -> u16 {
    if field == 0 {
        (e.timestamp_s % 65536) as u16
    } else if field == 1 {
        (e.timestamp_s / 65536) as u16
    } else if field == 2 {
        e.code
    } else {
        (e.context % 65536) as u16
    }
}

/// The diagnostic registers: recovery counters and mode, dropped BLE frames, and
/// the ring log.
pub open spec fn diagnostic(g: GatewayView, addr: u16) -> Option<u16> {
    if addr == regs::INREG_RECOV_RECOVERABLE {
        Some(clipped(g.recovery.recoverable))
    } else if addr == regs::INREG_RECOV_DEGRADABLE {
        Some(clipped(g.recovery.degradable))
    } else if addr == regs::INREG_RECOV_SEVERE {
        Some(clipped(g.recovery.severe))
    } else if addr == regs::INREG_RECOV_MODE {
        Some(mode_code(g.recovery.mode))
    } else if addr == regs::INREG_RECOV_BLE_DROPS {
        Some(clipped(g.ble_tx_drops))
    } else if addr == regs::INREG_RINGLOG_COUNT {
        Some(g.log.ring.entries.len() as u16)
    } else if addr == regs::INREG_RINGLOG_WRITES {
        Some((g.log.published_count % 65536) as u16)
    } else if regs::INREG_RINGLOG_BASE <= addr < regs::INREG_RINGLOG_BASE + 32 {
        let off = addr - regs::INREG_RINGLOG_BASE;
        Some(
            if off / 4 < g.log.ring.entries.len() {
                log_word(g.log.ring.entries[off / 4], off % 4)
            } else {
                0
            },
        )
    } else {
        None
    }
}

/// The registers that describe the board.
pub open spec fn board(g: GatewayView, addr: u16) -> Option<u16> {
    if addr == regs::INREG_PC_META_BASE {
        Some(hw_version::DO_COUNT as u16)
    } else if addr == 0x0801 {
        Some(hw_version::DI_COUNT as u16)
    } else if addr == 0x0802 {
        Some(regs::INREG_AI_COUNT)
    } else if addr == 0x0803 {
        Some(3)
    } else if addr == 0x0804 || addr == 0x0805 {
        Some(1)
    } else if addr == regs::INREG_QI_COUNT {
        Some((hw_version::DO_COUNT * 256 + hw_version::DI_COUNT) as u16)
    } else if addr == regs::INREG_ADC485 {
        Some((regs::INREG_AI_COUNT * 256 + 2) as u16)
    } else if addr == regs::INREG_FW_VER {
        Some(g.io.sys.firmware_version)
    } else {
        None
    }
}

/// The fixed windows of channel values: analogue inputs, their status, the
/// multicast switch status, and the 3xxxx aliases of inputs and channels.
pub open spec fn window(g: GatewayView, addr: u16) -> Option<u16> {
    if regs::INREG_AI_BASE <= addr < regs::INREG_AI_BASE + 8 {
        Some(
            if addr - regs::INREG_AI_BASE < regs::INREG_AI_COUNT {
                channel(g.io.ai.scaled, addr - regs::INREG_AI_BASE)
            } else {
                0
            },
        )
    } else if regs::INREG_AI_STATUS_BASE <= addr < regs::INREG_AI_STATUS_BASE + regs::INREG_AI_COUNT {
        Some(channel(g.io.ai.status, addr - regs::INREG_AI_STATUS_BASE))
    } else if regs::INREG_SWITCH_STATUS_BASE <= addr < regs::INREG_SWITCH_STATUS_END {
        Some(channel(g.switch_words, addr - regs::INREG_SWITCH_STATUS_BASE))
    } else if regs::MONITOR_PLC_BASE <= addr <= regs::MONITOR_PLC_END {
        let i = addr - regs::MONITOR_PLC_BASE;
        Some(
            if i < 48 {
                if bit(g.io.di, i) {
                    1
                } else {
                    0
                }
            } else if i < 48 + hw_version::AI_COUNT {
                channel(g.io.ai.scaled, i - 48)
            } else {
                0
            },
        )
    } else {
        None
    }
}

/// Whether reading an input register looks at the control-logic table.
pub open spec fn input_reads_table(g: GatewayView, addr: u16) -> bool {
    addr < regs::MONITOR_WORD_COUNT && result_word(g.control, addr) is None
}

/// The state after the control-logic table was looked at.
pub open spec fn table_read(g: GatewayView) -> GatewayView {
    GatewayView { control: refreshed(g.control, holding_of(g.storage)), ..g }
}

/// The state after an input register was read.
pub open spec fn after_input_read(g: GatewayView, addr: u16) -> GatewayView {
    if input_reads_table(g, addr) {
        table_read(g)
    } else {
        g
    }
}

/// An input register. A published analogue value comes first, then a polled one;
/// gaps in the user area and below 0x0880 read as zero.
pub open spec fn input_reg(g: GatewayView, addr: u16) -> Option<u16> {
    if result_word(g.control, addr) is Some {
        result_word(g.control, addr)
    } else if polled_word(g.rtu, addr) is Some {
        polled_word(g.rtu, addr)
    } else if regs::HOLD_USER_BASE <= addr <= regs::HOLD_CFG_END {
        Some(0)
    } else if window(g, addr) is Some {
        window(g, addr)
    } else if board(g, addr) is Some {
        board(g, addr)
    } else if config_input(g.config, addr) is Some {
        config_input(g.config, addr)
    } else if diagnostic(g, addr) is Some {
        diagnostic(g, addr)
    } else if addr < regs::MONITOR_WORD_COUNT {
        match feedback_at(g.control, holding_of(g.storage), g.io, addr) {
            Some(v) => Some(v),
            None => match g.storage.snapshot {
                Some(s) => Some(s.monitor_words[addr as int]),
                None => None,
            },
        }
    } else if addr <= regs::INREG_LEGACY_END {
        Some(0)
    } else {
        None
    }
}

fn read_config_input(gw: &Gateway, addr: u16) -> (r: Option<u16>)
    ensures
        r == config_input(gw@.config, addr),
{
    let snapshot = gw.config.snapshot.read();
    match snapshot {
        Some(s) => {
            let c = &s.cfg;
            if addr == regs::INREG_FW_DATE {
                Some(c.fw_date)
            } else if addr == regs::INREG_HW_VER {
                Some(c.hw_version)
            } else if 2247 <= addr && addr <= 2248 {
                let i: usize = (addr - 2247) as usize * 2;
                Some(make_word(c.ip[i], c.ip[i + 1]))
            } else if 2249 <= addr && addr <= 2250 {
                let i: usize = (addr - 2249) as usize * 2;
                Some(make_word(c.mask[i], c.mask[i + 1]))
            } else if 2251 <= addr && addr <= 2252 {
                let i: usize = (addr - 2251) as usize * 2;
                Some(make_word(c.gateway[i], c.gateway[i + 1]))
            } else if 2263 <= addr && addr <= 2265 {
                let i: usize = (addr - 2263) as usize * 2;
                Some(make_word(c.eth_mac[i], c.eth_mac[i + 1]))
            } else if 2274 <= addr && addr <= 2277 {
                let i: usize = (addr - 2274) as usize * 2;
                Some(make_word(c.ble_name[i], c.ble_name[i + 1]))
            } else {
                None
            }
        },
        None => {
            if addr == regs::INREG_FW_DATE {
                Some(0x0615)
            } else if addr == regs::INREG_HW_VER {
                Some(hw_version::MODEL_CODE)
            } else if (2247 <= addr && addr <= 2252) || (2263 <= addr && addr <= 2265) || (2274 <= addr && addr
                <= 2277) {
                Some(0)
            } else {
                None
            }
        },
    }
}

fn read_diagnostic(gw: &Gateway, addr: u16) -> (r: Option<u16>)
    ensures
        r == diagnostic(gw@, addr),
{
    if addr == regs::INREG_RECOV_RECOVERABLE {
        return Some(clip(gw.recovery.recoverable));
    }
    if addr == regs::INREG_RECOV_DEGRADABLE {
        return Some(clip(gw.recovery.degradable));
    }
    if addr == regs::INREG_RECOV_SEVERE {
        return Some(clip(gw.recovery.severe));
    }
    if addr == regs::INREG_RECOV_MODE {
        return Some(code_of_mode(gw.recovery.mode));
    }
    if addr == regs::INREG_RECOV_BLE_DROPS {
        return Some(clip(gw.ble_tx_drops));
    }
    if addr == regs::INREG_RINGLOG_COUNT {
        return Some(gw.log.ring.len() as u16);
    }
    if addr == regs::INREG_RINGLOG_WRITES {
        return Some((gw.log.published_count % 65536) as u16);
    }
    if regs::INREG_RINGLOG_BASE <= addr && addr < regs::INREG_RINGLOG_BASE + 32 {
        let off: u16 = addr - regs::INREG_RINGLOG_BASE;
        let entry: usize = (off / 4) as usize;
        let field: u16 = off % 4;
        let entries = gw.log.ring.entries();
        if entry >= entries.len() {
            return Some(0);
        }
        let e: LogEntry = entries[entry];
        return Some(
            if field == 0 {
                (e.timestamp_s % 65536) as u16
            } else if field == 1 {
                (e.timestamp_s / 65536) as u16
            } else if field == 2 {
                e.code
            } else {
                (e.context % 65536) as u16
            },
        );
    }
    None
}

fn read_board(gw: &Gateway, addr: u16) -> (r: Option<u16>)
    ensures
        r == board(gw@, addr),
{
    if addr == regs::INREG_PC_META_BASE {
        Some(hw_version::DO_COUNT as u16)
    } else if addr == 0x0801 {
        Some(hw_version::DI_COUNT as u16)
    } else if addr == 0x0802 {
        Some(regs::INREG_AI_COUNT)
    } else if addr == 0x0803 {
        Some(3)
    } else if addr == 0x0804 || addr == 0x0805 {
        Some(1)
    } else if addr == regs::INREG_QI_COUNT {
        Some((hw_version::DO_COUNT as u16) * 256 + (hw_version::DI_COUNT as u16))
    } else if addr == regs::INREG_ADC485 {
        Some(regs::INREG_AI_COUNT * 256 + 2)
    } else if addr == regs::INREG_FW_VER {
        Some(gw.io.sys.get_fw_version())
    } else {
        None
    }
}

fn read_window(gw: &Gateway, addr: u16) -> (r: Option<u16>)
    ensures
        r == window(gw@, addr),
{
    if regs::INREG_AI_BASE <= addr && addr < regs::INREG_AI_BASE + regs::LEGACY_AI_WINDOW_COUNT {
        let i: u16 = addr - regs::INREG_AI_BASE;
        return Some(
            if i < regs::INREG_AI_COUNT {
                gw.io.ai.get_scaled(i as usize)
            } else {
                0
            },
        );
    }
    if regs::INREG_AI_STATUS_BASE <= addr && addr < regs::INREG_AI_STATUS_BASE + regs::INREG_AI_COUNT {
        return Some(gw.io.ai.get_status((addr - regs::INREG_AI_STATUS_BASE) as usize));
    }
    if regs::INREG_SWITCH_STATUS_BASE <= addr && addr < regs::INREG_SWITCH_STATUS_END {
        let i: usize = (addr - regs::INREG_SWITCH_STATUS_BASE) as usize;
        return Some(
            if i < 16 {
                gw.switch_words[i]
            } else {
                0
            },
        );
    }
    if regs::MONITOR_PLC_BASE <= addr && addr <= regs::MONITOR_PLC_END {
        let i: usize = (addr - regs::MONITOR_PLC_BASE) as usize;
        return Some(
            if i < 48 {
                if gw.io.di.get_bit(i) {
                    1
                } else {
                    0
                }
            } else if i < 48 + hw_version::AI_COUNT as usize {
                gw.io.ai.get_scaled(i - 48)
            } else {
                0
            },
        );
    }
    None
}

/// Reads an input register (FC 04).
pub fn read_input_reg(gw: &mut Gateway, addr: u16) -> (r: Option<u16>)
    ensures
        r == input_reg(old(gw)@, addr),
        final(gw)@ == after_input_read(old(gw)@, addr),
{
    if let Some(v) = analog_result_word(&gw.control, addr) {
        return Some(v);
    }
    if let Some(v) = gw.rtu.read_result_reg(addr) {
        return Some(v);
    }
    if regs::HOLD_USER_BASE <= addr && addr <= regs::HOLD_CFG_END {
        return Some(0);
    }
    if let Some(v) = read_window(gw, addr) {
        return Some(v);
    }
    if let Some(v) = read_board(gw, addr) {
        return Some(v);
    }
    if let Some(v) = read_config_input(gw, addr) {
        return Some(v);
    }
    if let Some(v) = read_diagnostic(gw, addr) {
        return Some(v);
    }
    if addr < regs::MONITOR_WORD_COUNT {
        let feedback: Option<u16> = feedback_word(&mut gw.control, &gw.storage, &gw.io, addr);
        if feedback.is_some() {
            return feedback;
        }
        return match gw.storage.snapshot.read() {
            Some(s) => Some(s.monitor_words[addr as usize]),
            None => None,
        };
    }
    if addr <= regs::INREG_LEGACY_END {
        return Some(0);
    }
    None
}

// ---- Holding registers ----

/// A control word: the latched one, the live points at 10 to 13, and the feedback
/// where a record reports there.
pub open spec fn control_reg(g: GatewayView, s: StorageView, addr: u16) -> u16 {
    let stored = if addr == 10 {
        (g.io.do_ % 256) as u16
    } else if addr == 11 {
        (g.io.di % 256) as u16
    } else if addr == 12 {
        ((g.io.do_ / 256) % 256) as u16
    } else if addr == 13 {
        ((g.io.di / 256) % 256) as u16
    } else {
        s.control_words[addr as int]
    };
    match feedback_at(g.control, holding_of(g.storage), g.io, addr) {
        Some(v) => v,
        None => stored,
    }
}

/// Error counter of a serial port.
pub open spec fn port_counter(g: GatewayView, addr: u16) -> u16 {
    let off = addr - regs::HOLD_485_1_COMERR;
    if off % 2 == 0 {
        g.rs485.comerr[off / 2]
    } else {
        g.rs485.apperr[off / 2]
    }
}

/// A 4xxxx alias: the outputs, then the user area.
pub open spec fn control_alias(g: GatewayView, s: StorageView, addr: u16) -> u16 {
    let i = addr - regs::CONTROL_PLC_BASE;
    if i < 48 {
        if bit(g.io.do_, i) {
            1
        } else {
            0
        }
    } else if i - 48 < regs::HOLD_USER_COUNT {
        s.holding_buf[regs::HOLD_USER_BASE - regs::HOLD_PXX_BASE + i - 48]
    } else {
        0
    }
}

/// A holding register, given the configuration and the storage.
pub open spec fn hold_reg_of(g: GatewayView, c: CfgView, s: StorageView, addr: u16) -> Option<u16> {
    if addr >= regs::HOLD_USER_BASE && result_word(g.control, addr) is Some {
        result_word(g.control, addr)
    } else if addr < regs::CONTROL_WORD_COUNT {
        Some(control_reg(g, s, addr))
    } else if regs::HOLD_485_1_COMERR <= addr <= regs::HOLD_485_3_APPERR {
        Some(port_counter(g, addr))
    } else if regs::DEVICE_TEXT_BASE <= addr <= regs::DEVICE_TEXT_END {
        Some(s.device_text[addr - regs::DEVICE_TEXT_BASE])
    } else if polled_word(g.rtu, addr) is Some {
        polled_word(g.rtu, addr)
    } else if regs::HOLD_CFG_BASE <= addr <= regs::HOLD_CFG_END {
        match cfg_read(c, addr) {
            Some(v) => Some(v),
            None => Some(s.holding_buf[addr - regs::HOLD_PXX_BASE]),
        }
    } else if regs::CONTROL_PLC_BASE <= addr <= regs::CONTROL_PLC_END {
        Some(control_alias(g, s, addr))
    } else if regs::PROTO_BASE <= addr < regs::PROTO_END {
        Some(s.proto.data[addr - regs::PROTO_BASE])
    } else if addr == regs::PROTO_COMMIT || addr == regs::PROTO_RELOAD {
        Some(0)
    } else if addr == regs::PROTO_VERSION {
        Some(s.proto.version)
    } else if addr == regs::PROTO_LENGTH {
        Some(s.proto.length)
    } else if addr == regs::PROTO_STATUS {
        Some(g.storage.status as u16)
    } else if addr == regs::PROTO_MAGIC {
        Some(PROTO_MAGIC)
    } else {
        None
    }
}

/// A holding register; without a configuration or storage there is none.
pub open spec fn hold_reg(g: GatewayView, addr: u16) -> Option<u16> {
    match (g.config, g.storage.snapshot) {
        (Some(c), Some(s)) => hold_reg_of(g, c, s, addr),
        _ => None,
    }
}

/// Whether reading a holding register looks at the control-logic table.
pub open spec fn hold_reads_table(g: GatewayView, addr: u16) -> bool {
    g.config is Some && g.storage.snapshot is Some && addr < regs::CONTROL_WORD_COUNT
}

/// The state after a holding register was read.
pub open spec fn after_hold_read(g: GatewayView, addr: u16) -> GatewayView {
    if hold_reads_table(g, addr) {
        table_read(g)
    } else {
        g
    }
}

/// Reads a holding register (FC 03).
pub fn read_hold_reg(gw: &mut Gateway, addr: u16) -> (r: Option<u16>)
    ensures
        r == hold_reg(old(gw)@, addr),
        final(gw)@ == after_hold_read(old(gw)@, addr),
{
    let config = match gw.config.snapshot.read() {
        Some(c) => c,
        None => {
            return None;
        },
    };
    let storage = match gw.storage.snapshot.read() {
        Some(s) => s,
        None => {
            return None;
        },
    };
    if addr >= regs::HOLD_USER_BASE {
        if let Some(v) = analog_result_word(&gw.control, addr) {
            return Some(v);
        }
    }
    if addr < regs::CONTROL_WORD_COUNT {
        let stored: u16 = if addr == 10 {
            (gw.io.do_.load_bits() % 256) as u16
        } else if addr == 11 {
            (gw.io.di.load_bits() % 256) as u16
        } else if addr == 12 {
            ((gw.io.do_.load_bits() / 256) % 256) as u16
        } else if addr == 13 {
            ((gw.io.di.load_bits() / 256) % 256) as u16
        } else {
            storage.control_words[addr as usize]
        };
        let feedback: Option<u16> = feedback_word(&mut gw.control, &gw.storage, &gw.io, addr);
        return match feedback {
            Some(v) => Some(v),
            None => Some(stored),
        };
    }
    if regs::HOLD_485_1_COMERR <= addr && addr <= regs::HOLD_485_3_APPERR {
        let off: usize = (addr - regs::HOLD_485_1_COMERR) as usize;
        return Some(
            if off % 2 == 0 {
                gw.rs485.port_comerr(off / 2)
            } else {
                gw.rs485.port_apperr(off / 2)
            },
        );
    }
    if regs::DEVICE_TEXT_BASE <= addr && addr <= regs::DEVICE_TEXT_END {
        return Some(storage.device_text[(addr - regs::DEVICE_TEXT_BASE) as usize]);
    }
    if let Some(v) = gw.rtu.read_result_reg(addr) {
        return Some(v);
    }
    if regs::HOLD_CFG_BASE <= addr && addr <= regs::HOLD_CFG_END {
        if let Some(v) = config.cfg.read_reg(addr) {
            return Some(v);
        }
        return Some(storage.holding_buf[(addr - regs::HOLD_PXX_BASE) as usize]);
    }
    if regs::CONTROL_PLC_BASE <= addr && addr <= regs::CONTROL_PLC_END {
        let i: usize = (addr - regs::CONTROL_PLC_BASE) as usize;
        return Some(
            if i < 48 {
                if gw.io.do_.get_bit(i) {
                    1
                } else {
                    0
                }
            } else if i - 48 < regs::HOLD_USER_COUNT as usize {
                storage.holding_buf[(regs::HOLD_USER_BASE - regs::HOLD_PXX_BASE) as usize + (i - 48)]
            } else {
                0
            },
        );
    }
    if regs::PROTO_BASE <= addr && addr < regs::PROTO_END {
        return Some(storage.proto.data[(addr - regs::PROTO_BASE) as usize]);
    }
    if addr == regs::PROTO_COMMIT || addr == regs::PROTO_RELOAD {
        return Some(0);
    }
    if addr == regs::PROTO_VERSION {
        return Some(storage.proto.version);
    }
    if addr == regs::PROTO_LENGTH {
        return Some(storage.proto.length);
    }
    if addr == regs::PROTO_STATUS {
        return Some(gw.storage.status as u16);
    }
    if addr == regs::PROTO_MAGIC {
        return Some(PROTO_MAGIC);
    }
    None
}

// ---- Blocks ----

/// Attempts at reading a block without a publication in between.
pub const READ_TRIES: usize = 4;

/// Result of reading a block: the state, and the words if all registers exist.
pub struct BlockRead {
    pub g: GatewayView,
    pub words: Option<Seq<u16>>,
}

/// Whether no publication of analogue or polled values is under way.
pub open spec fn quiet(g: GatewayView) -> bool {
    g.control.version % 2 == 0 && g.rtu.version % 2 == 0
}

/// A buffer whose first bytes were overwritten.
pub open spec fn overlaid(out: Seq<u8>, b: Seq<u8>) -> Seq<u8> {
    b + out.skip(b.len() as int)
}

// ---- Blocks of input registers ----

/// The first `n` input registers of a block read one after another, up to the
/// first that does not exist.
pub open spec fn input_run(g: GatewayView, addr: u16, n: nat) -> BlockRead
    decreases n,
{
    if n == 0 {
        BlockRead { g, words: Some(Seq::empty()) }
    } else {
        let b = input_run(g, addr, (n - 1) as nat);
        let a = (addr + (n - 1)) as u16;
        match b.words {
            None => b,
            Some(words) => BlockRead {
                g: after_input_read(b.g, a),
                words: match input_reg(b.g, a) {
                    Some(v) => Some(words.push(v)),
                    None => None,
                },
            },
        }
    }
}

/// A block of input registers read in at most `tries` attempts. An attempt counts
/// only if no publication was under way when it began and none happened during
/// it.
pub open spec fn input_block(g: GatewayView, addr: u16, n: nat, tries: nat) -> BlockRead
    decreases tries,
{
    if tries == 0 {
        BlockRead { g, words: None }
    } else if !quiet(g) {
        input_block(g, addr, n, (tries - 1) as nat)
    } else {
        let b = input_run(g, addr, n);
        if b.words is Some && b.g.control.version != g.control.version {
            input_block(b.g, addr, n, (tries - 1) as nat)
        } else {
            b
        }
    }
}

/// The first words of a block, up to the first register that does not exist.
pub open spec fn input_prefix(g: GatewayView, addr: u16, n: nat) -> Seq<u16>
    decreases n,
{
    if n == 0 {
        Seq::empty()
    } else {
        match input_run(g, addr, n).words {
            Some(words) => words,
            None => input_prefix(g, addr, (n - 1) as nat),
        }
    }
}

/// The buffer after a block was read into it in at most `tries` attempts: each attempt
/// overwrites it as far as the registers exist.
pub open spec fn input_buffer(g: GatewayView, addr: u16, n: nat, tries: nat, out: Seq<u8>) -> Seq<u8>
    decreases tries,
{
    if tries == 0 {
        out
    } else if !quiet(g) {
        input_buffer(g, addr, n, (tries - 1) as nat, out)
    } else {
        let b = input_run(g, addr, n);
        let read = overlaid(out, be_bytes(input_prefix(g, addr, n)));
        if b.words is Some && b.g.control.version != g.control.version {
            input_buffer(b.g, addr, n, (tries - 1) as nat, read)
        } else {
            read
        }
    }
}

/// Nothing is added to the words of a block after a register that does not exist.
proof fn lemma_input_prefix(g: GatewayView, addr: u16, k: nat, n: nat)
    requires
        k < n,
        input_run(g, addr, k + 1).words is None,
    ensures
        input_prefix(g, addr, n) == input_prefix(g, addr, k),
    decreases n,
{
    lemma_input_gap(g, addr, k + 1, n);
    if k + 1 < n {
        lemma_input_prefix(g, addr, k, (n - 1) as nat);
    }
}

/// One attempt at a block.
fn input_attempt(gw: &mut Gateway, addr: u16, count: u16, out: &mut [u8]) -> (r: bool)
    requires
        old(out)@.len() == 2 * count,
        addr + count <= 0x1_0000,
    ensures
        r == (input_run(old(gw)@, addr, count as nat).words is Some),
        r ==> final(out)@ == be_bytes(input_run(old(gw)@, addr, count as nat).words->0),
        final(gw)@ == input_run(old(gw)@, addr, count as nat).g,
        final(out)@ == overlaid(old(out)@, be_bytes(input_prefix(old(gw)@, addr, count as nat))),
        final(out)@.len() == old(out)@.len(),
{
    let mut k: u16 = 0;
    while k < count
        invariant
            k <= count,
            out@.len() == 2 * count,
            out@.len() == old(out)@.len(),
            addr + count <= 0x1_0000,
            input_run(old(gw)@, addr, k as nat).words is Some,
            input_run(old(gw)@, addr, k as nat).g == gw@,
            input_run(old(gw)@, addr, k as nat).words->0.len() == k,
            forall|i: int|
                0 <= i < 2 * k ==> #[trigger] out@[i] == be_bytes(
                    input_run(old(gw)@, addr, k as nat).words->0,
                )[i],
            forall|i: int| 2 * k <= i < out@.len() ==> #[trigger] out@[i] == old(out)@[i],
            input_prefix(old(gw)@, addr, k as nat) == input_run(old(gw)@, addr, k as nat).words->0,
        decreases count - k,
    {
        let ghost words = input_run(old(gw)@, addr, k as nat).words->0;
        let a: u16 = (addr as u32 + k as u32) as u16;
        match read_input_reg(gw, a) {
            Some(v) => {
                let at: usize = k as usize * 2;
                out[at] = high(v);
                out[at + 1] = low(v);
                proof {
                    assert(input_run(old(gw)@, addr, (k + 1) as nat).words == Some(words.push(v)));
                    assert forall|i: int| 0 <= i < 2 * k + 2 implies #[trigger] out@[i] == be_bytes(words.push(v))[i] by {
                        if i < 2 * k {
                            assert(out@[i] == be_bytes(words)[i]);
                        }
                    }
                }
            },
            None => {
                proof {
                    lemma_input_gap(old(gw)@, addr, (k + 1) as nat, count as nat);
                    lemma_input_prefix(old(gw)@, addr, k as nat, count as nat);
                    assert(out@ =~= overlaid(old(out)@, be_bytes(words)));
                }
                return false;
            },
        }
        k += 1;
    }
    assert(out@ =~= be_bytes(input_run(old(gw)@, addr, count as nat).words->0));
    assert(out@ =~= overlaid(old(out)@, out@));
    true
}

/// Nothing is read after a register that does not exist.
proof fn lemma_input_gap(g: GatewayView, addr: u16, k: nat, n: nat)
    requires
        k <= n,
        input_run(g, addr, k).words is None,
    ensures
        input_run(g, addr, n) == input_run(g, addr, k),
    decreases n,
{
    if k < n {
        lemma_input_gap(g, addr, k, (n - 1) as nat);
    }
}

/// Reads a block of input registers as big-endian bytes (FC 04). A request that makes
/// no sense leaves the buffer alone; after any other failure it holds the registers that
/// were read.
pub fn encode_input_regs_be(gw: &mut Gateway, addr: u16, count: u16, out: &mut [u8]) -> (r: bool)
    ensures
        ({
            let asked = count > 0 && old(out)@.len() == 2 * count && addr + count <= 0x1_0000;
            let b = input_block(old(gw)@, addr, count as nat, READ_TRIES as nat);
            &&& r == (asked && b.words is Some)
            &&& r ==> final(out)@ == be_bytes(b.words->0)
            &&& final(out)@ == (if asked {
                input_buffer(old(gw)@, addr, count as nat, READ_TRIES as nat, old(out)@)
            } else {
                old(out)@
            })
            &&& final(gw)@ == (if asked {
                b.g
            } else {
                old(gw)@
            })
        }),
        final(out)@.len() == old(out)@.len(),
{
    if count == 0 || out.len() != count as usize * 2 {
        return false;
    }
    if addr as u32 + count as u32 - 1 > 0xFFFF {
        return false;
    }
    let mut left: usize = READ_TRIES;
    while left > 0
        invariant
            left <= READ_TRIES,
            out@.len() == 2 * count,
            out@.len() == old(out)@.len(),
            count > 0,
            addr + count <= 0x1_0000,
            input_block(old(gw)@, addr, count as nat, READ_TRIES as nat) == input_block(
                gw@,
                addr,
                count as nat,
                left as nat,
            ),
            input_buffer(old(gw)@, addr, count as nat, READ_TRIES as nat, old(out)@) == input_buffer(
                gw@,
                addr,
                count as nat,
                left as nat,
                out@,
            ),
        decreases left,
    {
        let before: u32 = analog_result_version(&gw.control);
        if before % 2 == 0 && gw.rtu.version % 2 == 0 {
            if !input_attempt(gw, addr, count, out) {
                return false;
            }
            if analog_result_version(&gw.control) == before {
                return true;
            }
        }
        left -= 1;
    }
    false
}

// ---- Blocks of holding registers ----

/// The first `n` holding registers of a block read one after another, up to the
/// first that does not exist.
pub open spec fn hold_run(g: GatewayView, addr: u16, n: nat) -> BlockRead
    decreases n,
{
    if n == 0 {
        BlockRead { g, words: Some(Seq::empty()) }
    } else {
        let b = hold_run(g, addr, (n - 1) as nat);
        let a = (addr + (n - 1)) as u16;
        match b.words {
            None => b,
            Some(words) => BlockRead {
                g: after_hold_read(b.g, a),
                words: match hold_reg(b.g, a) {
                    Some(v) => Some(words.push(v)),
                    None => None,
                },
            },
        }
    }
}

/// A block of holding registers read in at most `tries` attempts. An attempt counts
/// only if no publication was under way when it began and none happened during
/// it.
pub open spec fn hold_block(g: GatewayView, addr: u16, n: nat, tries: nat) -> BlockRead
    decreases tries,
{
    if tries == 0 {
        BlockRead { g, words: None }
    } else if !quiet(g) {
        hold_block(g, addr, n, (tries - 1) as nat)
    } else {
        let b = hold_run(g, addr, n);
        if b.words is Some && b.g.control.version != g.control.version {
            hold_block(b.g, addr, n, (tries - 1) as nat)
        } else {
            b
        }
    }
}

/// The first words of a block, up to the first register that does not exist.
pub open spec fn hold_prefix(g: GatewayView, addr: u16, n: nat) -> Seq<u16>
    decreases n,
{
    if n == 0 {
        Seq::empty()
    } else {
        match hold_run(g, addr, n).words {
            Some(words) => words,
            None => hold_prefix(g, addr, (n - 1) as nat),
        }
    }
}

/// The buffer after a block was read into it in at most `tries` attempts: each attempt
/// overwrites it as far as the registers exist.
pub open spec fn hold_buffer(g: GatewayView, addr: u16, n: nat, tries: nat, out: Seq<u8>) -> Seq<u8>
    decreases tries,
{
    if tries == 0 {
        out
    } else if !quiet(g) {
        hold_buffer(g, addr, n, (tries - 1) as nat, out)
    } else {
        let b = hold_run(g, addr, n);
        let read = overlaid(out, be_bytes(hold_prefix(g, addr, n)));
        if b.words is Some && b.g.control.version != g.control.version {
            hold_buffer(b.g, addr, n, (tries - 1) as nat, read)
        } else {
            read
        }
    }
}

/// Nothing is added to the words of a block after a register that does not exist.
proof fn lemma_hold_prefix(g: GatewayView, addr: u16, k: nat, n: nat)
    requires
        k < n,
        hold_run(g, addr, k + 1).words is None,
    ensures
        hold_prefix(g, addr, n) == hold_prefix(g, addr, k),
    decreases n,
{
    lemma_hold_gap(g, addr, k + 1, n);
    if k + 1 < n {
        lemma_hold_prefix(g, addr, k, (n - 1) as nat);
    }
}

/// One attempt at a block.
fn hold_attempt(gw: &mut Gateway, addr: u16, count: u16, out: &mut [u8]) -> (r: bool)
    requires
        old(out)@.len() == 2 * count,
        addr + count <= 0x1_0000,
    ensures
        r == (hold_run(old(gw)@, addr, count as nat).words is Some),
        r ==> final(out)@ == be_bytes(hold_run(old(gw)@, addr, count as nat).words->0),
        final(gw)@ == hold_run(old(gw)@, addr, count as nat).g,
        final(out)@ == overlaid(old(out)@, be_bytes(hold_prefix(old(gw)@, addr, count as nat))),
        final(out)@.len() == old(out)@.len(),
{
    let mut k: u16 = 0;
    while k < count
        invariant
            k <= count,
            out@.len() == 2 * count,
            out@.len() == old(out)@.len(),
            addr + count <= 0x1_0000,
            hold_run(old(gw)@, addr, k as nat).words is Some,
            hold_run(old(gw)@, addr, k as nat).g == gw@,
            hold_run(old(gw)@, addr, k as nat).words->0.len() == k,
            forall|i: int|
                0 <= i < 2 * k ==> #[trigger] out@[i] == be_bytes(
                    hold_run(old(gw)@, addr, k as nat).words->0,
                )[i],
            forall|i: int| 2 * k <= i < out@.len() ==> #[trigger] out@[i] == old(out)@[i],
            hold_prefix(old(gw)@, addr, k as nat) == hold_run(old(gw)@, addr, k as nat).words->0,
        decreases count - k,
    {
        let ghost words = hold_run(old(gw)@, addr, k as nat).words->0;
        let a: u16 = (addr as u32 + k as u32) as u16;
        match read_hold_reg(gw, a) {
            Some(v) => {
                let at: usize = k as usize * 2;
                out[at] = high(v);
                out[at + 1] = low(v);
                proof {
                    assert(hold_run(old(gw)@, addr, (k + 1) as nat).words == Some(words.push(v)));
                    assert forall|i: int| 0 <= i < 2 * k + 2 implies #[trigger] out@[i] == be_bytes(words.push(v))[i] by {
                        if i < 2 * k {
                            assert(out@[i] == be_bytes(words)[i]);
                        }
                    }
                }
            },
            None => {
                proof {
                    lemma_hold_gap(old(gw)@, addr, (k + 1) as nat, count as nat);
                    lemma_hold_prefix(old(gw)@, addr, k as nat, count as nat);
                    assert(out@ =~= overlaid(old(out)@, be_bytes(words)));
                }
                return false;
            },
        }
        k += 1;
    }
    assert(out@ =~= be_bytes(hold_run(old(gw)@, addr, count as nat).words->0));
    assert(out@ =~= overlaid(old(out)@, out@));
    true
}

/// Nothing is read after a register that does not exist.
proof fn lemma_hold_gap(g: GatewayView, addr: u16, k: nat, n: nat)
    requires
        k <= n,
        hold_run(g, addr, k).words is None,
    ensures
        hold_run(g, addr, n) == hold_run(g, addr, k),
    decreases n,
{
    if k < n {
        lemma_hold_gap(g, addr, k, (n - 1) as nat);
    }
}

/// Reads a block of holding registers as big-endian bytes (FC 03). A request that makes
/// no sense leaves the buffer alone; after any other failure it holds the registers that
/// were read.
pub fn encode_hold_regs_be(gw: &mut Gateway, addr: u16, count: u16, out: &mut [u8]) -> (r: bool)
    ensures
        ({
            let asked = count > 0 && old(out)@.len() == 2 * count && addr + count <= 0x1_0000;
            let b = hold_block(old(gw)@, addr, count as nat, READ_TRIES as nat);
            &&& r == (asked && b.words is Some)
            &&& r ==> final(out)@ == be_bytes(b.words->0)
            &&& final(out)@ == (if asked {
                hold_buffer(old(gw)@, addr, count as nat, READ_TRIES as nat, old(out)@)
            } else {
                old(out)@
            })
            &&& final(gw)@ == (if asked {
                b.g
            } else {
                old(gw)@
            })
        }),
        final(out)@.len() == old(out)@.len(),
{
    if count == 0 || out.len() != count as usize * 2 {
        return false;
    }
    if addr as u32 + count as u32 - 1 > 0xFFFF {
        return false;
    }
    let mut left: usize = READ_TRIES;
    while left > 0
        invariant
            left <= READ_TRIES,
            out@.len() == 2 * count,
            out@.len() == old(out)@.len(),
            count > 0,
            addr + count <= 0x1_0000,
            hold_block(old(gw)@, addr, count as nat, READ_TRIES as nat) == hold_block(
                gw@,
                addr,
                count as nat,
                left as nat,
            ),
            hold_buffer(old(gw)@, addr, count as nat, READ_TRIES as nat, old(out)@) == hold_buffer(
                gw@,
                addr,
                count as nat,
                left as nat,
                out@,
            ),
        decreases left,
    {
        let before: u32 = analog_result_version(&gw.control);
        if before % 2 == 0 && gw.rtu.version % 2 == 0 {
            if !hold_attempt(gw, addr, count, out) {
                return false;
            }
            if analog_result_version(&gw.control) == before {
                return true;
            }
        }
        left -= 1;
    }
    false
}

// ---- Laws ----

/// Whether the control-logic table is up to date.
pub open spec fn settled(g: GatewayView) -> bool {
    g.control.table_generation == g.control.config_generation
}

/// Looking at the table brings it up to date, and looking again changes nothing.
pub proof fn law_table_read_settles(g: GatewayView)
    ensures
        settled(table_read(g)),
        table_read(table_read(g)) == table_read(g),
        settled(g) ==> table_read(g) == g,
{
}

/// Reading a register twice gives the same value, unless the first read brought
/// the control-logic table up to date.
pub proof fn law_reads_repeat(g: GatewayView, addr: u16)
    ensures
        hold_reg(after_hold_read(g, addr), addr) == hold_reg(g, addr),
        settled(g) ==> after_hold_read(g, addr) == g && after_input_read(g, addr) == g,
        settled(g) ==> input_reg(after_input_read(g, addr), addr) == input_reg(g, addr),
{
    law_table_read_settles(g);
}

proof fn lemma_input_run_shape(g: GatewayView, addr: u16, n: nat)
    requires
        addr + n <= 0x1_0000,
    ensures
        input_run(g, addr, n).g == g || (input_run(g, addr, n).g == table_read(g) && !settled(g)),
        input_run(g, addr, n).words is Some ==> input_run(g, addr, n).words->0.len() == n,
        input_run(g, addr, n).words is Some && input_run(g, addr, n).g == g ==> forall|i: int|
            0 <= i < n ==> Some(#[trigger] input_run(g, addr, n).words->0[i]) == input_reg(g, (addr + i) as u16),
    decreases n,
{
    law_table_read_settles(g);
    if n > 0 {
        lemma_input_run_shape(g, addr, (n - 1) as nat);
        let b = input_run(g, addr, (n - 1) as nat);
        let a = (addr + (n - 1)) as u16;
        law_table_read_settles(b.g);
        assert(after_input_read(b.g, a) == b.g || after_input_read(b.g, a) == table_read(b.g));
        if b.g != g {
            assert(table_read(b.g) == b.g);
        }
        let r = input_run(g, addr, n);
        if r.words is Some && r.g == g {
            assert(b.g == g) by {
                if b.g != g {
                    assert(settled(b.g));
                }
            }
            assert forall|i: int| 0 <= i < n implies Some(#[trigger] r.words->0[i]) == input_reg(g, (addr + i) as u16) by {
                if i < n - 1 {
                    assert(r.words->0[i] == b.words->0[i]);
                }
            }
        }
    }
}

/// All words of a block come from one state: no block mixes values from before and
/// after a publication.
pub proof fn law_input_block_is_coherent(g: GatewayView, addr: u16, n: nat, tries: nat)
    requires
        addr + n <= 0x1_0000,
    ensures
        ({
            let b = input_block(g, addr, n, tries);
            b.words is Some ==> b.words->0.len() == n && forall|i: int|
                0 <= i < n ==> Some(#[trigger] b.words->0[i]) == input_reg(b.g, (addr + i) as u16)
        }),
    decreases tries,
{
    if tries > 0 {
        if !quiet(g) {
            law_input_block_is_coherent(g, addr, n, (tries - 1) as nat);
        } else {
            lemma_input_run_shape(g, addr, n);
            let b = input_run(g, addr, n);
            if b.words is Some && b.g.control.version != g.control.version {
                law_input_block_is_coherent(b.g, addr, n, (tries - 1) as nat);
            } else if b.words is Some {
                assert(b.g == g) by {
                    if b.g != g {
                        assert(b.g.control.version == g.control.version.wrapping_add(2));
                    }
                }
            }
        }
    }
}

proof fn lemma_hold_run_shape(g: GatewayView, addr: u16, n: nat)
    requires
        addr + n <= 0x1_0000,
    ensures
        hold_run(g, addr, n).g == g || (hold_run(g, addr, n).g == table_read(g) && !settled(g)),
        hold_run(g, addr, n).words is Some ==> hold_run(g, addr, n).words->0.len() == n,
        hold_run(g, addr, n).words is Some && hold_run(g, addr, n).g == g ==> forall|i: int|
            0 <= i < n ==> Some(#[trigger] hold_run(g, addr, n).words->0[i]) == hold_reg(g, (addr + i) as u16),
    decreases n,
{
    law_table_read_settles(g);
    if n > 0 {
        lemma_hold_run_shape(g, addr, (n - 1) as nat);
        let b = hold_run(g, addr, (n - 1) as nat);
        let a = (addr + (n - 1)) as u16;
        law_table_read_settles(b.g);
        assert(after_hold_read(b.g, a) == b.g || after_hold_read(b.g, a) == table_read(b.g));
        if b.g != g {
            assert(table_read(b.g) == b.g);
        }
        let r = hold_run(g, addr, n);
        if r.words is Some && r.g == g {
            assert(b.g == g) by {
                if b.g != g {
                    assert(settled(b.g));
                }
            }
            assert forall|i: int| 0 <= i < n implies Some(#[trigger] r.words->0[i]) == hold_reg(g, (addr + i) as u16) by {
                if i < n - 1 {
                    assert(r.words->0[i] == b.words->0[i]);
                }
            }
        }
    }
}

/// All words of a block come from one state: no block mixes values from before and
/// after a publication.
pub proof fn law_hold_block_is_coherent(g: GatewayView, addr: u16, n: nat, tries: nat)
    requires
        addr + n <= 0x1_0000,
    ensures
        ({
            let b = hold_block(g, addr, n, tries);
            b.words is Some ==> b.words->0.len() == n && forall|i: int|
                0 <= i < n ==> Some(#[trigger] b.words->0[i]) == hold_reg(b.g, (addr + i) as u16)
        }),
    decreases tries,
{
    if tries > 0 {
        if !quiet(g) {
            law_hold_block_is_coherent(g, addr, n, (tries - 1) as nat);
        } else {
            lemma_hold_run_shape(g, addr, n);
            let b = hold_run(g, addr, n);
            if b.words is Some && b.g.control.version != g.control.version {
                law_hold_block_is_coherent(b.g, addr, n, (tries - 1) as nat);
            } else if b.words is Some {
                assert(b.g == g) by {
                    if b.g != g {
                        assert(b.g.control.version == g.control.version.wrapping_add(2));
                    }
                }
            }
        }
    }
}

proof fn lemma_input_run_reads(g: GatewayView, addr: u16, n: nat)
    requires
        g.storage.snapshot is Some,
        addr + n <= 0x1_0000,
        forall|i: int| 0 <= i < n ==> input_reg(g, #[trigger] ((addr + i) as u16)) is Some,
    ensures
        input_run(g, addr, n).words is Some,
    decreases n,
{
    if n > 0 {
        lemma_input_run_reads(g, addr, (n - 1) as nat);
        lemma_input_run_shape(g, addr, (n - 1) as nat);
        let a = (addr + (n - 1)) as u16;
        assert(input_reg(g, a) is Some);
        assert(input_reg(table_read(g), a) is Some);
    }
}

/// A block of registers that all exist is read whenever no publication is under
/// way: the attempts are enough.
pub proof fn law_input_block_succeeds(g: GatewayView, addr: u16, n: nat)
    requires
        g.storage.snapshot is Some,
        addr + n <= 0x1_0000,
        quiet(g),
        forall|i: int| 0 <= i < n ==> input_reg(g, #[trigger] ((addr + i) as u16)) is Some,
    ensures
        input_block(g, addr, n, READ_TRIES as nat).words is Some,
{
    reveal_with_fuel(input_block, 3);
    lemma_input_run_reads(g, addr, n);
    lemma_input_run_shape(g, addr, n);
    let b = input_run(g, addr, n);
    if b.g.control.version != g.control.version {
        law_table_read_settles(g);
        assert(quiet(b.g));
        assert forall|i: int| 0 <= i < n implies input_reg(b.g, #[trigger] ((addr + i) as u16)) is Some by {
            assert(input_reg(g, (addr + i) as u16) is Some);
        }
        lemma_input_run_reads(b.g, addr, n);
        lemma_input_run_shape(b.g, addr, n);
    }
}

proof fn lemma_hold_run_reads(g: GatewayView, addr: u16, n: nat)
    requires
        addr + n <= 0x1_0000,
        forall|i: int| 0 <= i < n ==> hold_reg(g, #[trigger] ((addr + i) as u16)) is Some,
    ensures
        hold_run(g, addr, n).words is Some,
    decreases n,
{
    if n > 0 {
        lemma_hold_run_reads(g, addr, (n - 1) as nat);
        lemma_hold_run_shape(g, addr, (n - 1) as nat);
        let a = (addr + (n - 1)) as u16;
        assert(hold_reg(g, a) is Some);
        assert(hold_reg(table_read(g), a) is Some);
    }
}

/// A block of registers that all exist is read whenever no publication is under
/// way: the attempts are enough.
pub proof fn law_hold_block_succeeds(g: GatewayView, addr: u16, n: nat)
    requires
        addr + n <= 0x1_0000,
        quiet(g),
        forall|i: int| 0 <= i < n ==> hold_reg(g, #[trigger] ((addr + i) as u16)) is Some,
    ensures
        hold_block(g, addr, n, READ_TRIES as nat).words is Some,
{
    reveal_with_fuel(hold_block, 3);
    lemma_hold_run_reads(g, addr, n);
    lemma_hold_run_shape(g, addr, n);
    let b = hold_run(g, addr, n);
    if b.g.control.version != g.control.version {
        law_table_read_settles(g);
        assert(quiet(b.g));
        assert forall|i: int| 0 <= i < n implies hold_reg(b.g, #[trigger] ((addr + i) as u16)) is Some by {
            assert(hold_reg(g, (addr + i) as u16) is Some);
        }
        lemma_hold_run_reads(b.g, addr, n);
        lemma_hold_run_shape(b.g, addr, n);
    }
}

/// Every coil of the window up to 0x07FF can be read, and none above it.
pub proof fn law_coil_window(g: GatewayView, addr: u16)
    requires
        g.storage.snapshot is Some,
    ensures
        coil(g, addr) is Some <==> addr <= regs::LEGACY_COIL_END,
{
}

/// Every input register up to 0x087F, of the user area and of the 3xxxx aliases
/// can be read.
pub proof fn law_input_windows(g: GatewayView, addr: u16)
    requires
        g.storage.snapshot is Some,
        addr <= regs::INREG_LEGACY_END || regs::HOLD_USER_BASE <= addr <= regs::HOLD_CFG_END
            || regs::MONITOR_PLC_BASE <= addr <= regs::MONITOR_PLC_END,
    ensures
        input_reg(g, addr) is Some,
{
}

/// The holding registers that can be read: the control words, the configuration
/// and register buffer area, the device text, the 4xxxx aliases and the protocol
/// store with its control words.
pub proof fn law_holding_windows(g: GatewayView, addr: u16)
    requires
        g.storage.snapshot is Some,
        g.config is Some,
    ensures
        hold_reg(g, addr) is Some <==> (addr < regs::CONTROL_WORD_COUNT || regs::HOLD_CFG_BASE <= addr
            <= regs::HOLD_CFG_END || regs::DEVICE_TEXT_BASE <= addr <= regs::DEVICE_TEXT_END
            || regs::CONTROL_PLC_BASE <= addr <= regs::CONTROL_PLC_END || regs::PROTO_BASE <= addr
            <= regs::PROTO_MAGIC),
{
}

} // verus!

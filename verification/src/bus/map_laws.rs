//! Laws of the register map: what stands at each address, and what a write to it does.

use crate::bits::{bit, law_bit_of_with_bit};
use crate::bus::backends::{
    coil, hold_block, hold_buffer, hold_prefix, hold_reg, hold_run, input_block, input_buffer, input_prefix, input_reg,
    input_run, law_reads_repeat, overlaid, quiet, settled,
};
use crate::bus::io_state::{channel, with_channel};
use crate::bus::laws::started;
use crate::bus::writes::{
    block_run, block_start, block_step, block_writable, block_written, coil_written, coils_written, hold_written,
    writable, Block,
};
use crate::bytes::be_bytes;
use crate::control_logic::{control_written, feedback_at, holding_of, result_word};
use crate::device::system_config::{
    cfg_default, cfg_read, cfg_write, cfg_write_result, law_write_keeps_others, law_write_read_back, reads_back,
};
use crate::device::DeviceCmd;
use crate::gateway::GatewayView;
use crate::modbus::rtu_master::polled_word;
use vstd::prelude::*;

verus! {

// ---- Points ----

/// The coils: sixteen inputs from 0, sixteen outputs from 512, stored coils from 528 to
/// 2047. What lies between is off.
pub proof fn law_coils_show_the_points(g: GatewayView, addr: u16)
    requires
        g.storage.snapshot is Some,
    ensures
        addr < 16 ==> coil(g, addr) == Some(bit(g.io.di, addr as int)),
        16 <= addr < 512 ==> coil(g, addr) == Some(false),
        512 <= addr < 528 ==> coil(g, addr) == Some(bit(g.io.do_, addr - 512)),
        528 <= addr < 2048 ==> coil(g, addr) == Some(g.storage.snapshot->0.legacy_coils[addr - 512] != 0),
        2048 <= addr ==> coil(g, addr) is None,
{
}

/// A coil write switches one output and has it driven, stores a coil and marks it, or
/// at 1026 and 1027 asks for a restart; nothing else changes.
pub proof fn law_coil_write_does(g: GatewayView, addr: u16, v: bool, j: int)
    requires
        started(g),
        0 <= j < 64,
    ensures
        ({
            let w = coil_written(g, addr, v).g;
            &&& 512 <= addr < 528 ==> w.do_notify && w.storage == g.storage && bit(w.io.do_, j) == (if j == addr - 512 {
                v
            } else {
                bit(g.io.do_, j)
            })
            &&& addr == 1026 || addr == 1027 ==> w.storage == g.storage && w.io.do_ == g.io.do_
                && w.io.sys.reset_request == (if v {
                1
            } else {
                g.io.sys.reset_request
            })
            &&& 528 <= addr < 2048 && addr != 1026 && addr != 1027 ==> w.io == g.io && w.storage.legacy_io_dirty
                && w.storage.snapshot->0.legacy_coils == g.storage.snapshot->0.legacy_coils.update(
                addr - 512,
                if v {
                    1u8
                } else {
                    0
                },
            )
            &&& addr < 512 || addr >= 2048 ==> !coil_written(g, addr, v).ok && w == g
        }),
{
    if 512 <= addr < 528 {
        law_bit_of_with_bit(g.io.do_, addr - 512, j, v);
    }
}

/// A run of coils is accepted where it holds a coil, has a bit for each coil and no byte
/// more, and lies between 512 and 2047. A run that reaches an output has the outputs
/// driven; one that reaches past them is marked to be persisted.
pub proof fn law_coil_runs_are_accepted(g: GatewayView, addr: u16, count: u16, packed: Seq<u8>)
    ensures
        ({
            let w = coils_written(g, addr, count, packed);
            &&& w.ok <==> count >= 1 && 8 * (packed.len() - 1) < count <= 8 * packed.len() && 512 <= addr && addr + count
                <= 2048
            &&& w.ok && addr < 528 ==> w.g.do_notify
            &&& w.ok && addr >= 528 ==> w.g.io == g.io && w.g.do_notify == g.do_notify
            &&& w.ok && addr + count > 528 ==> w.g.storage.legacy_io_dirty
            &&& w.ok && addr + count <= 528 ==> w.g.storage == g.storage
        }),
{
}

// ---- Input registers ----

/// Whether no published or polled value stands for a register.
pub open spec fn is_plain(g: GatewayView, addr: u16) -> bool {
    result_word(g.control, addr) is None && polled_word(g.rtu, addr) is None
}

/// A published value stands for any other at its register, and a polled value for any
/// but a published one.
pub proof fn law_published_values_come_first(g: GatewayView, addr: u16)
    ensures
        result_word(g.control, addr) is Some ==> input_reg(g, addr) == result_word(g.control, addr),
        result_word(g.control, addr) is None && polled_word(g.rtu, addr) is Some ==> input_reg(g, addr)
            == polled_word(g.rtu, addr),
        started(g) && addr >= 4000 && result_word(g.control, addr) is Some ==> hold_reg(g, addr) == result_word(
            g.control,
            addr,
        ),
        started(g) && addr >= 4000 && result_word(g.control, addr) is None && polled_word(g.rtu, addr) is Some
            ==> hold_reg(g, addr) == polled_word(g.rtu, addr),
        polled_word(g.rtu, addr) is Some <==> 4000 <= addr < 4224 && g.rtu.valid[addr - 4000],
        polled_word(g.rtu, addr) is Some ==> polled_word(g.rtu, addr)->0 == g.rtu.words[addr - 4000],
{
}

/// The channel registers: values of four analogue inputs from 128 in a window of eight,
/// their status from 136, sixteen words of switch status from 144, and from 30001 on the
/// inputs and at 30049 the analogue inputs again.
pub proof fn law_channel_registers(g: GatewayView, addr: u16)
    requires
        is_plain(g, addr),
        g.io.ai.scaled.len() == 8,
        g.io.ai.status.len() == 8,
        g.switch_words.len() == 16,
    ensures
        128 <= addr < 132 ==> input_reg(g, addr) == Some(g.io.ai.scaled[addr - 128]),
        132 <= addr < 136 ==> input_reg(g, addr) == Some(0u16),
        136 <= addr < 140 ==> input_reg(g, addr) == Some(g.io.ai.status[addr - 136]),
        140 <= addr < 144 ==> input_reg(g, addr) == Some(0u16),
        144 <= addr < 160 ==> input_reg(g, addr) == Some(g.switch_words[addr - 144]),
        160 <= addr < 2048 ==> input_reg(g, addr) == Some(0u16),
        30001 <= addr < 30049 ==> input_reg(g, addr) == Some(
            if bit(g.io.di, addr - 30001) {
                1u16
            } else {
                0
            },
        ),
        30049 <= addr < 30053 ==> input_reg(g, addr) == Some(g.io.ai.scaled[addr - 30049]),
        30053 <= addr < 30129 ==> input_reg(g, addr) == Some(0u16),
        4000 <= addr < 4224 ==> input_reg(g, addr) == Some(0u16),
{
}

/// The registers that describe the board: sixteen outputs and inputs, four analogue
/// inputs, three serial ports, and versions.
pub proof fn law_board_registers(g: GatewayView, addr: u16)
    requires
        is_plain(g, addr),
    ensures
        addr == 0x0800 || addr == 0x0801 ==> input_reg(g, addr) == Some(16u16),
        addr == 0x0802 ==> input_reg(g, addr) == Some(4u16),
        addr == 0x0803 ==> input_reg(g, addr) == Some(3u16),
        addr == 0x0804 || addr == 0x0805 ==> input_reg(g, addr) == Some(1u16),
        0x0806 <= addr < 0x087C ==> input_reg(g, addr) == Some(0u16),
        addr == 0x087C ==> input_reg(g, addr) == Some(0x1010u16),
        addr == 0x087D ==> input_reg(g, addr) == Some(0x0402u16),
        addr == 0x087E ==> input_reg(g, addr) == Some(g.io.sys.firmware_version),
        addr == 0x087F && g.config is Some ==> input_reg(g, addr) == Some(g.config->0.fw_date),
        addr == 0x08A5 && g.config is Some ==> input_reg(g, addr) == Some(g.config->0.hw_version),
{
}

/// The network registers among the input registers, two bytes each, the first one high:
/// address from 2247, mask from 2249, gateway from 2251, MAC address from 2263 and BLE
/// name from 2274.
pub proof fn law_network_input_registers(g: GatewayView, k: int)
    requires
        started(g),
        0 <= k,
        forall|a: u16| 2247 <= a <= 2277 ==> is_plain(g, a),
    ensures
        ({
            let c = g.config->0;
            &&& k < 2 ==> input_reg(g, (2247 + k) as u16) == Some((256 * c.ip[2 * k] + c.ip[2 * k + 1]) as u16)
            &&& k < 2 ==> input_reg(g, (2249 + k) as u16) == Some((256 * c.mask[2 * k] + c.mask[2 * k + 1]) as u16)
            &&& k < 2 ==> input_reg(g, (2251 + k) as u16) == Some(
                (256 * c.gateway[2 * k] + c.gateway[2 * k + 1]) as u16,
            )
            &&& k < 3 ==> input_reg(g, (2263 + k) as u16) == Some(
                (256 * c.eth_mac[2 * k] + c.eth_mac[2 * k + 1]) as u16,
            )
            &&& k < 4 ==> input_reg(g, (2274 + k) as u16) == Some(
                (256 * c.ble_name[2 * k] + c.ble_name[2 * k + 1]) as u16,
            )
        }),
{
    let c = g.config->0;
    if k < 2 {
        assert(is_plain(g, (2247 + k) as u16) && is_plain(g, (2249 + k) as u16) && is_plain(g, (2251 + k) as u16));
    }
    if k < 3 {
        assert(is_plain(g, (2263 + k) as u16));
    }
    if k < 4 {
        assert(is_plain(g, (2274 + k) as u16));
    }
}

/// A counter as one register shows it: no more than 65535.
pub open spec fn shown_counter(n: int, r: Option<u16>) -> bool {
    r is Some && (n <= 65535 ==> r->0 == n) && (n > 65535 ==> r->0 == 65535)
}

/// The diagnostic registers: failures of the three classes from 2176, the service level
/// at 2179, dropped frames at 2180, length and writes of the log at 2181 and 2182, and
/// its entries from 2183 on in four words each.
pub proof fn law_diagnostic_registers(g: GatewayView, k: int, field: int)
    requires
        forall|a: u16| 2176 <= a < 2215 ==> is_plain(g, a),
        0 <= k < 7,
        0 <= field < 4,
        g.log.ring.entries.len() <= 8,
    ensures
        shown_counter(g.recovery.recoverable as int, input_reg(g, 2176)),
        shown_counter(g.recovery.degradable as int, input_reg(g, 2177)),
        shown_counter(g.recovery.severe as int, input_reg(g, 2178)),
        input_reg(g, 2179) == Some(
            match g.recovery.mode {
                crate::error::recovery::DegradedMode::Normal => 0u16,
                crate::error::recovery::DegradedMode::BleOnly => 1,
                crate::error::recovery::DegradedMode::LocalOnly => 2,
                crate::error::recovery::DegradedMode::Minimal => 3,
            },
        ),
        shown_counter(g.ble_tx_drops as int, input_reg(g, 2180)),
        input_reg(g, 2181) == Some(g.log.ring.entries.len() as u16),
        input_reg(g, 2182) == Some((g.log.published_count % 65536) as u16),
        k >= g.log.ring.entries.len() ==> input_reg(g, (2183 + 4 * k + field) as u16) == Some(0u16),
        k < g.log.ring.entries.len() ==> ({
            let e = g.log.ring.entries[k];
            let at = |f: int| input_reg(g, (2183 + 4 * k + f) as u16);
            &&& at(0) is Some && at(1) is Some && at(0)->0 + 65536 * at(1)->0 == e.timestamp_s
            &&& at(2) == Some(e.code)
            &&& at(3) == Some((e.context % 65536) as u16)
        }),
{
    assert(is_plain(g, 2176) && is_plain(g, 2177) && is_plain(g, 2178) && is_plain(g, 2179) && is_plain(g, 2180)
        && is_plain(g, 2181) && is_plain(g, 2182));
    let a = 2183 + 4 * k;
    assert(is_plain(g, a as u16) && is_plain(g, (a + 1) as u16) && is_plain(g, (a + 2) as u16) && is_plain(
        g,
        (a + 3) as u16,
    ));
    assert((4 * k) / 4 == k && (4 * k + 1) / 4 == k && (4 * k + 2) / 4 == k && (4 * k + 3) / 4 == k);
    assert((4 * k) % 4 == 0 && (4 * k + 1) % 4 == 1 && (4 * k + 2) % 4 == 2 && (4 * k + 3) % 4 == 3);
    assert(field == 0 || field == 1 || field == 2 || field == 3);
}

/// The registers 0 to 127 show the feedback of a record that reports there, else the
/// stored monitor word.
pub proof fn law_monitor_registers(g: GatewayView, addr: u16)
    requires
        started(g),
        is_plain(g, addr),
        addr < 128,
    ensures
        input_reg(g, addr) == (match feedback_at(g.control, holding_of(g.storage), g.io, addr) {
            Some(v) => Some(v),
            None => Some(g.storage.snapshot->0.monitor_words[addr as int]),
        }),
{
}

/// Where there is no input register.
pub proof fn law_other_input_registers(g: GatewayView, addr: u16)
    requires
        is_plain(g, addr),
        2278 <= addr < 4000 || 4224 <= addr < 30001 || 30129 <= addr,
    ensures
        input_reg(g, addr) is None,
{
}

// ---- Holding registers ----

/// The control registers 0 to 299 show the feedback of a record that reports there, else
/// the stored word. At 10 to 13 the first two bytes of the outputs and of the inputs
/// stand for it.
pub proof fn law_control_registers(g: GatewayView, addr: u16)
    requires
        started(g),
        addr < 300,
    ensures
        ({
            let f = feedback_at(g.control, holding_of(g.storage), g.io, addr);
            let r = hold_reg(g, addr);
            &&& f is Some ==> r == f
            &&& f is None ==> r is Some
            &&& f is None && !(10 <= addr <= 13) ==> r == Some(g.storage.snapshot->0.control_words[addr as int])
            &&& f is None && addr == 10 ==> r->0 == g.io.do_ % 256
            &&& f is None && addr == 11 ==> r->0 == g.io.di % 256
            &&& f is None && addr == 12 ==> r->0 == (g.io.do_ / 256) % 256
            &&& f is None && addr == 13 ==> r->0 == (g.io.di / 256) % 256
        }),
{
}

/// The stored registers: error counters of the serial ports at 2176 to 2181 in pairs,
/// settings, then the register buffer up to 4223, device text from 5000, the protocol
/// store from 0x4000, and from 40001 on the outputs and at 40049 the user area again.
pub proof fn law_stored_registers(g: GatewayView, addr: u16)
    requires
        started(g),
        is_plain(g, addr),
        g.rs485.comerr.len() == 3,
        g.rs485.apperr.len() == 3,
    ensures
        ({
            let s = g.storage.snapshot->0;
            let r = hold_reg(g, addr);
            &&& addr == 2176 || addr == 2178 || addr == 2180 ==> r == Some(g.rs485.comerr[(addr - 2176) / 2])
            &&& addr == 2177 || addr == 2179 || addr == 2181 ==> r == Some(g.rs485.apperr[(addr - 2177) / 2])
            &&& 2182 <= addr < 4224 && cfg_read(g.config->0, addr) is Some ==> r == cfg_read(g.config->0, addr)
            &&& 2182 <= addr < 4224 && cfg_read(g.config->0, addr) is None ==> r == Some(s.holding_buf[addr - 2176])
            &&& 5000 <= addr < 7000 ==> r == Some(s.device_text[addr - 5000])
            &&& 0x4000 <= addr < 0x45DC ==> r == Some(s.proto.data[addr - 0x4000])
            &&& addr == 0x45DC || addr == 0x45DD ==> r == Some(0u16)
            &&& addr == 0x45DE ==> r == Some(s.proto.version)
            &&& addr == 0x45DF ==> r == Some(s.proto.length)
            &&& addr == 0x45E0 ==> r == Some(g.storage.status as u16)
            &&& addr == 0x45E1 ==> r == Some(0x4757u16)
            &&& 40001 <= addr < 40049 ==> r == Some(
                if bit(g.io.do_, addr - 40001) {
                    1u16
                } else {
                    0
                },
            )
            &&& 40049 <= addr < 40273 ==> r == Some(s.holding_buf[4000 - 2176 + (addr - 40049)])
            &&& 40273 <= addr <= 40300 ==> r == Some(0u16)
        }),
{
}

/// Which holding registers can be written.
pub proof fn law_writable_registers(addr: u16)
    ensures
        writable(addr) <==> addr < 300 || 2176 <= addr < 4224 || 5000 <= addr < 7000 || 40001 <= addr < 40273 || 0x4000
            <= addr <= 0x45DF,
{
}

/// A control word is stored and marked, and the executor sees it.
pub proof fn law_control_word_write_does(g: GatewayView, addr: u16, v: u16)
    requires
        started(g),
        addr < 300,
    ensures
        ({
            let w = hold_written(g, addr, v).g;
            &&& w.storage.snapshot->0.control_words == g.storage.snapshot->0.control_words.update(addr as int, v)
            &&& w.storage.legacy_io_dirty
            &&& w.control == control_written(g.control, holding_of(g.storage), addr, v)
            &&& w == (GatewayView { storage: w.storage, control: w.control, ..g })
        }),
{
    let w = hold_written(g, addr, v).g;
    assert(holding_of(w.storage) == holding_of(g.storage));
}

/// A word of the register buffer is stored and marked; from 2300 on the control-logic
/// table is read again afterwards.
pub proof fn law_buffer_write_does(g: GatewayView, addr: u16, v: u16)
    requires
        started(g),
        2176 <= addr < 4224,
        cfg_write_result(addr, v) is NotFound,
        g.control.config_generation < u32::MAX,
    ensures
        ({
            let w = hold_written(g, addr, v).g;
            &&& w.storage.snapshot->0.holding_buf == g.storage.snapshot->0.holding_buf.update(addr - 2176, v)
            &&& w.storage.holding_dirty
            &&& w.config == g.config
            &&& w.mailbox == g.mailbox
            &&& addr >= 2300 ==> w.control.config_generation == g.control.config_generation + 1
            &&& addr < 2300 ==> w.control == g.control
            &&& w.io == g.io
        }),
{
}

/// A setting is written and what it asks for is asked of the storage task: applying
/// raises the version of the configuration by one, a reset brings the factory settings
/// back, and a written BLE name is noted.
pub proof fn law_setting_write_does(g: GatewayView, addr: u16, v: u16)
    requires
        started(g),
        2176 <= addr < 4224,
        !(cfg_write_result(addr, v) is NotFound),
        g.mailbox.len() < 32,
        g.config->0.cfg_version < 0xFFFF,
    ensures
        ({
            let w = hold_written(g, addr, v).g;
            let c = cfg_write(g.config->0, addr, v);
            let r = cfg_write_result(addr, v);
            &&& w.storage == g.storage
            &&& w.io == g.io
            &&& r is Written ==> w.config == Some(c) && w.mailbox == g.mailbox
            &&& r is Persist ==> w.config == Some(c) && w.mailbox == g.mailbox.push(DeviceCmd::PersistConfig)
            &&& r is Apply ==> w.mailbox == g.mailbox.push(DeviceCmd::ApplyConfig)
            &&& r is Apply ==> w.config == Some(
                crate::device::system_config::CfgView { cfg_version: (c.cfg_version + 1) as u16, ..c },
            )
            &&& r is Reset ==> w.config == Some(cfg_default())
            &&& w.ble_name_pending == (g.ble_name_pending || 2274 <= addr <= 2277)
        }),
{
}

/// An alias from 40001 on switches an output and has it driven; one from 40049 on is
/// stored in the user area and marked.
pub proof fn law_alias_write_does(g: GatewayView, addr: u16, v: u16, j: int)
    requires
        started(g),
        40001 <= addr <= 40300,
        0 <= j < 64,
    ensures
        ({
            let w = hold_written(g, addr, v).g;
            &&& addr < 40049 ==> w.do_notify && w.storage == g.storage && bit(w.io.do_, j) == (if j == addr - 40001 {
                v != 0
            } else {
                bit(g.io.do_, j)
            })
            &&& 40049 <= addr < 40273 ==> w.storage.holding_dirty && w.io == g.io && w.storage.snapshot->0.holding_buf
                == g.storage.snapshot->0.holding_buf.update(4000 - 2176 + (addr - 40049), v)
            &&& 40273 <= addr ==> !hold_written(g, addr, v).ok
        }),
{
    if addr < 40049 {
        law_bit_of_with_bit(g.io.do_, addr - 40001, j, v != 0);
    }
}

/// A word of the protocol store, its version or its length is written and marked.
/// 0xC5C5 at 0x45DC asks for a commit and 0xA5A5 at 0x45DD for a reload; other values
/// there do nothing, and the words behind them cannot be written.
pub proof fn law_protocol_write_does(g: GatewayView, addr: u16, v: u16)
    requires
        started(g),
        g.mailbox.len() < 32,
    ensures
        ({
            let w = hold_written(g, addr, v).g;
            let before = g.storage.snapshot->0.proto;
            let after = w.storage.snapshot->0.proto;
            &&& 0x4000 <= addr < 0x45DC ==> after.data == before.data.update(addr - 0x4000, v) && after.dirty
                && after.version == before.version && after.length == before.length
            &&& addr == 0x45DE ==> after.version == v && after.dirty && after.data == before.data && after.length
                == before.length
            &&& addr == 0x45DF ==> after.length == v && after.dirty && after.data == before.data && after.version
                == before.version
            &&& addr == 0x45DC && v == 0xC5C5 ==> w.storage.status == 1 && w.mailbox == g.mailbox.push(
                DeviceCmd::Commit,
            )
            &&& addr == 0x45DD && v == 0xA5A5 ==> w.storage.status == 2 && w.mailbox == g.mailbox.push(
                DeviceCmd::Reload,
            )
            &&& addr == 0x45DC && v != 0xC5C5 || addr == 0x45DD && v != 0xA5A5 ==> w == g
            &&& addr == 0x45E0 || addr == 0x45E1 ==> !hold_written(g, addr, v).ok && w == g
        }),
{
}

/// Where the storage task cannot be asked, a commit or reload is refused and the status
/// is 3.
pub proof fn law_full_mailbox_refuses(g: GatewayView)
    requires
        started(g),
        g.mailbox.len() >= 32,
    ensures
        !hold_written(g, 0x45DC, 0xC5C5).ok,
        !hold_written(g, 0x45DD, 0xA5A5).ok,
        hold_written(g, 0x45DC, 0xC5C5).g.storage.status == 3,
        hold_written(g, 0x45DD, 0xA5A5).g.storage.status == 3,
        hold_written(g, 0x45DC, 0xC5C5).g.mailbox == g.mailbox,
{
}

// ---- Blocks ----

proof fn lemma_block_reads_back(b: Block, addr: u16, values: Seq<u16>, n: nat, i: int)
    requires
        b.cfg.shaped(),
        n <= values.len(),
        0 <= i < n,
        2176 <= addr,
        addr + values.len() <= 4224,
        reads_back((addr + i) as u16, values[i]),
        addr + i < 2300,
    ensures
        cfg_read(block_run(b, addr, values, n).cfg, (addr + i) as u16) == Some(values[i]),
        block_run(b, addr, values, n).cfg.shaped(),
        block_run(b, addr, values, n).cfg_changed,
    decreases n,
{
    let m = (n - 1) as nat;
    let before = block_run(b, addr, values, m);
    let at = (addr + m) as u16;
    if i == n - 1 {
        lemma_block_shape(b, addr, values, m);
        law_write_read_back(before.cfg, at, values[i]);
        assert(!(cfg_write_result(at, values[i]) is NotFound));
    } else {
        lemma_block_reads_back(b, addr, values, m, i);
        law_write_keeps_others(before.cfg, at, values[n - 1], (addr + i) as u16);
    }
}

proof fn lemma_block_shape(b: Block, addr: u16, values: Seq<u16>, n: nat)
    requires
        b.cfg.shaped(),
        n <= values.len(),
        2176 <= addr,
        addr + values.len() <= 4224,
    ensures
        block_run(b, addr, values, n).cfg.shaped(),
    decreases n,
{
    if n > 0 {
        lemma_block_shape(b, addr, values, (n - 1) as nat);
    }
}

/// Every setting of a block reads back, where it does so of a single write.
pub proof fn law_setting_block_reads_back(g: GatewayView, addr: u16, values: Seq<u16>, i: int)
    requires
        started(g),
        2182 <= addr,
        addr + values.len() <= 4224,
        0 <= i < values.len(),
        addr + i < 2300,
        reads_back((addr + i) as u16, values[i]),
    ensures
        block_written(g, addr, values).ok,
        hold_reg(block_written(g, addr, values).g, (addr + i) as u16) == Some(values[i]),
{
    lemma_block_reads_back(block_start(g), addr, values, values.len(), i);
    assert(block_writable(addr, values.len() as int));
    let a = (addr + i) as u16;
    let run = block_run(block_start(g), addr, values, values.len());
    let w = block_written(g, addr, values).g;
    assert(cfg_read(w.config->0, a) == cfg_read(run.cfg, a));
}

proof fn lemma_block_asks(b: Block, addr: u16, values: Seq<u16>, n: nat)
    requires
        n <= values.len(),
        2176 <= addr,
        addr + values.len() <= 4224,
        !b.apply,
        !b.bump,
        !b.named,
    ensures
        ({
            let r = block_run(b, addr, values, n);
            &&& r.apply == r.bump
            &&& r.apply <==> exists|i: int| 0 <= i < n && 2247 <= #[trigger] (addr + i) <= 2268
            &&& r.named <==> exists|i: int| 0 <= i < n && 2274 <= #[trigger] (addr + i) <= 2277
            &&& r.apply ==> r.persist
            &&& r.named ==> r.cfg_changed || b.named
            &&& r.apply ==> r.cfg_changed
        }),
    decreases n,
{
    if n > 0 {
        let m = (n - 1) as nat;
        lemma_block_asks(b, addr, values, m);
        let at = addr + m;
        let before = block_run(b, addr, values, m);
        let r = block_run(b, addr, values, n);
        assert(r == block_step(before, at as u16, values[n - 1]));
        assert(2247 <= at <= 2268 ==> r.apply);
        assert(2274 <= at <= 2277 ==> r.named);
        if before.apply {
            let i = choose|i: int| 0 <= i < m && 2247 <= #[trigger] (addr + i) <= 2268;
            assert(0 <= i < n && 2247 <= addr + i <= 2268);
        }
        if before.named {
            let i = choose|i: int| 0 <= i < m && 2274 <= #[trigger] (addr + i) <= 2277;
            assert(0 <= i < n && 2274 <= addr + i <= 2277);
        }
        if exists|i: int| 0 <= i < n && 2247 <= #[trigger] (addr + i) <= 2268 {
            let i = choose|i: int| 0 <= i < n && 2247 <= #[trigger] (addr + i) <= 2268;
            assert(i == m || (0 <= i < m && 2247 <= addr + i <= 2268));
        }
        if exists|i: int| 0 <= i < n && 2274 <= #[trigger] (addr + i) <= 2277 {
            let i = choose|i: int| 0 <= i < n && 2274 <= #[trigger] (addr + i) <= 2277;
            assert(i == m || (0 <= i < m && 2274 <= addr + i <= 2277));
        }
        if 2247 <= at <= 2268 {
            assert(0 <= m < n && 2247 <= addr + m <= 2268);
        }
        if 2274 <= at <= 2277 {
            assert(0 <= m < n && 2274 <= addr + m <= 2277);
        }
    }
}

/// A block of settings asks the storage task once: to apply where one of its registers
/// is a network setting, which raises the version of the configuration by one, else to
/// persist.
pub proof fn law_setting_block_asks_once(g: GatewayView, addr: u16, values: Seq<u16>)
    requires
        started(g),
        values.len() > 0,
        2176 <= addr,
        addr + values.len() <= 2300,
        g.mailbox.len() < 32,
    ensures
        ({
            let w = block_written(g, addr, values).g;
            let applied = exists|i: int| 0 <= i < values.len() && 2247 <= #[trigger] (addr + i) <= 2268;
            let named = exists|i: int| 0 <= i < values.len() && 2274 <= #[trigger] (addr + i) <= 2277;
            &&& applied ==> w.mailbox == g.mailbox.push(DeviceCmd::ApplyConfig)
            &&& !applied ==> w.mailbox == g.mailbox || w.mailbox == g.mailbox.push(DeviceCmd::PersistConfig)
            &&& applied ==> w.config->0.cfg_version == g.config->0.cfg_version.wrapping_add(1)
            &&& !applied ==> w.config->0.cfg_version == g.config->0.cfg_version
            &&& w.ble_name_pending == (g.ble_name_pending || named)
        }),
{
    lemma_block_asks(block_start(g), addr, values, values.len());
    lemma_block_version(block_start(g), addr, values, values.len());
    assert(block_writable(addr, values.len() as int));
}

proof fn lemma_block_version(b: Block, addr: u16, values: Seq<u16>, n: nat)
    requires
        n <= values.len(),
        2176 <= addr,
        addr + values.len() <= 4224,
    ensures
        block_run(b, addr, values, n).cfg.cfg_version == b.cfg.cfg_version,
        !block_run(b, addr, values, n).cfg_changed ==> block_run(b, addr, values, n).cfg == b.cfg,
    decreases n,
{
    if n > 0 {
        lemma_block_version(b, addr, values, (n - 1) as nat);
    }
}


// ---- Reading blocks ----

proof fn lemma_settled_input_run(g: GatewayView, addr: u16, n: nat)
    requires
        settled(g),
        addr + n <= 0x1_0000,
    ensures
        input_run(g, addr, n).g == g,
        input_run(g, addr, n).words is Some <==> forall|i: int|
            0 <= i < n ==> input_reg(g, #[trigger] ((addr + i) as u16)) is Some,
        input_run(g, addr, n).words matches Some(w) ==> w.len() == n && forall|i: int|
            0 <= i < n ==> Some(#[trigger] w[i]) == input_reg(g, (addr + i) as u16),
    decreases n,
{
    if n > 0 {
        let m = (n - 1) as nat;
        lemma_settled_input_run(g, addr, m);
        let a = (addr + m) as u16;
        law_reads_repeat(g, a);
        let before = input_run(g, addr, m);
        if before.words is None {
            let i = choose|i: int| 0 <= i < m && input_reg(g, #[trigger] ((addr + i) as u16)) is None;
            assert(input_reg(g, (addr + i) as u16) is None);
        } else if input_reg(g, a) is None {
            assert(input_reg(g, (addr + m) as u16) is None);
        } else {
            assert forall|i: int| 0 <= i < n implies input_reg(g, #[trigger] ((addr + i) as u16)) is Some by {
                if i < m {
                    assert(input_reg(g, (addr + i) as u16) is Some);
                }
            }
        }
    }
}

/// A block of input registers is read as its registers, each high byte first, where all
/// of them exist, and refused where one does not. Reading changes nothing.
pub proof fn law_input_block_is_its_registers(g: GatewayView, addr: u16, n: nat, out: Seq<u8>, k: int)
    requires
        settled(g),
        quiet(g),
        addr + n <= 0x1_0000,
        out.len() == 2 * n,
        0 <= k < n,
    ensures
        ({
            let b = input_block(g, addr, n, 4);
            let r = input_buffer(g, addr, n, 4, out);
            let all = forall|i: int| 0 <= i < n ==> input_reg(g, #[trigger] ((addr + i) as u16)) is Some;
            &&& b.g == g
            &&& b.words is Some <==> all
            &&& all ==> r.len() == 2 * n && Some((256 * r[2 * k] + r[2 * k + 1]) as u16) == input_reg(g, (addr + k) as u16)
        }),
{
    lemma_settled_input_run(g, addr, n);
    let run = input_run(g, addr, n);
    assert(input_block(g, addr, n, 4) == run);
    if run.words is Some {
        let w = run.words->0;
        assert(input_prefix(g, addr, n) == w);
        let bytes = be_bytes(w);
        assert(input_buffer(g, addr, n, 4, out) == overlaid(out, bytes));
        assert(overlaid(out, bytes) =~= bytes);
        assert((2 * k) / 2 == k && (2 * k + 1) / 2 == k && (2 * k) % 2 == 0 && (2 * k + 1) % 2 == 1);
        assert(Some(w[k]) == input_reg(g, (addr + k) as u16));
    }
}

proof fn lemma_settled_hold_run(g: GatewayView, addr: u16, n: nat)
    requires
        settled(g),
        addr + n <= 0x1_0000,
    ensures
        hold_run(g, addr, n).g == g,
        hold_run(g, addr, n).words is Some <==> forall|i: int|
            0 <= i < n ==> hold_reg(g, #[trigger] ((addr + i) as u16)) is Some,
        hold_run(g, addr, n).words matches Some(w) ==> w.len() == n && forall|i: int|
            0 <= i < n ==> Some(#[trigger] w[i]) == hold_reg(g, (addr + i) as u16),
    decreases n,
{
    if n > 0 {
        let m = (n - 1) as nat;
        lemma_settled_hold_run(g, addr, m);
        let a = (addr + m) as u16;
        law_reads_repeat(g, a);
        let before = hold_run(g, addr, m);
        if before.words is None {
            let i = choose|i: int| 0 <= i < m && hold_reg(g, #[trigger] ((addr + i) as u16)) is None;
            assert(hold_reg(g, (addr + i) as u16) is None);
        } else if hold_reg(g, a) is None {
            assert(hold_reg(g, (addr + m) as u16) is None);
        } else {
            assert forall|i: int| 0 <= i < n implies hold_reg(g, #[trigger] ((addr + i) as u16)) is Some by {
                if i < m {
                    assert(hold_reg(g, (addr + i) as u16) is Some);
                }
            }
        }
    }
}

/// A block of holding registers is read as its registers, each high byte first, where all
/// of them exist, and refused where one does not. Reading changes nothing.
pub proof fn law_hold_block_is_its_registers(g: GatewayView, addr: u16, n: nat, out: Seq<u8>, k: int)
    requires
        settled(g),
        quiet(g),
        addr + n <= 0x1_0000,
        out.len() == 2 * n,
        0 <= k < n,
    ensures
        ({
            let b = hold_block(g, addr, n, 4);
            let r = hold_buffer(g, addr, n, 4, out);
            let all = forall|i: int| 0 <= i < n ==> hold_reg(g, #[trigger] ((addr + i) as u16)) is Some;
            &&& b.g == g
            &&& b.words is Some <==> all
            &&& all ==> r.len() == 2 * n && Some((256 * r[2 * k] + r[2 * k + 1]) as u16) == hold_reg(g, (addr + k) as u16)
        }),
{
    lemma_settled_hold_run(g, addr, n);
    let run = hold_run(g, addr, n);
    assert(hold_block(g, addr, n, 4) == run);
    if run.words is Some {
        let w = run.words->0;
        assert(hold_prefix(g, addr, n) == w);
        let bytes = be_bytes(w);
        assert(hold_buffer(g, addr, n, 4, out) == overlaid(out, bytes));
        assert(overlaid(out, bytes) =~= bytes);
        assert((2 * k) / 2 == k && (2 * k + 1) / 2 == k && (2 * k) % 2 == 0 && (2 * k + 1) % 2 == 1);
        assert(Some(w[k]) == hold_reg(g, (addr + k) as u16));
    }
}

/// A channel that exists takes its value, and no other channel changes.
pub proof fn law_channel_takes_its_value(s: Seq<u16>, ch: int, v: u16, other: int)
    ensures
        with_channel(s, ch, v).len() == s.len(),
        0 <= ch < s.len() ==> channel(with_channel(s, ch, v), ch) == v,
        other != ch ==> channel(with_channel(s, ch, v), other) == channel(s, other),
        !(0 <= other < s.len()) ==> channel(s, other) == 0,
{
}

} // verus!

//! Modbus writes: holding registers and coils.

use crate::bits::{get_packed_bit, lemma_mask_step, lemma_replaced_nothing, packed_bit, replaced, with_bit, with_packed};
use crate::bus::config_state::{config_write, ConfigSnapshot};
use crate::bus::io_global::IoView;
use crate::bus::io_state::{ResetSource, SysState};
use crate::bus::storage_state::{
    mark_holding_dirty, mark_legacy_io_dirty, proto_status_set, storage_write, storage_zero, ProtoView,
    StorageSnapshot, StorageStateView, StorageView,
};
use crate::config::regs;
use crate::control_logic::{control_written, holding_of, mark_config_changed, on_control_word_written, ControlView};
use crate::device::system_config::{
    cfg_default, cfg_write, cfg_write_result, within, CfgView, SystemConfig, WriteResult,
};
use crate::device::{
    posted, request_apply_config, request_commit, request_persist_config, request_reload,
    request_save_device_text, text_marked, DeviceCmd,
};
use crate::gateway::{Gateway, GatewayView, MAILBOX_CAPACITY};
use vstd::prelude::*;

verus! {

// ---- Snapshots ----

/// The current storage; an empty one before the first was published.
pub open spec fn current_storage(g: GatewayView) -> StorageView {
    match g.storage.snapshot {
        Some(s) => s,
        None => storage_zero(),
    }
}

/// The current configuration; the factory settings before the first was
/// published.
pub open spec fn current_config(g: GatewayView) -> CfgView {
    match g.config {
        Some(c) => c,
        None => cfg_default(),
    }
}

/// The state with a storage snapshot published, which mirrors the protocol
/// status.
pub open spec fn with_storage(g: GatewayView, s: StorageView) -> GatewayView {
    GatewayView {
        storage: StorageStateView {
            snapshot: Some(StorageView { proto: ProtoView { status: g.storage.status, ..s.proto }, ..s }),
            ..g.storage
        },
        ..g
    }
}

/// The state with a configuration published.
pub open spec fn with_config(g: GatewayView, c: CfgView) -> GatewayView {
    GatewayView { config: Some(c), ..g }
}

pub open spec fn with_status(g: GatewayView, status: u8) -> GatewayView {
    GatewayView { storage: StorageStateView { status, ..g.storage }, ..g }
}

pub open spec fn holding_marked(g: GatewayView) -> GatewayView {
    GatewayView { storage: StorageStateView { holding_dirty: true, ..g.storage }, ..g }
}

pub open spec fn legacy_marked(g: GatewayView) -> GatewayView {
    GatewayView { storage: StorageStateView { legacy_io_dirty: true, ..g.storage }, ..g }
}

/// The state with the control-logic table marked as changed.
pub open spec fn table_marked(g: GatewayView) -> GatewayView {
    GatewayView {
        control: ControlView { config_generation: g.control.config_generation.wrapping_add(1), ..g.control },
        ..g
    }
}

/// The state with the outputs set, to be driven.
pub open spec fn with_outputs(g: GatewayView, bits: u64) -> GatewayView {
    GatewayView { io: IoView { do_: bits, ..g.io }, do_notify: true, ..g }
}

pub(crate) fn storage_clone(gw: &Gateway) -> (r: StorageSnapshot)
    ensures
        r@ == current_storage(gw@),
{
    match gw.storage.snapshot.read() {
        Some(s) => *s,
        None => StorageSnapshot::new(),
    }
}

pub(crate) fn config_clone(gw: &Gateway) -> (r: ConfigSnapshot)
    ensures
        r.cfg@ == current_config(gw@),
{
    match gw.config.snapshot.read() {
        Some(c) => *c,
        None => ConfigSnapshot::new(),
    }
}

/// Publishes a storage snapshot that mirrors the protocol status.
pub(crate) fn publish_storage(gw: &mut Gateway, snap: StorageSnapshot)
    ensures
        final(gw)@ == with_storage(old(gw)@, snap@),
{
    let mut s = snap;
    s.proto.status = gw.storage.status;
    storage_write(&mut gw.storage, s);
}

pub(crate) fn publish_config(gw: &mut Gateway, cs: ConfigSnapshot)
    ensures
        final(gw)@ == with_config(old(gw)@, cs.cfg@),
{
    config_write(&mut gw.config, cs);
}

// ---- Single holding registers ----

/// Result of a register write: the state, and whether the write was accepted.
pub struct Written {
    pub g: GatewayView,
    pub ok: bool,
}

/// The state after the BLE name was written, if it was.
pub open spec fn name_noted(g: GatewayView, addr: u16) -> GatewayView {
    if within(addr, regs::HOLD_BLE_ADDR_BASE, 4) {
        GatewayView { ble_name_pending: true, ..g }
    } else {
        g
    }
}

/// Write to the configuration and register buffer area.
pub open spec fn config_area_written(g: GatewayView, addr: u16, v: u16) -> GatewayView {
    let c = cfg_write(current_config(g), addr, v);
    match cfg_write_result(addr, v) {
        WriteResult::Written => name_noted(with_config(g, c), addr),
        WriteResult::Persist => posted(name_noted(with_config(g, c), addr), DeviceCmd::PersistConfig),
        WriteResult::Apply => posted(
            name_noted(with_config(g, CfgView { cfg_version: c.cfg_version.wrapping_add(1), ..c }), addr),
            DeviceCmd::ApplyConfig,
        ),
        WriteResult::Reset => posted(name_noted(with_config(g, cfg_default()), addr), DeviceCmd::ApplyConfig),
        WriteResult::NotFound => {
            let s = current_storage(g);
            let n = holding_marked(
                with_storage(
                    g,
                    StorageView { holding_buf: s.holding_buf.update(addr - regs::HOLD_PXX_BASE, v), ..s },
                ),
            );
            if addr >= regs::HOLD_DEVICE_CONFIG {
                table_marked(n)
            } else {
                n
            }
        },
    }
}

/// Write to a 4xxxx alias.
pub open spec fn alias_written(g: GatewayView, addr: u16, v: u16) -> Written {
    let i = addr - regs::CONTROL_PLC_BASE;
    let s = current_storage(g);
    if i < 48 {
        Written { g: with_outputs(g, with_bit(g.io.do_, i, v != 0)), ok: true }
    } else if i - 48 < regs::HOLD_USER_COUNT {
        Written {
            g: holding_marked(
                with_storage(
                    g,
                    StorageView {
                        holding_buf: s.holding_buf.update(
                            regs::HOLD_USER_BASE - regs::HOLD_PXX_BASE + i - 48,
                            v,
                        ),
                        ..s
                    },
                ),
            ),
            ok: true,
        }
    } else {
        Written { g, ok: false }
    }
}

/// Write that asks the storage task for something: refused where its mailbox is
/// full, and the status then says so.
pub open spec fn asked(g: GatewayView, status: u8, cmd: DeviceCmd) -> Written {
    if g.mailbox.len() < MAILBOX_CAPACITY {
        Written { g: posted(with_status(g, status), cmd), ok: true }
    } else {
        Written { g: with_status(g, 3), ok: false }
    }
}

/// Write to the protocol store and its control words.
pub open spec fn proto_written(g: GatewayView, addr: u16, v: u16) -> Written {
    let s = current_storage(g);
    if regs::PROTO_BASE <= addr < regs::PROTO_END {
        let p = ProtoView { data: s.proto.data.update(addr - regs::PROTO_BASE, v), dirty: true, ..s.proto };
        Written { g: with_storage(g, StorageView { proto: p, ..s }), ok: true }
    } else if addr == regs::PROTO_COMMIT {
        if v == 0xC5C5 {
            asked(g, 1, DeviceCmd::Commit)
        } else {
            Written { g, ok: true }
        }
    } else if addr == regs::PROTO_RELOAD {
        if v == 0xA5A5 {
            asked(g, 2, DeviceCmd::Reload)
        } else {
            Written { g, ok: true }
        }
    } else if addr == regs::PROTO_VERSION {
        let p = ProtoView { version: v, dirty: true, ..s.proto };
        Written { g: with_storage(g, StorageView { proto: p, ..s }), ok: true }
    } else if addr == regs::PROTO_LENGTH {
        let p = ProtoView { length: v, dirty: true, ..s.proto };
        Written { g: with_storage(g, StorageView { proto: p, ..s }), ok: true }
    } else {
        Written { g, ok: false }
    }
}

/// Write of one holding register, before the control-logic executor sees it.
pub open spec fn word_written(g: GatewayView, addr: u16, v: u16) -> Written {
    let s = current_storage(g);
    if addr < regs::CONTROL_WORD_COUNT {
        Written {
            g: legacy_marked(
                with_storage(g, StorageView { control_words: s.control_words.update(addr as int, v), ..s }),
            ),
            ok: true,
        }
    } else if regs::DEVICE_TEXT_BASE <= addr <= regs::DEVICE_TEXT_END {
        Written {
            g: text_marked(
                with_storage(
                    g,
                    StorageView { device_text: s.device_text.update(addr - regs::DEVICE_TEXT_BASE, v), ..s },
                ),
            ),
            ok: true,
        }
    } else if regs::HOLD_CFG_BASE <= addr <= regs::HOLD_CFG_END {
        Written { g: config_area_written(g, addr, v), ok: true }
    } else if regs::CONTROL_PLC_BASE <= addr <= regs::CONTROL_PLC_END {
        alias_written(g, addr, v)
    } else {
        proto_written(g, addr, v)
    }
}

/// The state after the control-logic executor saw a written control word.
pub open spec fn control_seen(g: GatewayView, addr: u16, v: u16) -> GatewayView {
    GatewayView { control: control_written(g.control, holding_of(g.storage), addr, v), ..g }
}

/// Write of one holding register.
pub open spec fn hold_written(g: GatewayView, addr: u16, v: u16) -> Written {
    let w = word_written(g, addr, v);
    if w.ok && addr < regs::CONTROL_WORD_COUNT {
        Written { g: control_seen(w.g, addr, v), ok: true }
    } else {
        w
    }
}

fn write_config_area(gw: &mut Gateway, addr: u16, value: u16)
    requires
        regs::HOLD_CFG_BASE <= addr <= regs::HOLD_CFG_END,
    ensures
        final(gw)@ == config_area_written(old(gw)@, addr, value),
{
    let mut cs = config_clone(gw);
    let result = cs.cfg.write_reg(addr, value);
    match result {
        WriteResult::NotFound => {
            let mut snap = storage_clone(gw);
            snap.holding_buf[(addr - regs::HOLD_PXX_BASE) as usize] = value;
            publish_storage(gw, snap);
            mark_holding_dirty(&mut gw.storage);
            if addr >= regs::HOLD_DEVICE_CONFIG {
                mark_config_changed(&mut gw.control);
            }
        },
        _ => {
            if result == WriteResult::Apply {
                cs.cfg.cfg_version = cs.cfg.cfg_version.wrapping_add(1);
            }
            if result == WriteResult::Reset {
                cs.cfg = SystemConfig::defaults();
            }
            publish_config(gw, cs);
            if regs::HOLD_BLE_ADDR_BASE <= addr && addr < regs::HOLD_BLE_ADDR_BASE + regs::HOLD_BLE_ADDR_COUNT {
                gw.ble_name_pending = true;
            }
            if result == WriteResult::Persist {
                request_persist_config(gw);
            } else if result == WriteResult::Apply || result == WriteResult::Reset {
                request_apply_config(gw);
            }
        },
    }
}

fn write_alias(gw: &mut Gateway, addr: u16, value: u16) -> (r: bool)
    requires
        regs::CONTROL_PLC_BASE <= addr <= regs::CONTROL_PLC_END,
    ensures
        r == alias_written(old(gw)@, addr, value).ok,
        final(gw)@ == alias_written(old(gw)@, addr, value).g,
{
    let i: usize = (addr - regs::CONTROL_PLC_BASE) as usize;
    if i < 48 {
        gw.io.do_.set_bit(i, value != 0);
        gw.do_notify = true;
        return true;
    }
    if i - 48 < regs::HOLD_USER_COUNT as usize {
        let mut snap = storage_clone(gw);
        snap.holding_buf[(regs::HOLD_USER_BASE - regs::HOLD_PXX_BASE) as usize + (i - 48)] = value;
        publish_storage(gw, snap);
        mark_holding_dirty(&mut gw.storage);
        return true;
    }
    false
}

fn write_proto(gw: &mut Gateway, addr: u16, value: u16) -> (r: bool)
    ensures
        r == proto_written(old(gw)@, addr, value).ok,
        final(gw)@ == proto_written(old(gw)@, addr, value).g,
{
    if regs::PROTO_BASE <= addr && addr < regs::PROTO_END {
        let mut snap = storage_clone(gw);
        snap.proto.data[(addr - regs::PROTO_BASE) as usize] = value;
        snap.proto.dirty = true;
        publish_storage(gw, snap);
        return true;
    }
    if addr == regs::PROTO_COMMIT {
        if value == 0xC5C5 {
            proto_status_set(&mut gw.storage, 1);
            if !request_commit(gw) {
                proto_status_set(&mut gw.storage, 3);
                return false;
            }
        }
        return true;
    }
    if addr == regs::PROTO_RELOAD {
        if value == 0xA5A5 {
            proto_status_set(&mut gw.storage, 2);
            if !request_reload(gw) {
                proto_status_set(&mut gw.storage, 3);
                return false;
            }
        }
        return true;
    }
    if addr == regs::PROTO_VERSION {
        let mut snap = storage_clone(gw);
        snap.proto.version = value;
        snap.proto.dirty = true;
        publish_storage(gw, snap);
        return true;
    }
    if addr == regs::PROTO_LENGTH {
        let mut snap = storage_clone(gw);
        snap.proto.length = value;
        snap.proto.dirty = true;
        publish_storage(gw, snap);
        return true;
    }
    false
}

fn write_word(gw: &mut Gateway, addr: u16, value: u16) -> (r: bool)
    ensures
        r == word_written(old(gw)@, addr, value).ok,
        final(gw)@ == word_written(old(gw)@, addr, value).g,
{
    if addr < regs::CONTROL_WORD_COUNT {
        let mut snap = storage_clone(gw);
        snap.control_words[addr as usize] = value;
        publish_storage(gw, snap);
        mark_legacy_io_dirty(&mut gw.storage);
        return true;
    }
    if regs::DEVICE_TEXT_BASE <= addr && addr <= regs::DEVICE_TEXT_END {
        let mut snap = storage_clone(gw);
        snap.device_text[(addr - regs::DEVICE_TEXT_BASE) as usize] = value;
        publish_storage(gw, snap);
        request_save_device_text(gw);
        return true;
    }
    if regs::HOLD_CFG_BASE <= addr && addr <= regs::HOLD_CFG_END {
        write_config_area(gw, addr, value);
        return true;
    }
    if regs::CONTROL_PLC_BASE <= addr && addr <= regs::CONTROL_PLC_END {
        return write_alias(gw, addr, value);
    }
    write_proto(gw, addr, value)
}

/// Writes a holding register (FC 06).
pub fn write_hold_reg(gw: &mut Gateway, addr: u16, value: u16) -> (r: bool)
    ensures
        r == hold_written(old(gw)@, addr, value).ok,
        final(gw)@ == hold_written(old(gw)@, addr, value).g,
{
    let written: bool = write_word(gw, addr, value);
    if written && addr < regs::CONTROL_WORD_COUNT {
        on_control_word_written(&mut gw.control, &gw.storage, addr, value);
    }
    written
}

// ---- Blocks of holding registers ----

/// The first 4xxxx alias that stands for nothing.
pub const ALIAS_END: u16 = 40273;

/// Registers that can be written.
pub open spec fn writable(addr: u16) -> bool {
    ||| addr < regs::CONTROL_WORD_COUNT
    ||| regs::DEVICE_TEXT_BASE <= addr <= regs::DEVICE_TEXT_END
    ||| regs::HOLD_CFG_BASE <= addr <= regs::HOLD_CFG_END
    ||| regs::CONTROL_PLC_BASE <= addr < ALIAS_END
    ||| regs::PROTO_BASE <= addr <= regs::PROTO_LENGTH
}

fn is_writable_hold_reg(addr: u16) -> (r: bool)
    ensures
        r == writable(addr),
{
    addr < regs::CONTROL_WORD_COUNT || (regs::DEVICE_TEXT_BASE <= addr && addr <= regs::DEVICE_TEXT_END) || (
    regs::HOLD_CFG_BASE <= addr && addr <= regs::HOLD_CFG_END) || (regs::CONTROL_PLC_BASE <= addr && addr
        < ALIAS_END) || (regs::PROTO_BASE <= addr && addr < regs::PROTO_END) || addr
        == regs::PROTO_COMMIT || addr == regs::PROTO_RELOAD || addr == regs::PROTO_VERSION || addr
        == regs::PROTO_LENGTH
}

/// Whether a block of `n` registers can be written: it is not empty, ends within
/// the address space, and all its registers can be written.
pub open spec fn block_writable(addr: u16, n: int) -> bool {
    &&& n > 0
    &&& addr + n <= 0x1_0000
    &&& forall|i: int| 0 <= i < n ==> writable(#[trigger] ((addr + i) as u16))
}

/// Whether a register write asks the storage task for something.
pub open spec fn asks(addr: u16, v: u16) -> bool {
    addr == regs::PROTO_COMMIT && v == 0xC5C5 || addr == regs::PROTO_RELOAD && v == 0xA5A5
}

/// How many of the first `n` registers of a block ask the storage task for something.
pub open spec fn asking(addr: u16, values: Seq<u16>, n: nat) -> nat
    decreases n,
{
    if n == 0 {
        0
    } else {
        asking(addr, values, (n - 1) as nat) + (if asks((addr + (n - 1)) as u16, values[n - 1]) {
            1nat
        } else {
            0
        })
    }
}

/// Whether the mailbox of the storage task has room for all that a block asks for.
pub open spec fn has_room(g: GatewayView, addr: u16, values: Seq<u16>) -> bool {
    let n = asking(addr, values, values.len());
    n == 0 || g.mailbox.len() + n <= MAILBOX_CAPACITY
}

/// What a block of configuration writes amounts to.
#[verifier::ext_equal]
pub struct Block {
    pub cfg: CfgView,
    pub holding: Seq<u16>,
    pub cfg_changed: bool,
    pub holding_changed: bool,
    pub persist: bool,
    pub apply: bool,
    pub bump: bool,
    pub named: bool,
}

/// A block with one more register written. Registers from 2300 on belong to the
/// register buffer.
pub open spec fn block_step(b: Block, addr: u16, v: u16) -> Block {
    let result = if addr >= regs::HOLD_DEVICE_CONFIG {
        WriteResult::NotFound
    } else {
        cfg_write_result(addr, v)
    };
    let named = b.named || within(addr, regs::HOLD_BLE_ADDR_BASE, 4);
    let cfg = cfg_write(b.cfg, addr, v);
    match result {
        WriteResult::Written => Block { cfg, cfg_changed: true, named, ..b },
        WriteResult::Persist => Block { cfg, cfg_changed: true, persist: true, named, ..b },
        WriteResult::Apply => Block { cfg, cfg_changed: true, persist: true, apply: true, bump: true, named, ..b },
        WriteResult::Reset => Block {
            cfg: cfg_default(),
            cfg_changed: true,
            persist: true,
            apply: true,
            named,
            ..b
        },
        WriteResult::NotFound => Block {
            holding: b.holding.update(addr - regs::HOLD_PXX_BASE, v),
            holding_changed: true,
            ..b
        },
    }
}

/// A block after its first `n` registers.
pub open spec fn block_run(b: Block, addr: u16, values: Seq<u16>, n: nat) -> Block
    decreases n,
{
    if n == 0 {
        b
    } else {
        block_step(block_run(b, addr, values, (n - 1) as nat), (addr + (n - 1)) as u16, values[n - 1])
    }
}

/// A block before its first register.
pub open spec fn block_start(g: GatewayView) -> Block {
    Block {
        cfg: current_config(g),
        holding: current_storage(g).holding_buf,
        cfg_changed: false,
        holding_changed: false,
        persist: false,
        apply: false,
        bump: false,
        named: false,
    }
}

/// The state after a block was published: the configuration and the register
/// buffer once each, and one request to the storage task.
pub open spec fn block_published(g: GatewayView, addr: u16, b: Block) -> GatewayView {
    let g1 = if b.cfg_changed {
        GatewayView {
            config: Some(
                if b.bump {
                    CfgView { cfg_version: b.cfg.cfg_version.wrapping_add(1), ..b.cfg }
                } else {
                    b.cfg
                },
            ),
            ble_name_pending: g.ble_name_pending || b.named,
            ..g
        }
    } else {
        g
    };
    let g2 = if b.holding_changed {
        let n = holding_marked(with_storage(g1, StorageView { holding_buf: b.holding, ..current_storage(g1) }));
        if addr >= regs::HOLD_DEVICE_CONFIG {
            table_marked(n)
        } else {
            n
        }
    } else {
        g1
    };
    if b.apply {
        posted(g2, DeviceCmd::ApplyConfig)
    } else if b.persist {
        posted(g2, DeviceCmd::PersistConfig)
    } else {
        g2
    }
}

/// The words with a run of them replaced.
pub open spec fn spliced<T>(s: Seq<T>, at: int, values: Seq<T>) -> Seq<T> {
    Seq::new(
        s.len(),
        |i: int|
            if at <= i < at + values.len() {
                values[i - at]
            } else {
                s[i]
            },
    )
}

/// The first `n` registers of a block written one after another, up to the first
/// refusal.
pub open spec fn words_written(g: GatewayView, addr: u16, values: Seq<u16>, n: nat) -> Written
    decreases n,
{
    if n == 0 {
        Written { g, ok: true }
    } else {
        let w = words_written(g, addr, values, (n - 1) as nat);
        if w.ok {
            word_written(w.g, (addr + (n - 1)) as u16, values[n - 1])
        } else {
            w
        }
    }
}

/// The state after the executor saw the first `n` control words of a block.
pub open spec fn controls_seen(g: GatewayView, addr: u16, values: Seq<u16>, n: nat) -> GatewayView
    decreases n,
{
    if n == 0 {
        g
    } else {
        control_seen(controls_seen(g, addr, values, (n - 1) as nat), (addr + (n - 1)) as u16, values[n - 1])
    }
}

/// Write of a block of holding registers. A block that cannot be written as a whole
/// is refused before anything changes: where one of its registers cannot be written,
/// and where the storage task cannot be asked for all that the block asks for.
pub open spec fn block_written(g: GatewayView, addr: u16, values: Seq<u16>) -> Written {
    let n = values.len();
    let s = current_storage(g);
    if !block_writable(addr, n as int) {
        Written { g, ok: false }
    } else if addr >= regs::DEVICE_TEXT_BASE && addr + n <= regs::DEVICE_TEXT_END + 1 {
        Written {
            g: text_marked(
                with_storage(
                    g,
                    StorageView { device_text: spliced(s.device_text, addr - regs::DEVICE_TEXT_BASE, values), ..s },
                ),
            ),
            ok: true,
        }
    } else if addr >= regs::HOLD_CFG_BASE && addr + n <= regs::HOLD_CFG_END + 1 {
        Written { g: block_published(g, addr, block_run(block_start(g), addr, values, n)), ok: true }
    } else if !has_room(g, addr, values) {
        Written { g, ok: false }
    } else {
        let w = words_written(g, addr, values, n);
        if addr < regs::CONTROL_WORD_COUNT {
            Written { g: controls_seen(w.g, addr, values, n), ok: true }
        } else {
            Written { g: w.g, ok: true }
        }
    }
}

/// A block outside the configuration and the device text touches neither.
proof fn lemma_plain_block(addr: u16, n: int, i: int)
    requires
        block_writable(addr, n),
        0 <= i < n,
        !(addr >= regs::DEVICE_TEXT_BASE && addr + n <= regs::DEVICE_TEXT_END + 1),
        !(addr >= regs::HOLD_CFG_BASE && addr + n <= regs::HOLD_CFG_END + 1),
    ensures
        ({
            let a = addr + i;
            a < regs::CONTROL_WORD_COUNT || regs::CONTROL_PLC_BASE <= a < ALIAS_END || regs::PROTO_BASE <= a
                <= regs::PROTO_LENGTH
        }),
{
    let edge = |e: int| 0 <= e - addr < n ==> writable((addr + (e - addr)) as u16);
    assert(writable((addr + 0) as u16));
    assert(writable((addr + i) as u16));
    assert(edge(300) && edge(4224) && edge(7000));
}

/// A block that can be written and has room is written to its end.
proof fn lemma_block_goes_through(g: GatewayView, addr: u16, values: Seq<u16>, k: nat)
    requires
        k <= values.len(),
        block_writable(addr, values.len() as int),
        !(addr >= regs::DEVICE_TEXT_BASE && addr + values.len() <= regs::DEVICE_TEXT_END + 1),
        !(addr >= regs::HOLD_CFG_BASE && addr + values.len() <= regs::HOLD_CFG_END + 1),
        has_room(g, addr, values),
    ensures
        words_written(g, addr, values, k).ok,
        words_written(g, addr, values, k).g.mailbox.len() == g.mailbox.len() + asking(addr, values, k),
    decreases k,
{
    if k > 0 {
        lemma_block_goes_through(g, addr, values, (k - 1) as nat);
        lemma_plain_block(addr, values.len() as int, k - 1);
        lemma_asking_grows(addr, values, k, values.len());
    }
}

proof fn lemma_asking_grows(addr: u16, values: Seq<u16>, k: nat, n: nat)
    requires
        k <= n,
    ensures
        asking(addr, values, k) <= asking(addr, values, n),
    decreases n,
{
    if k < n {
        lemma_asking_grows(addr, values, k, (n - 1) as nat);
    }
}

/// Overwrites a run of words.
fn splice<const N: usize>(target: &mut [u16; N], at: usize, values: &[u16])
    requires
        at + values@.len() <= N,
    ensures
        final(target)@ == spliced(old(target)@, at as int, values@),
{
    let mut i: usize = 0;
    while i < values.len()
        invariant
            i <= values@.len(),
            at + values@.len() <= N,
            target@ == spliced(old(target)@, at as int, values@.take(i as int)),
        decreases values@.len() - i,
    {
        target[at + i] = values[i];
        i += 1;
        assert(target@ =~= spliced(old(target)@, at as int, values@.take(i as int)));
    }
    assert(values@.take(values@.len() as int) =~= values@);
}

fn write_config_block(gw: &mut Gateway, addr: u16, values: &[u16])
    requires
        addr >= regs::HOLD_CFG_BASE,
        addr + values@.len() <= regs::HOLD_CFG_END + 1,
    ensures
        final(gw)@ == block_published(
            old(gw)@,
            addr,
            block_run(block_start(old(gw)@), addr, values@, values@.len()),
        ),
{
    let mut cs = config_clone(gw);
    let mut snap = storage_clone(gw);
    let mut cfg_changed: bool = false;
    let mut holding_changed: bool = false;
    let mut persist: bool = false;
    let mut apply: bool = false;
    let mut bump: bool = false;
    let mut named: bool = false;
    let ghost first = block_start(gw@);
    let mut i: usize = 0;
    while i < values.len()
        invariant
            i <= values@.len(),
            addr >= regs::HOLD_CFG_BASE,
            addr + values@.len() <= regs::HOLD_CFG_END + 1,
            first == block_start(gw@),
            gw@ == old(gw)@,
            (Block {
                cfg: cs.cfg@,
                holding: snap@.holding_buf,
                cfg_changed,
                holding_changed,
                persist,
                apply,
                bump,
                named,
            }) == block_run(first, addr, values@, i as nat),
            snap@ == (StorageView { holding_buf: snap@.holding_buf, ..current_storage(gw@) }),
        decreases values@.len() - i,
    {
        let target: u16 = addr + i as u16;
        let value: u16 = values[i];
        let result = if target >= regs::HOLD_DEVICE_CONFIG {
            WriteResult::NotFound
        } else {
            cs.cfg.write_reg(target, value)
        };
        match result {
            WriteResult::NotFound => {
                snap.holding_buf[(target - regs::HOLD_PXX_BASE) as usize] = value;
                holding_changed = true;
            },
            _ => {
                cfg_changed = true;
                if regs::HOLD_BLE_ADDR_BASE <= target && target < regs::HOLD_BLE_ADDR_BASE
                    + regs::HOLD_BLE_ADDR_COUNT {
                    named = true;
                }
                if result != WriteResult::Written {
                    persist = true;
                }
                if result == WriteResult::Apply {
                    apply = true;
                    bump = true;
                }
                if result == WriteResult::Reset {
                    cs.cfg = SystemConfig::defaults();
                    apply = true;
                }
            },
        }
        i += 1;
        proof {
            let b = Block {
                cfg: cs.cfg@,
                holding: snap@.holding_buf,
                cfg_changed,
                holding_changed,
                persist,
                apply,
                bump,
                named,
            };
            let before = block_run(first, addr, values@, (i - 1) as nat);
            assert(cs.cfg@ =~= block_step(before, target, value).cfg);
            assert(b =~= block_step(before, target, value));
        }
    }
    if cfg_changed {
        if bump {
            cs.cfg.cfg_version = cs.cfg.cfg_version.wrapping_add(1);
        }
        publish_config(gw, cs);
        if named {
            gw.ble_name_pending = true;
        }
    }
    if holding_changed {
        publish_storage(gw, snap);
        mark_holding_dirty(&mut gw.storage);
        if addr >= regs::HOLD_DEVICE_CONFIG {
            mark_config_changed(&mut gw.control);
        }
    }
    if apply {
        request_apply_config(gw);
    } else if persist {
        request_persist_config(gw);
    }
}

/// Whether every register of a block can be written.
fn all_writable(addr: u16, n: usize) -> (r: bool)
    requires
        addr + n <= 0x1_0000,
    ensures
        r == (forall|i: int| 0 <= i < n ==> writable(#[trigger] ((addr + i) as u16))),
{
    let mut i: usize = 0;
    while i < n
        invariant
            i <= n,
            addr + n <= 0x1_0000,
            forall|j: int| 0 <= j < i ==> writable(#[trigger] ((addr + j) as u16)),
        decreases n - i,
    {
        if !is_writable_hold_reg((addr as usize + i) as u16) {
            assert(!writable((addr + i) as u16));
            return false;
        }
        i += 1;
    }
    true
}

/// Counts the registers of a block that ask the storage task for something.
fn count_asking(addr: u16, values: &[u16]) -> (r: usize)
    requires
        addr + values@.len() <= 0x1_0000,
    ensures
        r == asking(addr, values@, values@.len()),
        r <= 0x1_0000,
{
    let mut n: usize = 0;
    let mut i: usize = 0;
    while i < values.len()
        invariant
            i <= values@.len(),
            addr + values@.len() <= 0x1_0000,
            n <= i,
            n == asking(addr, values@, i as nat),
        decreases values@.len() - i,
    {
        let a: u16 = (addr as usize + i) as u16;
        if (a == regs::PROTO_COMMIT && values[i] == 0xC5C5) || (a == regs::PROTO_RELOAD && values[i] == 0xA5A5) {
            n += 1;
        }
        i += 1;
    }
    n
}

/// Writes the registers of a block one after another, up to the first refusal.
fn write_words(gw: &mut Gateway, addr: u16, values: &[u16]) -> (r: bool)
    requires
        addr + values@.len() <= 0x1_0000,
    ensures
        r == words_written(old(gw)@, addr, values@, values@.len()).ok,
        final(gw)@ == words_written(old(gw)@, addr, values@, values@.len()).g,
{
    let mut k: usize = 0;
    while k < values.len()
        invariant
            k <= values@.len(),
            addr + values@.len() <= 0x1_0000,
            words_written(old(gw)@, addr, values@, k as nat).ok,
            words_written(old(gw)@, addr, values@, k as nat).g == gw@,
        decreases values@.len() - k,
    {
        let ok: bool = write_word(gw, (addr as usize + k) as u16, values[k]);
        proof {
            let w = words_written(old(gw)@, addr, values@, (k + 1) as nat);
            assert(w.ok == ok && w.g == gw@);
            if !ok {
                lemma_refusal_stands(old(gw)@, addr, values@, (k + 1) as nat, values@.len());
            }
        }
        if !ok {
            return false;
        }
        k += 1;
    }
    true
}

/// Lets the executor see the control words of a block.
fn see_controls(gw: &mut Gateway, addr: u16, values: &[u16])
    requires
        addr + values@.len() <= 0x1_0000,
    ensures
        final(gw)@ == controls_seen(old(gw)@, addr, values@, values@.len()),
{
    let mut j: usize = 0;
    while j < values.len()
        invariant
            j <= values@.len(),
            addr + values@.len() <= 0x1_0000,
            gw@ == controls_seen(old(gw)@, addr, values@, j as nat),
        decreases values@.len() - j,
    {
        on_control_word_written(&mut gw.control, &gw.storage, (addr as usize + j) as u16, values[j]);
        j += 1;
    }
}

/// Writes a block of holding registers (FC 16).
pub fn write_hold_regs(gw: &mut Gateway, addr: u16, values: &[u16]) -> (r: bool)
    ensures
        r == block_written(old(gw)@, addr, values@).ok,
        final(gw)@ == block_written(old(gw)@, addr, values@).g,
{
    let n: usize = values.len();
    if n == 0 || n > 0x1_0000 || addr as usize + n > 0x1_0000 || !all_writable(addr, n) {
        return false;
    }
    assert(block_writable(addr, n as int));
    let end: usize = addr as usize + n;
    if addr >= regs::DEVICE_TEXT_BASE && end <= regs::DEVICE_TEXT_END as usize + 1 {
        let mut snap = storage_clone(gw);
        splice(&mut snap.device_text, (addr - regs::DEVICE_TEXT_BASE) as usize, values);
        publish_storage(gw, snap);
        request_save_device_text(gw);
        return true;
    }
    if addr >= regs::HOLD_CFG_BASE && end <= regs::HOLD_CFG_END as usize + 1 {
        write_config_block(gw, addr, values);
        return true;
    }
    let wanted: usize = count_asking(addr, values);
    if wanted > MAILBOX_CAPACITY || (wanted > 0 && gw.mailbox.len() > MAILBOX_CAPACITY - wanted) {
        return false;
    }
    proof {
        lemma_block_goes_through(gw@, addr, values@, values@.len());
    }
    let _ = write_words(gw, addr, values);
    if addr < regs::CONTROL_WORD_COUNT {
        see_controls(gw, addr, values);
    }
    true
}

/// Nothing is written after a refusal.
proof fn lemma_refusal_stands(g: GatewayView, addr: u16, values: Seq<u16>, k: nat, n: nat)
    requires
        k <= n,
        !words_written(g, addr, values, k).ok,
    ensures
        words_written(g, addr, values, n) == words_written(g, addr, values, k),
    decreases n,
{
    if k < n {
        lemma_refusal_stands(g, addr, values, k, (n - 1) as nat);
    }
}

// ---- Coils ----

/// The state with a reset asked for over Modbus.
pub open spec fn reset_asked(g: GatewayView) -> GatewayView {
    GatewayView {
        io: IoView { sys: SysState { reset_request: ResetSource::Modbus.spec_code(), ..g.io.sys }, ..g.io },
        ..g
    }
}

/// Byte of a stored coil.
pub open spec fn coil_byte(v: bool) -> u8 {
    if v {
        1
    } else {
        0
    }
}

/// Write of one coil: an output, a restart switch, or a stored coil.
pub open spec fn coil_written(g: GatewayView, addr: u16, v: bool) -> Written {
    let s = current_storage(g);
    if regs::COIL_DO_BASE <= addr < regs::COIL_DO_END {
        Written { g: with_outputs(g, with_bit(g.io.do_, addr - regs::COIL_DO_BASE, v)), ok: true }
    } else if addr == regs::COIL_RESTART || addr == regs::COIL_LOGIC_RESTART {
        Written {
            g: if v {
                reset_asked(g)
            } else {
                g
            },
            ok: true,
        }
    } else if regs::COIL_DO_END <= addr <= regs::LEGACY_COIL_END {
        Written {
            g: legacy_marked(
                with_storage(
                    g,
                    StorageView {
                        legacy_coils: s.legacy_coils.update(addr - regs::LEGACY_COIL_BASE, coil_byte(v)),
                        ..s
                    },
                ),
            ),
            ok: true,
        }
    } else {
        Written { g, ok: false }
    }
}

/// Writes a coil (FC 05).
pub fn write_coil(gw: &mut Gateway, addr: u16, value: bool) -> (r: bool)
    ensures
        r == coil_written(old(gw)@, addr, value).ok,
        final(gw)@ == coil_written(old(gw)@, addr, value).g,
{
    if regs::COIL_DO_BASE <= addr && addr < regs::COIL_DO_END {
        gw.io.do_.set_bit((addr - regs::COIL_DO_BASE) as usize, value);
        gw.do_notify = true;
        return true;
    }
    if addr == regs::COIL_RESTART || addr == regs::COIL_LOGIC_RESTART {
        if value {
            gw.io.sys.request_reset(ResetSource::Modbus);
        }
        return true;
    }
    if regs::COIL_DO_END <= addr && addr <= regs::LEGACY_COIL_END {
        let mut snap = storage_clone(gw);
        snap.legacy_coils[(addr - regs::LEGACY_COIL_BASE) as usize] = if value {
            1
        } else {
            0
        };
        publish_storage(gw, snap);
        mark_legacy_io_dirty(&mut gw.storage);
        return true;
    }
    false
}

/// The stored coils after a run of packed bits was written from place `at` on.
pub open spec fn coils_with(coils: Seq<u8>, at: int, packed: Seq<u8>, n: int) -> Seq<u8> {
    Seq::new(
        coils.len(),
        |i: int|
            if at <= i < at + n {
                coil_byte(packed_bit(packed, i - at))
            } else {
                coils[i]
            },
    )
}

/// Write of a run of coils. Outputs alone are only driven; a run that reaches the
/// stored coils is stored as a whole, and the outputs in it are driven too. A run
/// that does not fit in the window is refused before anything changes.
pub open spec fn coils_written(g: GatewayView, addr: u16, count: u16, packed: Seq<u8>) -> Written {
    let s = current_storage(g);
    if count == 0 || packed.len() != (count + 7) / 8 || addr + count > 0x1_0000 {
        Written { g, ok: false }
    } else if addr >= regs::COIL_DO_BASE && addr + count <= regs::COIL_DO_END {
        Written {
            g: with_outputs(g, with_packed(g.io.do_, addr - regs::COIL_DO_BASE, packed, count as nat)),
            ok: true,
        }
    } else if addr >= regs::LEGACY_COIL_BASE && addr + count <= regs::LEGACY_COIL_END + 1 {
        let stored = with_storage(
            g,
            StorageView {
                legacy_coils: coils_with(s.legacy_coils, addr - regs::LEGACY_COIL_BASE, packed, count as int),
                ..s
            },
        );
        Written {
            g: legacy_marked(
                if addr < regs::COIL_DO_END {
                    with_outputs(
                        stored,
                        with_packed(
                            g.io.do_,
                            addr - regs::COIL_DO_BASE,
                            packed,
                            (regs::COIL_DO_END - addr) as nat,
                        ),
                    )
                } else {
                    stored
                },
            ),
            ok: true,
        }
    } else {
        Written { g, ok: false }
    }
}

/// Drives a run of outputs in one step.
fn drive_outputs(gw: &mut Gateway, start: usize, packed: &[u8], n: usize)
    requires
        start + n <= 16,
        n <= 8 * packed@.len(),
    ensures
        final(gw)@ == with_outputs(old(gw)@, with_packed(old(gw)@.io.do_, start as int, packed@, n as nat)),
{
    let ghost b = gw@.io.do_;
    let mut mask: u64 = 0;
    let mut value: u64 = 0;
    proof {
        lemma_replaced_nothing(b);
    }
    let mut i: usize = 0;
    while i < n
        invariant
            i <= n,
            start + n <= 16,
            n <= 8 * packed@.len(),
            replaced(b, mask, value) == with_packed(b, start as int, packed@, i as nat),
            value >> ((start + i) as u64) == 0,
        decreases n - i,
    {
        let on: bool = get_packed_bit(packed, i);
        let t: u64 = (start + i) as u64;
        proof {
            lemma_mask_step(b, mask, value, t, on);
        }
        mask = mask | (1u64 << t);
        if on {
            value = value | (1u64 << t);
        }
        i += 1;
    }
    gw.io.do_.mask_replace(mask, value);
    gw.do_notify = true;
}

/// Writes a run of coils (FC 15).
pub fn write_coils(gw: &mut Gateway, addr: u16, count: u16, packed_values: &[u8]) -> (r: bool)
    ensures
        r == coils_written(old(gw)@, addr, count, packed_values@).ok,
        final(gw)@ == coils_written(old(gw)@, addr, count, packed_values@).g,
{
    let n: usize = count as usize;
    if n == 0 || packed_values.len() != (n + 7) / 8 || addr as usize + n > 0x1_0000 {
        return false;
    }
    let end: usize = addr as usize + n;
    if addr >= regs::COIL_DO_BASE && end <= regs::COIL_DO_END as usize {
        drive_outputs(gw, (addr - regs::COIL_DO_BASE) as usize, packed_values, n);
        return true;
    }
    if addr >= regs::LEGACY_COIL_BASE && end <= regs::LEGACY_COIL_END as usize + 1 {
        let mut snap = storage_clone(gw);
        let at: usize = (addr - regs::LEGACY_COIL_BASE) as usize;
        let ghost coils = snap@.legacy_coils;
        let mut i: usize = 0;
        while i < n
            invariant
                i <= n,
                at + n <= 1536,
                n <= 8 * packed_values@.len(),
                coils == current_storage(gw@).legacy_coils,
                snap@ == (StorageView {
                    legacy_coils: coils_with(coils, at as int, packed_values@, i as int),
                    ..current_storage(gw@)
                }),
            decreases n - i,
        {
            snap.legacy_coils[at + i] = if get_packed_bit(packed_values, i) {
                1
            } else {
                0
            };
            i += 1;
            assert(snap@.legacy_coils =~= coils_with(coils, at as int, packed_values@, i as int));
        }
        publish_storage(gw, snap);
        if addr < regs::COIL_DO_END {
            drive_outputs(gw, at, packed_values, (regs::COIL_DO_END - addr) as usize);
        }
        mark_legacy_io_dirty(&mut gw.storage);
        return true;
    }
    false
}

} // verus!

//! Laws of the register map: what a read gives back of a write, what a write
//! leaves alone, and what a refused write does.

use crate::bits::{law_bit_of_with_bit, law_bit_of_with_packed, packed_bit};
use crate::bus::backends::{coil, hold_reg};
use crate::bus::storage_state::StorageView;
use crate::bus::writes::{
    asking, block_run, block_start, block_step, block_writable, block_written, coil_written, coils_written,
    current_storage, has_room, hold_written, spliced, writable, Block,
};
use crate::config::regs;
use crate::control_logic::{feedback_at, holding_of, result_word};
use crate::device::system_config::{cfg_read, cfg_write_result, law_write_keeps_others, law_write_read_back, reads_back};
use crate::gateway::{Gateway, GatewayView, MAILBOX_CAPACITY};
use crate::modbus::rtu_master::polled_word;
use vstd::prelude::*;

verus! {

/// A storage snapshot has areas of the right lengths.
pub open spec fn storage_shaped(s: StorageView) -> bool {
    &&& s.proto.data.len() == 1500
    &&& s.device_text.len() == 2000
    &&& s.holding_buf.len() == 2048
    &&& s.monitor_words.len() == 128
    &&& s.control_words.len() == 300
    &&& s.legacy_coils.len() == 1536
}

/// A started gateway: configuration and storage were published, and all areas have
/// the right lengths.
pub open spec fn started(g: GatewayView) -> bool {
    &&& g.config is Some
    &&& g.config->0.shaped()
    &&& g.storage.snapshot is Some
    &&& storage_shaped(g.storage.snapshot->0)
}

/// A gateway with a configuration and storage is started.
pub proof fn law_gateway_is_shaped(gw: Gateway)
    requires
        gw@.config is Some,
        gw@.storage.snapshot is Some,
    ensures
        started(gw@),
{
}

// ---- Coils ----

/// A written coil reads back, and no other coil changes. The restart switches are
/// no coils: they hold nothing.
pub proof fn law_coil_write(g: GatewayView, addr: u16, v: bool, other: u16)
    requires
        started(g),
        coil_written(g, addr, v).ok,
        addr != regs::COIL_RESTART,
        addr != regs::COIL_LOGIC_RESTART,
    ensures
        coil(coil_written(g, addr, v).g, addr) == Some(v),
        other != addr ==> coil(coil_written(g, addr, v).g, other) == coil(g, other),
{
    if regs::COIL_DO_BASE <= addr < regs::COIL_DO_END {
        let i = addr - regs::COIL_DO_BASE;
        law_bit_of_with_bit(g.io.do_, i, i, v);
        if regs::COIL_DO_BASE <= other < regs::COIL_DO_END {
            law_bit_of_with_bit(g.io.do_, i, other - regs::COIL_DO_BASE, v);
        }
    }
}

/// A refused coil write changes nothing, and only coils of the window are
/// accepted.
pub proof fn law_coil_refusal(g: GatewayView, addr: u16, v: bool)
    ensures
        coil_written(g, addr, v).ok <==> regs::COIL_DO_BASE <= addr <= regs::LEGACY_COIL_END,
        !coil_written(g, addr, v).ok ==> coil_written(g, addr, v).g == g,
{
}

/// Every coil of a written run reads back, and no other coil changes.
pub proof fn law_coils_write(g: GatewayView, addr: u16, count: u16, packed: Seq<u8>, other: u16)
    requires
        started(g),
        coils_written(g, addr, count, packed).ok,
    ensures
        coil(coils_written(g, addr, count, packed).g, other) == (if addr <= other < addr + count {
            Some(packed_bit(packed, other - addr))
        } else {
            coil(g, other)
        }),
{
    let start = addr - regs::COIL_DO_BASE;
    if regs::COIL_DO_BASE <= other < regs::COIL_DO_END {
        let j = other - regs::COIL_DO_BASE;
        if addr + count <= regs::COIL_DO_END {
            law_bit_of_with_packed(g.io.do_, start, packed, count as nat, j);
        } else if addr < regs::COIL_DO_END {
            law_bit_of_with_packed(g.io.do_, start, packed, (regs::COIL_DO_END - addr) as nat, j);
        }
    }
}

/// A run of coils that is refused changes nothing.
pub proof fn law_coils_refusal(g: GatewayView, addr: u16, count: u16, packed: Seq<u8>)
    requires
        !coils_written(g, addr, count, packed).ok,
    ensures
        coils_written(g, addr, count, packed).g == g,
{
}

// ---- Single holding registers ----

/// Whether a register holds what is written to it: the device text, the protocol
/// store and its version and length always; a configuration register where the
/// setting reads back; a control word that no live point and no feedback stands
/// for; a word of the register buffer or a user alias that no published or polled
/// value stands for; and an output alias for 0 and 1.
pub open spec fn latches(g: GatewayView, addr: u16, v: u16) -> bool {
    ||| regs::DEVICE_TEXT_BASE <= addr <= regs::DEVICE_TEXT_END
    ||| regs::PROTO_BASE <= addr < regs::PROTO_END
    ||| addr == regs::PROTO_VERSION
    ||| addr == regs::PROTO_LENGTH
    ||| regs::HOLD_CFG_BASE <= addr <= regs::HOLD_CFG_END && reads_back(addr, v)
    ||| addr < regs::CONTROL_WORD_COUNT && !(10 <= addr <= 13) && feedback_at(
        g.control,
        holding_of(g.storage),
        g.io,
        addr,
    ) is None
    ||| regs::HOLD_485_3_APPERR < addr <= regs::HOLD_CFG_END && cfg_read(g.config->0, addr) is None
        && result_word(g.control, addr) is None && polled_word(g.rtu, addr) is None
    ||| regs::CONTROL_PLC_BASE <= addr < regs::CONTROL_PLC_BASE + 48 && v <= 1
    ||| regs::CONTROL_PLC_BASE + 48 <= addr < regs::CONTROL_PLC_BASE + 48 + regs::HOLD_USER_COUNT
}

/// A written holding register reads back.
pub proof fn law_hold_write_reads_back(g: GatewayView, addr: u16, v: u16)
    requires
        started(g),
        latches(g, addr, v),
    ensures
        hold_written(g, addr, v).ok,
        hold_reg(hold_written(g, addr, v).g, addr) == Some(v),
{
    let w = hold_written(g, addr, v);
    if regs::HOLD_CFG_BASE <= addr <= regs::HOLD_CFG_END {
        if reads_back(addr, v) {
            law_write_read_back(g.config->0, addr, v);
            assert(cfg_read(w.g.config->0, addr) == Some(v));
        } else {
            assert(cfg_write_result(addr, v) is NotFound);
        }
    } else if regs::CONTROL_PLC_BASE <= addr < regs::CONTROL_PLC_BASE + 48 {
        let i = addr - regs::CONTROL_PLC_BASE;
        law_bit_of_with_bit(g.io.do_, i, i, v != 0);
    } else if addr < regs::CONTROL_WORD_COUNT {
        assert(feedback_at(w.g.control, holding_of(w.g.storage), w.g.io, addr) is None);
    }
}

/// A refused register write changes nothing but the protocol status, which reports
/// that the storage task could not be asked.
pub proof fn law_hold_write_refusal(g: GatewayView, addr: u16, v: u16)
    requires
        !hold_written(g, addr, v).ok,
    ensures
        hold_written(g, addr, v).g == g || (g.mailbox.len() >= MAILBOX_CAPACITY && hold_written(
            g,
            addr,
            v,
        ).g.storage.status == 3 && hold_written(g, addr, v).g == (GatewayView {
            storage: hold_written(g, addr, v).g.storage,
            ..g
        })),
        hold_written(g, addr, v).g.storage.snapshot == g.storage.snapshot,
{
}

/// A write to the device text or the protocol store leaves every other holding
/// register alone.
pub proof fn law_text_write_keeps_others(g: GatewayView, addr: u16, v: u16, other: u16)
    requires
        started(g),
        regs::DEVICE_TEXT_BASE <= addr <= regs::DEVICE_TEXT_END || regs::PROTO_BASE <= addr < regs::PROTO_END
            || addr == regs::PROTO_VERSION || addr == regs::PROTO_LENGTH,
        other != addr,
    ensures
        hold_reg(hold_written(g, addr, v).g, other) == hold_reg(g, other),
{
    assert(holding_of(hold_written(g, addr, v).g.storage) == holding_of(g.storage));
}

/// A configuration write leaves every other register of the configuration and
/// register buffer area alone.
pub proof fn law_config_write_keeps_others(g: GatewayView, addr: u16, v: u16, other: u16)
    requires
        started(g),
        regs::HOLD_CFG_BASE <= addr <= regs::HOLD_CFG_END,
        regs::HOLD_CFG_BASE <= other <= regs::HOLD_CFG_END,
        other != addr,
    ensures
        hold_reg(hold_written(g, addr, v).g, other) == hold_reg(g, other),
{
    law_write_keeps_others(g.config->0, addr, v, other);
}

// ---- Blocks ----

/// A refused block changes nothing.
pub proof fn law_block_refusal(g: GatewayView, addr: u16, values: Seq<u16>)
    requires
        !block_written(g, addr, values).ok,
    ensures
        block_written(g, addr, values).g == g,
{
}

/// A block is accepted exactly where all its registers can be written and the storage
/// task can be asked for all that it asks for.
pub proof fn law_block_acceptance(g: GatewayView, addr: u16, values: Seq<u16>)
    ensures
        block_written(g, addr, values).ok <==> block_writable(addr, values.len() as int) && has_room(g, addr, values),
{
    if block_writable(addr, values.len() as int) && addr < regs::PROTO_COMMIT {
        if addr + values.len() <= regs::PROTO_COMMIT {
            lemma_nothing_asked(addr, values, values.len());
        }
    }
}

proof fn lemma_nothing_asked(addr: u16, values: Seq<u16>, n: nat)
    requires
        n <= values.len(),
        addr + values.len() <= regs::PROTO_COMMIT,
    ensures
        asking(addr, values, n) == 0,
    decreases n,
{
    if n > 0 {
        lemma_nothing_asked(addr, values, (n - 1) as nat);
    }
}

/// Every register of a block that can be written is one that accepts a write of its
/// own while the storage task can be asked.
pub proof fn law_writable_registers_accept(g: GatewayView, addr: u16, v: u16)
    requires
        g.mailbox.len() < MAILBOX_CAPACITY,
    ensures
        hold_written(g, addr, v).ok <==> writable(addr),
{
}

/// The register buffer after a block from 2300 on is the old one with the block in
/// it, and the configuration is untouched.
proof fn lemma_logic_block(b: Block, addr: u16, values: Seq<u16>, n: nat)
    requires
        n <= values.len(),
        addr >= regs::HOLD_DEVICE_CONFIG,
        addr + values.len() <= regs::HOLD_CFG_END + 1,
        b.holding.len() == 2048,
    ensures
        block_run(b, addr, values, n) == (Block {
            holding: spliced(b.holding, addr - regs::HOLD_PXX_BASE, values.take(n as int)),
            holding_changed: b.holding_changed || n > 0,
            ..b
        }),
    decreases n,
{
    if n > 0 {
        lemma_logic_block(b, addr, values, (n - 1) as nat);
        let before = block_run(b, addr, values, (n - 1) as nat);
        let target = (addr + (n - 1)) as u16;
        assert(block_step(before, target, values[n - 1]).holding =~= spliced(
            b.holding,
            addr - regs::HOLD_PXX_BASE,
            values.take(n as int),
        ));
    } else {
        assert(spliced(b.holding, addr - regs::HOLD_PXX_BASE, values.take(0)) =~= b.holding);
    }
}

/// A block written to the logic area is accepted, every word of it reads back where
/// no published or polled value stands for it, and it is marked to be persisted.
pub proof fn law_logic_block_reads_back(g: GatewayView, addr: u16, values: Seq<u16>, i: int)
    requires
        started(g),
        addr >= regs::HOLD_DEVICE_CONFIG,
        addr + values.len() <= regs::HOLD_CFG_END + 1,
        0 <= i < values.len(),
        result_word(g.control, (addr + i) as u16) is None,
        polled_word(g.rtu, (addr + i) as u16) is None,
    ensures
        block_written(g, addr, values).ok,
        hold_reg(block_written(g, addr, values).g, (addr + i) as u16) == Some(values[i]),
        block_written(g, addr, values).g.storage.holding_dirty,
{
    lemma_logic_block(block_start(g), addr, values, values.len());
    assert(values.take(values.len() as int) =~= values);
    assert(block_writable(addr, values.len() as int));
    let s = spliced(current_storage(g).holding_buf, addr - regs::HOLD_PXX_BASE, values);
    assert(s[addr + i - regs::HOLD_PXX_BASE] == values[i]);
}

/// A block written to the device text is accepted and every word of it reads back.
pub proof fn law_text_block_reads_back(g: GatewayView, addr: u16, values: Seq<u16>, i: int)
    requires
        started(g),
        addr >= regs::DEVICE_TEXT_BASE,
        addr + values.len() <= regs::DEVICE_TEXT_END + 1,
        0 <= i < values.len(),
    ensures
        block_written(g, addr, values).ok,
        hold_reg(block_written(g, addr, values).g, (addr + i) as u16) == Some(values[i]),
        block_written(g, addr, values).g.storage.text_dirty,
{
    assert(block_writable(addr, values.len() as int));
}

/// A block in the configuration and register buffer area, or in the device text, is
/// published as a whole and always accepted.
pub proof fn law_area_block_is_accepted(g: GatewayView, addr: u16, values: Seq<u16>)
    requires
        values.len() > 0,
        regs::HOLD_CFG_BASE <= addr && addr + values.len() <= regs::HOLD_CFG_END + 1 || regs::DEVICE_TEXT_BASE
            <= addr && addr + values.len() <= regs::DEVICE_TEXT_END + 1,
    ensures
        block_written(g, addr, values).ok,
{
    assert(block_writable(addr, values.len() as int));
}

} // verus!

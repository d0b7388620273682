//! The register map over plain fields with one owner.
//!
//! Requests to the storage task are put into the bus's own mailbox.

use crate::bits::{bit, get_bit, law_bit_of_with_bit, set_bit, with_bit};
use crate::bus::io_state::channel;
use crate::bus::storage_state::zero_words;
use crate::config::{hw_version, regs};
use crate::device::system_config::{
    cfg_default, cfg_read, cfg_write, cfg_write_result, CfgView, SystemConfig, WriteResult,
};
use crate::device::{DeviceCmd, PROTO_MAGIC};
use crate::device_config::{table_read, table_write, DeviceConfigTable, TableView};
use crate::sync::MpscRing;
use vstd::prelude::*;

verus! {

/// Digital outputs: bit `i` is output `i`.
#[derive(Clone, Copy)]
pub struct DoState {
    pub bits: u64,
}

/// Digital inputs: bit `i` is input `i`.
#[derive(Clone, Copy)]
pub struct DiState {
    pub bits: u64,
}

/// Analogue inputs: converter values and scaled values.
#[derive(Clone, Copy)]
pub struct AiState {
    pub raw: [u16; 6],
    pub scaled: [u16; 6],
}

/// Analogue outputs: set values and duty cycles.
#[derive(Clone, Copy)]
pub struct AoState {
    pub scaled: [u16; 4],
    pub duty: [u32; 4],
}

/// System registers.
#[derive(Clone, Copy)]
pub struct SysState {
    pub firmware_version: u16,
    pub uptime_s: u32,
    pub reset_count: u16,
    pub reset_reason: u8,
    pub reset_request: bool,
    pub log_level: u8,
}

impl SysState {
    /// Default log level: informational.
    pub const DEFAULT_LOG_LEVEL: u8 = 2;
}

/// Firmware version before one is known.
pub const DEFAULT_FIRMWARE_VERSION: u16 = 0x0100;

/// Date code of the firmware, month and day.
pub const FIRMWARE_DATE: u16 = 0x0615;

/// The protocol store.
#[derive(Clone, Copy)]
pub struct ProtoStore {
    pub data: [u16; 1500],
    pub version: u16,
    pub length: u16,
    /// Changed and not yet persisted.
    pub dirty: bool,
    /// 0 idle, 1 persisting, 2 loading, 3 damaged.
    pub status: u8,
}

impl Default for DoState {
    fn default() -> (r: Self)
        ensures
            r.bits == 0,
    {
        DoState { bits: 0 }
    }
}

impl Default for DiState {
    fn default() -> (r: Self)
        ensures
            r.bits == 0,
    {
        DiState { bits: 0 }
    }
}

impl Default for AiState {
    fn default() -> (r: Self)
        ensures
            r.raw@ == zero_words(6),
            r.scaled@ == zero_words(6),
    {
        let r = AiState { raw: [0u16; 6], scaled: [0u16; 6] };
        assert(r.raw@ =~= zero_words(6) && r.scaled@ =~= zero_words(6));
        r
    }
}

impl Default for AoState {
    fn default() -> (r: Self)
        ensures
            r.scaled@ == zero_words(4),
            r.duty@ == Seq::new(4, |i: int| 0u32),
    {
        let r = AoState { scaled: [0u16; 4], duty: [0u32; 4] };
        assert(r.scaled@ =~= zero_words(4) && r.duty@ =~= Seq::new(4, |i: int| 0u32));
        r
    }
}

/// The system registers at start.
pub open spec fn sys_default() -> SysState {
    SysState {
        firmware_version: DEFAULT_FIRMWARE_VERSION,
        uptime_s: 0,
        reset_count: 0,
        reset_reason: 0,
        reset_request: false,
        log_level: 2,
    }
}

impl Default for SysState {
    fn default() -> (r: Self)
        ensures
            r == sys_default(),
    {
        SysState {
            firmware_version: DEFAULT_FIRMWARE_VERSION,
            uptime_s: 0,
            reset_count: 0,
            reset_reason: 0,
            reset_request: false,
            log_level: Self::DEFAULT_LOG_LEVEL,
        }
    }
}

impl Default for ProtoStore {
    fn default() -> (r: Self)
        ensures
            r.data@ == zero_words(1500),
            r.version == 0,
            r.length == 0,
            !r.dirty,
            r.status == 0,
    {
        let r = ProtoStore { data: [0u16; 1500], version: 0, length: 0, dirty: false, status: 0 };
        assert(r.data@ =~= zero_words(1500));
        r
    }
}

/// The bus.
pub struct Bus {
    pub di: DiState,
    pub do_: DoState,
    pub ai: AiState,
    pub ao: AoState,
    pub sys: SysState,
    pub proto: ProtoStore,
    pub cfg: SystemConfig,
    pub device_config: DeviceConfigTable,
    pub device_text: [u16; 2000],
    /// Requests to the storage task.
    pub requests: MpscRing<DeviceCmd, 32>,
}

/// The bus as plain values.
#[verifier::ext_equal]
pub struct BusView {
    pub di: u64,
    pub do_: u64,
    pub ai_raw: Seq<u16>,
    pub ai_scaled: Seq<u16>,
    pub ao_scaled: Seq<u16>,
    pub ao_duty: Seq<u32>,
    pub sys: SysState,
    pub data: Seq<u16>,
    pub version: u16,
    pub length: u16,
    pub dirty: bool,
    pub status: u8,
    pub cfg: CfgView,
    pub table: TableView,
    pub text: Seq<u16>,
    pub requests: Seq<DeviceCmd>,
}

impl View for Bus {
    type V = BusView;

    open spec fn view(&self) -> BusView {
        BusView {
            di: self.di.bits,
            do_: self.do_.bits,
            ai_raw: self.ai.raw@,
            ai_scaled: self.ai.scaled@,
            ao_scaled: self.ao.scaled@,
            ao_duty: self.ao.duty@,
            sys: self.sys,
            data: self.proto.data@,
            version: self.proto.version,
            length: self.proto.length,
            dirty: self.proto.dirty,
            status: self.proto.status,
            cfg: self.cfg@,
            table: self.device_config@,
            text: self.device_text@,
            requests: self.requests@,
        }
    }
}

/// The bus at start.
pub open spec fn bus_default() -> BusView {
    BusView {
        di: 0,
        do_: 0,
        ai_raw: zero_words(6),
        ai_scaled: zero_words(6),
        ao_scaled: zero_words(4),
        ao_duty: Seq::new(4, |i: int| 0u32),
        sys: sys_default(),
        data: zero_words(1500),
        version: 0,
        length: 0,
        dirty: false,
        status: 0,
        cfg: cfg_default(),
        table: TableView { devices: Seq::empty(), stored_count: 0 },
        text: zero_words(2000),
        requests: Seq::empty(),
    }
}

impl Default for Bus {
    fn default() -> (r: Self)
        ensures
            r@ == bus_default(),
    {
        let r = Bus {
            di: DiState::default(),
            do_: DoState::default(),
            ai: AiState::default(),
            ao: AoState::default(),
            sys: SysState::default(),
            proto: ProtoStore::default(),
            cfg: SystemConfig::defaults(),
            device_config: DeviceConfigTable::default(),
            device_text: [0u16; 2000],
            requests: MpscRing::new(),
        };
        assert(r@ =~= bus_default());
        r
    }
}

// ---- Points ----

/// Whether an address is that of an output.
pub open spec fn is_output(addr: u16) -> bool {
    regs::COIL_DO_BASE <= addr < regs::COIL_DO_END
}

/// A coil: an output, or an input under its own address.
pub open spec fn bus_coil(b: BusView, addr: u16) -> Option<bool> {
    if is_output(addr) {
        Some(bit(b.do_, addr - regs::COIL_DO_BASE))
    } else if addr < regs::DISC_DI_COUNT {
        Some(bit(b.di, addr as int))
    } else {
        None
    }
}

/// A discrete input.
pub open spec fn bus_disc(b: BusView, addr: u16) -> Option<bool> {
    if addr < regs::DISC_DI_COUNT {
        Some(bit(b.di, addr as int))
    } else {
        None
    }
}

// ---- Input registers ----

/// An input register: a converter value, its scaled value, or what the board has.
pub open spec fn bus_input(b: BusView, addr: u16) -> Option<u16> {
    if regs::INREG_AI_BASE <= addr < regs::INREG_AI_BASE + regs::INREG_AI_COUNT {
        Some(channel(b.ai_raw, addr - regs::INREG_AI_BASE))
    } else if regs::INREG_AI_STATUS_BASE <= addr < regs::INREG_AI_STATUS_BASE + regs::INREG_AI_COUNT {
        Some(channel(b.ai_scaled, addr - regs::INREG_AI_STATUS_BASE))
    } else if addr == regs::INREG_QI_COUNT {
        Some((hw_version::DO_COUNT * 256 + hw_version::DI_COUNT) as u16)
    } else if addr == regs::INREG_ADC485 {
        Some((regs::INREG_AI_COUNT * 256 + 2) as u16)
    } else if addr == regs::INREG_FW_VER {
        Some(b.sys.firmware_version)
    } else if addr == regs::INREG_FW_DATE {
        Some(FIRMWARE_DATE)
    } else {
        None
    }
}

// ---- Holding registers ----

/// Whether an address is in the device text.
pub open spec fn is_text(addr: u16) -> bool {
    regs::DEVICE_TEXT_BASE <= addr <= regs::DEVICE_TEXT_END
}

/// Whether an address is in the device table.
pub open spec fn is_table(addr: u16) -> bool {
    2300 <= addr < 2400
}

/// Whether an address is in the configuration.
pub open spec fn is_config(addr: u16) -> bool {
    regs::HOLD_CFG_BASE <= addr <= regs::HOLD_CFG_END
}

/// Whether an address is in the protocol store.
pub open spec fn is_proto(addr: u16) -> bool {
    regs::PROTO_BASE <= addr < regs::PROTO_END
}

/// A configuration register; one without a meaning reads as zero.
pub open spec fn config_word(c: CfgView, addr: u16) -> u16 {
    match cfg_read(c, addr) {
        Some(v) => v,
        None => 0,
    }
}

/// A holding register.
pub open spec fn bus_hold(b: BusView, addr: u16) -> Option<u16> {
    if is_text(addr) {
        Some(b.text[addr - regs::DEVICE_TEXT_BASE])
    } else if is_table(addr) && table_read(b.table, addr) is Some {
        table_read(b.table, addr)
    } else if is_config(addr) {
        Some(config_word(b.cfg, addr))
    } else if is_proto(addr) {
        Some(b.data[addr - regs::PROTO_BASE])
    } else if addr == regs::PROTO_COMMIT || addr == regs::PROTO_RELOAD {
        Some(0)
    } else if addr == regs::PROTO_VERSION {
        Some(b.version)
    } else if addr == regs::PROTO_LENGTH {
        Some(b.length)
    } else if addr == regs::PROTO_STATUS {
        Some(b.status as u16)
    } else if addr == regs::PROTO_MAGIC {
        Some(PROTO_MAGIC)
    } else {
        None
    }
}

/// The bus after a request to the storage task; a full mailbox drops it.
pub open spec fn bus_asked(b: BusView, cmd: DeviceCmd) -> BusView {
    if b.requests.len() < 32 {
        BusView { requests: b.requests.push(cmd), ..b }
    } else {
        b
    }
}

/// The bus after a configuration register was written. Any register of the area
/// accepts a write.
pub open spec fn config_written(b: BusView, addr: u16, v: u16) -> BusView {
    let c = cfg_write(b.cfg, addr, v);
    match cfg_write_result(addr, v) {
        WriteResult::Written => BusView { cfg: c, ..b },
        WriteResult::Persist => bus_asked(BusView { cfg: c, ..b }, DeviceCmd::PersistConfig),
        WriteResult::Apply => bus_asked(
            BusView { cfg: CfgView { cfg_version: c.cfg_version.wrapping_add(1), ..c }, ..b },
            DeviceCmd::ApplyConfig,
        ),
        WriteResult::Reset => bus_asked(BusView { cfg: cfg_default(), ..b }, DeviceCmd::ApplyConfig),
        WriteResult::NotFound => BusView { cfg: c, ..b },
    }
}

/// The bus after a register beside the protocol store was written, or `None`.
pub open spec fn command_written(b: BusView, addr: u16, v: u16) -> Option<BusView> {
    if addr == regs::PROTO_COMMIT {
        Some(
            if v == 0xC5C5 {
                bus_asked(BusView { status: 1, ..b }, DeviceCmd::Commit)
            } else {
                b
            },
        )
    } else if addr == regs::PROTO_RELOAD {
        Some(
            if v == 0xA5A5 {
                bus_asked(BusView { status: 2, ..b }, DeviceCmd::Reload)
            } else {
                b
            },
        )
    } else if addr == regs::PROTO_VERSION {
        Some(BusView { version: v, dirty: true, ..b })
    } else if addr == regs::PROTO_LENGTH {
        Some(BusView { length: v, dirty: true, ..b })
    } else {
        None
    }
}

/// The bus after a holding register was written, or `None` where it refuses.
pub open spec fn bus_written(b: BusView, addr: u16, v: u16) -> Option<BusView> {
    if is_text(addr) {
        Some(BusView { text: b.text.update(addr - regs::DEVICE_TEXT_BASE, v), ..b })
    } else if is_table(addr) {
        match table_write(b.table, addr, v) {
            Some(t) => Some(BusView { table: t, ..b }),
            None => None,
        }
    } else if is_config(addr) {
        Some(config_written(b, addr, v))
    } else if is_proto(addr) {
        Some(BusView { data: b.data.update(addr - regs::PROTO_BASE, v), dirty: true, ..b })
    } else {
        command_written(b, addr, v)
    }
}

impl Bus {
    /// The bus at start, with the version of the firmware that runs.
    pub fn new() -> (r: Self)
        ensures
            r@ == (BusView {
                sys: SysState { firmware_version: cfg_default().fw_version, ..sys_default() },
                ..bus_default()
            }),
    {
        let mut s = Self::default();
        s.sys.firmware_version = s.cfg.fw_version;
        s
    }

    /// Reads a coil.
    pub fn read_coil(&self, addr: u16) -> (r: Option<bool>)
        ensures
            r == bus_coil(self@, addr),
    {
        if regs::COIL_DO_BASE <= addr && addr < regs::COIL_DO_END {
            return Some(get_bit(self.do_.bits, (addr - regs::COIL_DO_BASE) as usize));
        }
        self.read_disc(addr)
    }

    /// Writes a coil; only outputs accept it.
    pub fn write_coil(&mut self, addr: u16, value: bool) -> (r: bool)
        ensures
            r == is_output(addr),
            final(self)@ == if r {
                BusView { do_: with_bit(old(self)@.do_, addr - regs::COIL_DO_BASE, value), ..old(self)@ }
            } else {
                old(self)@
            },
    {
        if regs::COIL_DO_BASE <= addr && addr < regs::COIL_DO_END {
            self.do_.bits = set_bit(self.do_.bits, (addr - regs::COIL_DO_BASE) as usize, value);
            true
        } else {
            false
        }
    }

    /// Reads a discrete input.
    pub fn read_disc(&self, addr: u16) -> (r: Option<bool>)
        ensures
            r == bus_disc(self@, addr),
    {
        if addr < regs::DISC_DI_COUNT {
            Some(get_bit(self.di.bits, addr as usize))
        } else {
            None
        }
    }

    /// Reads an input register.
    pub fn read_input_reg(&self, addr: u16) -> (r: Option<u16>)
        ensures
            r == bus_input(self@, addr),
    {
        if regs::INREG_AI_BASE <= addr && addr < regs::INREG_AI_BASE + regs::INREG_AI_COUNT {
            return Some(self.ai.raw[(addr - regs::INREG_AI_BASE) as usize]);
        }
        if regs::INREG_AI_STATUS_BASE <= addr && addr < regs::INREG_AI_STATUS_BASE + regs::INREG_AI_COUNT {
            return Some(self.ai.scaled[(addr - regs::INREG_AI_STATUS_BASE) as usize]);
        }
        if addr == regs::INREG_QI_COUNT {
            Some((hw_version::DO_COUNT * 256 + hw_version::DI_COUNT) as u16)
        } else if addr == regs::INREG_ADC485 {
            Some(regs::INREG_AI_COUNT * 256 + 2)
        } else if addr == regs::INREG_FW_VER {
            Some(self.sys.firmware_version)
        } else if addr == regs::INREG_FW_DATE {
            Some(FIRMWARE_DATE)
        } else {
            None
        }
    }

    /// Reads a holding register.
    pub fn read_hold_reg(&self, addr: u16) -> (r: Option<u16>)
        ensures
            r == bus_hold(self@, addr),
    {
        if regs::DEVICE_TEXT_BASE <= addr && addr <= regs::DEVICE_TEXT_END {
            return Some(self.device_text[(addr - regs::DEVICE_TEXT_BASE) as usize]);
        }
        if 2300 <= addr && addr < 2400 {
            if let Some(v) = self.device_config.read_reg(addr) {
                return Some(v);
            }
        }
        if regs::HOLD_CFG_BASE <= addr && addr <= regs::HOLD_CFG_END {
            return Some(
                match self.cfg.read_reg(addr) {
                    Some(v) => v,
                    None => 0,
                },
            );
        }
        if regs::PROTO_BASE <= addr && addr < regs::PROTO_END {
            return Some(self.proto.data[(addr - regs::PROTO_BASE) as usize]);
        }
        if addr == regs::PROTO_COMMIT || addr == regs::PROTO_RELOAD {
            Some(0)
        } else if addr == regs::PROTO_VERSION {
            Some(self.proto.version)
        } else if addr == regs::PROTO_LENGTH {
            Some(self.proto.length)
        } else if addr == regs::PROTO_STATUS {
            Some(self.proto.status as u16)
        } else if addr == regs::PROTO_MAGIC {
            Some(PROTO_MAGIC)
        } else {
            None
        }
    }

    fn write_config(&mut self, addr: u16, value: u16)
        ensures
            final(self)@ == config_written(old(self)@, addr, value),
    {
        match self.cfg.write_reg(addr, value) {
            WriteResult::Written => {},
            WriteResult::Persist => {
                let _ = self.requests.try_enqueue(DeviceCmd::PersistConfig);
            },
            WriteResult::Apply => {
                self.cfg.cfg_version = self.cfg.cfg_version.wrapping_add(1);
                let _ = self.requests.try_enqueue(DeviceCmd::ApplyConfig);
            },
            WriteResult::Reset => {
                self.cfg = SystemConfig::defaults();
                let _ = self.requests.try_enqueue(DeviceCmd::ApplyConfig);
            },
            WriteResult::NotFound => {},
        }
        assert(self@ =~= config_written(old(self)@, addr, value));
    }

    fn write_command(&mut self, addr: u16, value: u16) -> (r: bool)
        ensures
            r == (command_written(old(self)@, addr, value) is Some),
            final(self)@ == match command_written(old(self)@, addr, value) {
                Some(b) => b,
                None => old(self)@,
            },
    {
        if addr == regs::PROTO_COMMIT {
            if value == 0xC5C5 {
                self.proto.status = 1;
                let _ = self.requests.try_enqueue(DeviceCmd::Commit);
            }
        } else if addr == regs::PROTO_RELOAD {
            if value == 0xA5A5 {
                self.proto.status = 2;
                let _ = self.requests.try_enqueue(DeviceCmd::Reload);
            }
        } else if addr == regs::PROTO_VERSION {
            self.proto.version = value;
            self.proto.dirty = true;
        } else if addr == regs::PROTO_LENGTH {
            self.proto.length = value;
            self.proto.dirty = true;
        } else {
            return false;
        }
        assert(self@ =~= command_written(old(self)@, addr, value)->0);
        true
    }

    /// Writes a holding register.
    pub fn write_hold_reg(&mut self, addr: u16, value: u16) -> (r: bool)
        ensures
            r == (bus_written(old(self)@, addr, value) is Some),
            final(self)@ == match bus_written(old(self)@, addr, value) {
                Some(b) => b,
                None => old(self)@,
            },
    {
        if regs::DEVICE_TEXT_BASE <= addr && addr <= regs::DEVICE_TEXT_END {
            self.device_text[(addr - regs::DEVICE_TEXT_BASE) as usize] = value;
            assert(self@ =~= bus_written(old(self)@, addr, value)->0);
            return true;
        }
        if 2300 <= addr && addr < 2400 {
            let ok = self.device_config.write_reg(addr, value);
            assert(ok ==> self@ =~= bus_written(old(self)@, addr, value)->0);
            assert(!ok ==> self@ =~= old(self)@);
            return ok;
        }
        if regs::HOLD_CFG_BASE <= addr && addr <= regs::HOLD_CFG_END {
            self.write_config(addr, value);
            return true;
        }
        if regs::PROTO_BASE <= addr && addr < regs::PROTO_END {
            self.proto.data[(addr - regs::PROTO_BASE) as usize] = value;
            self.proto.dirty = true;
            assert(self@ =~= bus_written(old(self)@, addr, value)->0);
            return true;
        }
        self.write_command(addr, value)
    }
}

// ---- Laws ----

/// An output reads back as it was written, and no other output changes.
pub proof fn law_output_reads_back(b: BusView, addr: u16, v: bool, other: u16)
    requires
        is_output(addr),
        is_output(other),
    ensures
        ({
            let n = BusView { do_: with_bit(b.do_, addr - regs::COIL_DO_BASE, v), ..b };
            &&& bus_coil(n, addr) == Some(v)
            &&& other != addr ==> bus_coil(n, other) == bus_coil(b, other)
        }),
{
    let i = addr - regs::COIL_DO_BASE;
    law_bit_of_with_bit(b.do_, i, i, v);
    law_bit_of_with_bit(b.do_, i, other - regs::COIL_DO_BASE, v);
}

/// Device text and protocol data read back as they were written.
pub proof fn law_data_reads_back(b: BusView, addr: u16, v: u16)
    requires
        is_text(addr) || is_proto(addr),
        b.text.len() == 2000,
        b.data.len() == 1500,
    ensures
        bus_written(b, addr, v) matches Some(n) && bus_hold(n, addr) == Some(v),
{
}

/// Every register that accepts a write can be read.
pub proof fn law_writable_is_readable(b: BusView, addr: u16, v: u16)
    requires
        bus_written(b, addr, v) is Some,
    ensures
        bus_hold(b, addr) is Some,
{
}

} // verus!

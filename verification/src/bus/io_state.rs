//! State of the IO points and of the system registers.

use crate::bits::{bit, get_bit, mask_replace, replaced, set_bit, with_bit};
use vstd::prelude::*;

verus! {

/// Digital inputs: bit `i` is input `i`.
#[derive(Clone, Copy)]
pub struct DiState {
    pub bits: u64,
}

/// Digital outputs: bit `i` is output `i`.
#[derive(Clone, Copy)]
pub struct DoState {
    pub bits: u64,
}

/// Analogue inputs: filtered converter values, calibrated values and status.
#[derive(Clone, Copy)]
pub struct AiState {
    pub raw: [u16; 8],
    pub scaled: [u16; 8],
    pub status: [u16; 8],
}

/// Analogue outputs: set points (mV) and PWM duties.
#[derive(Clone, Copy)]
pub struct AoState {
    pub scaled: [u16; 4],
    pub duty: [u32; 4],
}

/// System registers.
#[derive(Clone, Copy)]
pub struct SysState {
    pub firmware_version: u16,
    pub uptime_s: u32,
    pub reset_count: u16,
    pub reset_reason: u8,
    /// 0 for none, otherwise the code of the source that asked.
    pub reset_request: u8,
    pub log_level: u8,
}

/// Who asked for a reset.
#[derive(Clone, Copy, PartialEq, Eq, Debug, Structural)]
pub enum ResetSource {
    Modbus,
    BleAt,
    BleOta,
}

impl ResetSource {
    pub open spec fn spec_code(self) -> u8 {
        match self {
            ResetSource::Modbus => 1,
            ResetSource::BleAt => 2,
            ResetSource::BleOta => 3,
        }
    }

    /// The code kept in the system registers.
    pub fn code(self) -> (r: u8)
        ensures
            r == self.spec_code(),
    {
        match self {
            ResetSource::Modbus => 1,
            ResetSource::BleAt => 2,
            ResetSource::BleOta => 3,
        }
    }
}

impl Default for DiState {
    fn default() -> (r: Self)
        ensures
            r.bits == 0,
    {
        DiState { bits: 0 }
    }
}

impl Default for DoState {
    fn default() -> (r: Self)
        ensures
            r.bits == 0,
    {
        DoState { bits: 0 }
    }
}

impl Default for AiState {
    fn default() -> (r: Self)
        ensures
            r@ == ai_zero(),
    {
        let r = AiState { raw: [0u16; 8], scaled: [0u16; 8], status: [0u16; 8] };
        assert(r@ =~= ai_zero());
        r
    }
}

impl Default for AoState {
    fn default() -> (r: Self)
        ensures
            r@ == ao_zero(),
    {
        let r = AoState { scaled: [0u16; 4], duty: [0u32; 4] };
        assert(r@ =~= ao_zero());
        r
    }
}

/// Default log level: informational.
pub const DEFAULT_LOG_LEVEL: u8 = 2;

pub open spec fn sys_zero() -> SysState {
    SysState {
        firmware_version: 0,
        uptime_s: 0,
        reset_count: 0,
        reset_reason: 0,
        reset_request: 0,
        log_level: 2,
    }
}

impl Default for SysState {
    fn default() -> (r: Self)
        ensures
            r == sys_zero(),
    {
        SysState {
            firmware_version: 0,
            uptime_s: 0,
            reset_count: 0,
            reset_reason: 0,
            reset_request: 0,
            log_level: DEFAULT_LOG_LEVEL,
        }
    }
}

impl DiState {
    pub fn get_bit(&self, ch: usize) -> (r: bool)
        ensures
            r == bit(self.bits, ch as int),
    {
        get_bit(self.bits, ch)
    }

    pub fn set_bit(&mut self, ch: usize, value: bool)
        ensures
            final(self).bits == with_bit(old(self).bits, ch as int, value),
    {
        self.bits = set_bit(self.bits, ch, value);
    }

    pub fn store_bits(&mut self, bits: u64)
        ensures
            final(self).bits == bits,
    {
        self.bits = bits;
    }

    pub fn load_bits(&self) -> (r: u64)
        ensures
            r == self.bits,
    {
        self.bits
    }
}

impl DoState {
    pub fn get_bit(&self, ch: usize) -> (r: bool)
        ensures
            r == bit(self.bits, ch as int),
    {
        get_bit(self.bits, ch)
    }

    pub fn set_bit(&mut self, ch: usize, value: bool)
        ensures
            final(self).bits == with_bit(old(self).bits, ch as int, value),
    {
        self.bits = set_bit(self.bits, ch, value);
    }

    pub fn store_bits(&mut self, bits: u64)
        ensures
            final(self).bits == bits,
    {
        self.bits = bits;
    }

    pub fn load_bits(&self) -> (r: u64)
        ensures
            r == self.bits,
    {
        self.bits
    }

    /// Replaces the outputs of `mask` by those of `value` in one step.
    pub fn mask_replace(&mut self, mask: u64, value: u64)
        ensures
            final(self).bits == replaced(old(self).bits, mask, value),
    {
        self.bits = mask_replace(self.bits, mask, value);
    }
}

/// The analogue inputs as sequences.
#[verifier::ext_equal]
pub struct AiView {
    pub raw: Seq<u16>,
    pub scaled: Seq<u16>,
    pub status: Seq<u16>,
}

/// The analogue outputs as sequences.
#[verifier::ext_equal]
pub struct AoView {
    pub scaled: Seq<u16>,
    pub duty: Seq<u32>,
}

impl View for AiState {
    type V = AiView;

    open spec fn view(&self) -> AiView {
        AiView { raw: self.raw@, scaled: self.scaled@, status: self.status@ }
    }
}

impl View for AoState {
    type V = AoView;

    open spec fn view(&self) -> AoView {
        AoView { scaled: self.scaled@, duty: self.duty@ }
    }
}

pub open spec fn ai_zero() -> AiView {
    AiView {
        raw: Seq::new(8, |i: int| 0u16),
        scaled: Seq::new(8, |i: int| 0u16),
        status: Seq::new(8, |i: int| 0u16),
    }
}

pub open spec fn ao_zero() -> AoView {
    AoView { scaled: Seq::new(4, |i: int| 0u16), duty: Seq::new(4, |i: int| 0u32) }
}

/// Channel `ch` of a channel list; a channel that does not exist reads as zero.
pub open spec fn channel(s: Seq<u16>, ch: int) -> u16 {
    if 0 <= ch < s.len() {
        s[ch]
    } else {
        0
    }
}

/// The channel list with `ch` set; a channel that does not exist is ignored.
pub open spec fn with_channel<T>(s: Seq<T>, ch: int, v: T) -> Seq<T> {
    if 0 <= ch < s.len() {
        s.update(ch, v)
    } else {
        s
    }
}

impl AiState {
    pub fn set_raw(&mut self, ch: usize, value: u16)
        ensures
            final(self)@ == (AiView { raw: with_channel(old(self)@.raw, ch as int, value), ..old(self)@ }),
    {
        if ch < 8 {
            self.raw[ch] = value;
        }
    }

    pub fn get_raw(&self, ch: usize) -> (r: u16)
        ensures
            r == channel(self@.raw, ch as int),
    {
        if ch < 8 {
            self.raw[ch]
        } else {
            0
        }
    }

    pub fn set_scaled(&mut self, ch: usize, value: u16)
        ensures
            final(self)@ == (AiView { scaled: with_channel(old(self)@.scaled, ch as int, value), ..old(self)@ }),
    {
        if ch < 8 {
            self.scaled[ch] = value;
        }
    }

    pub fn get_scaled(&self, ch: usize) -> (r: u16)
        ensures
            r == channel(self@.scaled, ch as int),
    {
        if ch < 8 {
            self.scaled[ch]
        } else {
            0
        }
    }

    /// Sets the status word of a channel: 1 for a valid signal, 0 otherwise.
    pub fn set_status(&mut self, ch: usize, value: u16)
        ensures
            final(self)@ == (AiView { status: with_channel(old(self)@.status, ch as int, value), ..old(self)@ }),
    {
        if ch < 8 {
            self.status[ch] = value;
        }
    }

    pub fn get_status(&self, ch: usize) -> (r: u16)
        ensures
            r == channel(self@.status, ch as int),
    {
        if ch < 8 {
            self.status[ch]
        } else {
            0
        }
    }

    /// Fills a buffer with the raw values; places past the last channel get zero.
    pub fn read_all_raw(&self, buf: &mut [u16])
        ensures
            final(buf)@ == Seq::new(old(buf)@.len(), |i: int| channel(self@.raw, i)),
    {
        let n: usize = buf.len();
        let mut i: usize = 0;
        while i < n
            invariant
                i <= n,
                buf@.len() == n,
                n == old(buf)@.len(),
                forall|j: int| 0 <= j < i ==> buf@[j] == channel(self@.raw, j),
            decreases n - i,
        {
            buf[i] = self.get_raw(i);
            i += 1;
        }
        assert(buf@ =~= Seq::new(old(buf)@.len(), |i: int| channel(self@.raw, i)));
    }

    /// Fills a buffer with the calibrated values; places past the last channel
    /// get zero.
    pub fn read_all_scaled(&self, buf: &mut [u16])
        ensures
            final(buf)@ == Seq::new(old(buf)@.len(), |i: int| channel(self@.scaled, i)),
    {
        let n: usize = buf.len();
        let mut i: usize = 0;
        while i < n
            invariant
                i <= n,
                buf@.len() == n,
                n == old(buf)@.len(),
                forall|j: int| 0 <= j < i ==> buf@[j] == channel(self@.scaled, j),
            decreases n - i,
        {
            buf[i] = self.get_scaled(i);
            i += 1;
        }
        assert(buf@ =~= Seq::new(old(buf)@.len(), |i: int| channel(self@.scaled, i)));
    }
}

impl AoState {
    pub fn set_scaled(&mut self, ch: usize, value: u16)
        ensures
            final(self)@ == (AoView { scaled: with_channel(old(self)@.scaled, ch as int, value), ..old(self)@ }),
    {
        if ch < 4 {
            self.scaled[ch] = value;
        }
    }

    pub fn get_scaled(&self, ch: usize) -> (r: u16)
        ensures
            r == channel(self@.scaled, ch as int),
    {
        if ch < 4 {
            self.scaled[ch]
        } else {
            0
        }
    }

    pub fn set_duty(&mut self, ch: usize, value: u32)
        ensures
            final(self)@ == (AoView { duty: with_channel(old(self)@.duty, ch as int, value), ..old(self)@ }),
    {
        if ch < 4 {
            self.duty[ch] = value;
        }
    }

    pub fn get_duty(&self, ch: usize) -> (r: u32)
        ensures
            r == (if ch < 4 {
                self@.duty[ch as int]
            } else {
                0
            }),
    {
        if ch < 4 {
            self.duty[ch]
        } else {
            0
        }
    }

    /// Fills a buffer with the set points; places past the last channel get zero.
    pub fn read_all_scaled(&self, buf: &mut [u16])
        ensures
            final(buf)@ == Seq::new(old(buf)@.len(), |i: int| channel(self@.scaled, i)),
    {
        let n: usize = buf.len();
        let mut i: usize = 0;
        while i < n
            invariant
                i <= n,
                buf@.len() == n,
                n == old(buf)@.len(),
                forall|j: int| 0 <= j < i ==> buf@[j] == channel(self@.scaled, j),
            decreases n - i,
        {
            buf[i] = self.get_scaled(i);
            i += 1;
        }
        assert(buf@ =~= Seq::new(old(buf)@.len(), |i: int| channel(self@.scaled, i)));
    }
}

impl SysState {
    pub const DEFAULT_LOG_LEVEL: u8 = 2;

    pub fn get_fw_version(&self) -> (r: u16)
        ensures
            r == self.firmware_version,
    {
        self.firmware_version
    }

    pub fn set_fw_version(&mut self, v: u16)
        ensures
            *final(self) == (SysState { firmware_version: v, ..*old(self) }),
    {
        self.firmware_version = v;
    }

    pub fn get_uptime(&self) -> (r: u32)
        ensures
            r == self.uptime_s,
    {
        self.uptime_s
    }

    pub fn set_uptime(&mut self, v: u32)
        ensures
            *final(self) == (SysState { uptime_s: v, ..*old(self) }),
    {
        self.uptime_s = v;
    }

    pub fn get_reset_count(&self) -> (r: u16)
        ensures
            r == self.reset_count,
    {
        self.reset_count
    }

    pub fn set_reset_count(&mut self, v: u16)
        ensures
            *final(self) == (SysState { reset_count: v, ..*old(self) }),
    {
        self.reset_count = v;
    }

    pub fn get_reset_reason(&self) -> (r: u8)
        ensures
            r == self.reset_reason,
    {
        self.reset_reason
    }

    pub fn set_reset_reason(&mut self, v: u8)
        ensures
            *final(self) == (SysState { reset_reason: v, ..*old(self) }),
    {
        self.reset_reason = v;
    }

    pub fn is_reset_requested(&self) -> (r: bool)
        ensures
            r == (self.reset_request != 0),
    {
        self.reset_request != 0
    }

    pub fn request_reset(&mut self, source: ResetSource)
        ensures
            *final(self) == (SysState { reset_request: source.spec_code(), ..*old(self) }),
    {
        self.reset_request = source.code();
    }

    pub fn clear_reset_request(&mut self)
        ensures
            *final(self) == (SysState { reset_request: 0, ..*old(self) }),
    {
        self.reset_request = 0;
    }

    pub fn get_log_level(&self) -> (r: u8)
        ensures
            r == self.log_level,
    {
        self.log_level
    }

    pub fn set_log_level(&mut self, v: u8)
        ensures
            *final(self) == (SysState { log_level: v, ..*old(self) }),
    {
        self.log_level = v;
    }
}

} // verus!

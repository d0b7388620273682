//! Sampling of the analogue inputs: a moving average of each channel, scaled by its
//! calibration.

use crate::bus::event_bus::{events_after, send_event, IoEvent};
use crate::bus::io_global::IoView;
use crate::bus::io_state::AiView;
use crate::config::{ai_calib, regs};
use crate::gateway::{Gateway, GatewayView};
use vstd::prelude::*;

verus! {

/// Sampling period (ms).
pub const SAMPLE_PERIOD_MS: u64 = 100;

/// Samples that are averaged.
pub const AVG_WINDOW: usize = 8;

/// Sampled channels.
pub const CHANNEL_COUNT: usize = 6;

// ---- Scaling ----

pub open spec fn magnitude(a: int) -> int {
    if a < 0 {
        -a
    } else {
        a
    }
}

/// A quotient, rounded towards zero.
pub open spec fn quotient(a: int, b: int) -> int {
    let q = magnitude(a) / magnitude(b);
    if (a < 0) == (b < 0) {
        q
    } else {
        -q
    }
}

/// A number, held between two others.
pub open spec fn held_between(v: int, a: int, b: int) -> int {
    let lower = if a < b {
        a
    } else {
        b
    };
    let upper = if a < b {
        b
    } else {
        a
    };
    if v < lower {
        lower
    } else if v > upper {
        upper
    } else {
        v
    }
}

/// The value on the line through `(in_min, out_min)` and `(in_max, out_max)`, held
/// between the two outputs; `out_min` where there is no line.
pub open spec fn mapped(x: u16, in_min: u16, in_max: u16, out_min: u16, out_max: u16) -> u16 {
    if in_min == in_max {
        out_min
    } else {
        held_between(
            out_min + quotient((x - in_min) * (out_max - out_min), in_max - in_min),
            out_min as int,
            out_max as int,
        ) as u16
    }
}

fn distance(a: u16, b: u16) -> (r: u32)
    ensures
        r == magnitude(a - b),
        r <= 0xFFFF,
{
    if a < b {
        (b - a) as u32
    } else {
        (a - b) as u32
    }
}

/// The value on a line, held between its ends.
pub fn map_range(x: u16, in_min: u16, in_max: u16, out_min: u16, out_max: u16) -> (r: u16)
    ensures
        r == mapped(x, in_min, in_max, out_min, out_max),
{
    if in_min == in_max {
        return out_min;
    }
    let dx: u32 = distance(x, in_min);
    let dy: u32 = distance(out_max, out_min);
    let den: u32 = distance(in_max, in_min);
    proof {
        let a = x - in_min;
        let b = out_max - out_min;
        assert(dx * dy <= 0xFFFF * 0xFFFF) by (nonlinear_arith)
            requires
                dx <= 0xFFFF,
                dy <= 0xFFFF,
        ;
        assert(magnitude(a * b) == magnitude(a) * magnitude(b)) by (nonlinear_arith);
        assert((a * b < 0) == ((a < 0) != (b < 0) && a != 0 && b != 0)) by (nonlinear_arith);
        assert(a == 0 || b == 0 ==> a * b == 0) by (nonlinear_arith);
        assert(a == 0 || b == 0 ==> dx * dy == 0) by (nonlinear_arith)
            requires
                dx == magnitude(a),
                dy == magnitude(b),
        ;
    }
    let q: u32 = dx * dy / den;
    let down: bool = ((x < in_min) != (out_max < out_min)) != (in_max < in_min);
    if out_min < out_max {
        if down {
            out_min
        } else if q as u64 > (out_max - out_min) as u64 {
            out_max
        } else {
            out_min + q as u16
        }
    } else {
        if !down {
            out_min
        } else if q as u64 > (out_min - out_max) as u64 {
            out_max
        } else {
            out_min - q as u16
        }
    }
}

/// Value of a channel without calibration: full scale is 4 to 20 mA.
pub open spec fn current_of(avg: u16) -> u16 {
    (ai_calib::MA_MIN + avg * (ai_calib::MA_MAX - ai_calib::MA_MIN) / (ai_calib::ADC_MAX as int)) as u16
}

/// Value of a channel: on the line of its calibration, or a current without one.
pub open spec fn scaled_value(avg: u16, cal_min: u16, cal_max: u16) -> u16 {
    if cal_min != cal_max {
        mapped(avg, cal_max, cal_min, 4095, 0)
    } else {
        current_of(avg)
    }
}

fn scale(avg: u16, cal_min: u16, cal_max: u16) -> (r: u16)
    ensures
        r == scaled_value(avg, cal_min, cal_max),
{
    if cal_min != cal_max {
        map_range(avg, cal_max, cal_min, 4095, 0)
    } else {
        let span: u32 = ai_calib::MA_MAX - ai_calib::MA_MIN;
        assert(avg * span <= 0xFFFF * 16000) by (nonlinear_arith)
            requires
                avg <= 0xFFFF,
                span == 16000,
        ;
        let v: u32 = ai_calib::MA_MIN + (avg as u32) * span / ai_calib::ADC_MAX;
        v as u16
    }
}

/// A calibration value of a channel, zero where there is none.
pub open spec fn calibration(g: GatewayView, base: u16, ch: int) -> u16 {
    match g.storage.snapshot {
        Some(s) => s.holding_buf[base - regs::HOLD_CFG_BASE + ch],
        None => 0,
    }
}

/// Reads the lower or the upper calibration value of a channel.
pub(crate) fn read_sensor_calib(gw: &Gateway, is_min: bool, ch: usize) -> (r: u16)
    requires
        ch < 8,
    ensures
        r == calibration(
            gw@,
            if is_min {
                regs::HOLD_SENSOR_MIN_BASE
            } else {
                regs::HOLD_SENSOR_MAX_BASE
            },
            ch as int,
        ),
{
    let base: u16 = if is_min {
        regs::HOLD_SENSOR_MIN_BASE
    } else {
        regs::HOLD_SENSOR_MAX_BASE
    };
    match gw.storage.snapshot.read() {
        Some(s) => s.holding_buf[(base - regs::HOLD_CFG_BASE) as usize + ch],
        None => 0,
    }
}

// ---- Averaging ----

/// The latest samples of all channels.
pub struct AiSampler {
    buf: [[u16; 8]; 6],
    pos: usize,
    filled: usize,
}

/// The latest samples as plain values: a window for each channel, where the next
/// sample goes, and how many samples there are.
#[verifier::ext_equal]
pub struct SamplerView {
    pub windows: Seq<Seq<u16>>,
    pub pos: int,
    pub filled: int,
}

impl View for AiSampler {
    type V = SamplerView;

    closed spec fn view(&self) -> SamplerView {
        SamplerView {
            windows: self.buf@.map_values(|w: [u16; 8]| w@),
            pos: self.pos as int,
            filled: self.filled as int,
        }
    }
}

/// The sum of the first `n` samples of a window.
pub open spec fn sum_of(w: Seq<u16>, n: nat) -> int
    decreases n,
{
    if n == 0 {
        0
    } else {
        sum_of(w, (n - 1) as nat) + w[n - 1]
    }
}

/// The samples after new ones were taken.
pub open spec fn sampled(v: SamplerView, raws: Seq<u16>) -> SamplerView {
    SamplerView {
        windows: Seq::new(v.windows.len(), |ch: int| v.windows[ch].update(v.pos, raws[ch])),
        pos: (v.pos + 1) % 8,
        filled: if v.filled < AVG_WINDOW {
            v.filled + 1
        } else {
            v.filled
        },
    }
}

/// The average of a channel: of the samples that there are, eight at most.
pub open spec fn average(v: SamplerView, ch: int) -> u16 {
    (sum_of(v.windows[ch], 8) / v.filled) as u16
}

impl AiSampler {
    /// Whether the samples make sense: places that were not filled yet hold zero.
    pub closed spec fn wf(&self) -> bool {
        &&& self.pos < 8
        &&& self.filled <= 8
        &&& self.filled < 8 ==> self.pos == self.filled
        &&& forall|ch: int, i: int|
            0 <= ch < 6 && self.filled <= i < 8 ==> #[trigger] self@.windows[ch][i] == 0
    }

    pub fn new() -> (r: Self)
        ensures
            r.wf(),
            r@ == (SamplerView {
                windows: Seq::new(6, |ch: int| Seq::new(8, |i: int| 0u16)),
                pos: 0,
                filled: 0,
            }),
    {
        let r = AiSampler { buf: [[0u16; 8]; 6], pos: 0, filled: 0 };
        assert forall|ch: int| 0 <= ch < 6 implies #[trigger] r@.windows[ch] == Seq::new(8, |i: int| 0u16) by {
            assert(r@.windows[ch] =~= Seq::new(8, |i: int| 0u16));
        }
        assert(r@.windows =~= Seq::new(6, |ch: int| Seq::new(8, |i: int| 0u16)));
        r
    }

    fn sum(&self, ch: usize) -> (r: u32)
        requires
            ch < 6,
        ensures
            r == sum_of(self@.windows[ch as int], 8),
            r <= 8 * 0xFFFF,
    {
        let mut s: u32 = 0;
        let mut i: usize = 0;
        while i < 8
            invariant
                i <= 8,
                ch < 6,
                s == sum_of(self@.windows[ch as int], i as nat),
                s <= i * 0xFFFF,
            decreases 8 - i,
        {
            let row = &self.buf[ch];
            assert(row@ == self@.windows[ch as int]);
            s = s + row[i] as u32;
            i += 1;
        }
        s
    }

    fn put(&mut self, raws: &[u16; 6])
        requires
            old(self).wf(),
        ensures
            final(self).wf(),
            final(self)@ == sampled(old(self)@, raws@),
            1 <= final(self)@.filled <= 8,
    {
        let ghost before = self@;
        let mut ch: usize = 0;
        while ch < CHANNEL_COUNT
            invariant
                ch <= 6,
                self.pos == old(self).pos < 8,
                self.filled == old(self).filled <= 8,
                before == old(self)@,
                self@.windows.len() == 6,
                forall|j: int| 0 <= j < 6 ==> #[trigger] self@.windows[j] == if j < ch {
                    before.windows[j].update(before.pos, raws@[j])
                } else {
                    before.windows[j]
                },
            decreases 6 - ch,
        {
            let ghost prev = self@;
            let mut row = self.buf[ch];
            assert(row@ == prev.windows[ch as int]);
            row[self.pos] = raws[ch];
            self.buf[ch] = row;
            assert(self@.windows =~= prev.windows.update(ch as int, row@));
            ch += 1;
        }
        self.pos = (self.pos + 1) % AVG_WINDOW;
        if self.filled < AVG_WINDOW {
            self.filled = self.filled + 1;
        }
        assert(self@.windows =~= sampled(before, raws@).windows);
    }
}

/// Starts sampling without any samples.
pub fn start_sample_task() -> (r: AiSampler)
    ensures
        r.wf(),
        r@ == (SamplerView { windows: Seq::new(6, |ch: int| Seq::new(8, |i: int| 0u16)), pos: 0, filled: 0 }),
{
    AiSampler::new()
}

/// The state after a round of samples: the averages and what they mean.
pub open spec fn after_sample(g: GatewayView, v: SamplerView) -> GatewayView {
    GatewayView {
        io: IoView {
            ai: AiView {
                raw: Seq::new(
                    g.io.ai.raw.len(),
                    |ch: int|
                        if ch < 6 {
                            average(v, ch)
                        } else {
                            g.io.ai.raw[ch]
                        },
                ),
                scaled: Seq::new(
                    g.io.ai.scaled.len(),
                    |ch: int|
                        if ch < 6 {
                            scaled_value(
                                average(v, ch),
                                calibration(g, regs::HOLD_SENSOR_MIN_BASE, ch),
                                calibration(g, regs::HOLD_SENSOR_MAX_BASE, ch),
                            )
                        } else {
                            g.io.ai.scaled[ch]
                        },
                ),
                ..g.io.ai
            },
            ..g.io
        },
        events: events_after(g.events, IoEvent::AiSampled),
        ..g
    }
}

/// Takes in a round of samples.
pub fn tick_ai_sample(sampler: &mut AiSampler, gw: &mut Gateway, raws: &[u16; 6])
    requires
        old(sampler).wf(),
    ensures
        final(sampler).wf(),
        final(sampler)@ == sampled(old(sampler)@, raws@),
        final(gw)@ == after_sample(old(gw)@, final(sampler)@),
{
    sampler.put(raws);
    let ghost g = gw@;
    let ghost v = sampler@;
    let mut ch: usize = 0;
    while ch < CHANNEL_COUNT
        invariant
            ch <= 6,
            sampler@ == v,
            1 <= v.filled <= 8,
            gw@ == (GatewayView { io: gw@.io, ..g }),
            gw@.io == (IoView { ai: gw@.io.ai, ..g.io }),
            gw@.io.ai.status == g.io.ai.status,
            gw@.io.ai.raw.len() == g.io.ai.raw.len() == 8,
            gw@.io.ai.scaled.len() == g.io.ai.scaled.len() == 8,
            forall|j: int| 0 <= j < 8 ==> #[trigger] gw@.io.ai.raw[j] == if j < ch {
                average(v, j)
            } else {
                g.io.ai.raw[j]
            },
            forall|j: int| 0 <= j < 8 ==> #[trigger] gw@.io.ai.scaled[j] == if j < ch {
                scaled_value(
                    average(v, j),
                    calibration(g, regs::HOLD_SENSOR_MIN_BASE, j),
                    calibration(g, regs::HOLD_SENSOR_MAX_BASE, j),
                )
            } else {
                g.io.ai.scaled[j]
            },
        decreases 6 - ch,
    {
        let avg: u16 = (sampler.sum(ch) / sampler.filled as u32) as u16;
        let cal_min: u16 = read_sensor_calib(gw, true, ch);
        let cal_max: u16 = read_sensor_calib(gw, false, ch);
        gw.io.ai.set_raw(ch, avg);
        gw.io.ai.set_scaled(ch, scale(avg, cal_min, cal_max));
        ch += 1;
    }
    send_event(&mut gw.events, IoEvent::AiSampled);
    assert(gw@.io.ai =~= after_sample(g, v).io.ai);
    assert(gw@ =~= after_sample(g, v));
}

// ---- Laws ----

proof fn lemma_sum_bound(w: Seq<u16>, n: nat, filled: nat, top: int)
    requires
        n <= w.len(),
        forall|i: int| 0 <= i < w.len() ==> 0 <= #[trigger] w[i] <= top,
        forall|i: int| filled <= i < w.len() ==> #[trigger] w[i] == 0,
    ensures
        0 <= sum_of(w, n) <= (if n < filled {
            n
        } else {
            filled
        }) * top,
    decreases n,
{
    if n > 0 {
        lemma_sum_bound(w, (n - 1) as nat, filled, top);
        if n <= filled {
            assert((n - 1) * top + top == n * top) by (nonlinear_arith);
        }
    } else {
        assert(0 * top == 0);
    }
}

/// An average is never above the highest sample that it is made of.
pub proof fn law_average_is_bounded(s: AiSampler, ch: int, top: u16)
    requires
        s.wf(),
        1 <= s@.filled,
        0 <= ch < 6,
        forall|i: int| 0 <= i < 8 ==> #[trigger] s@.windows[ch][i] <= top,
    ensures
        average(s@, ch) <= top,
{
    let w = s@.windows[ch];
    lemma_sum_bound(w, 8, s@.filled as nat, top as int);
    let sum = sum_of(w, 8);
    let n = s@.filled;
    assert(0 <= sum / n <= top) by (nonlinear_arith)
        requires
            0 <= sum <= n * top,
            n >= 1,
    ;
}

/// The calibrated value of a channel is a 12-bit value.
pub proof fn law_calibrated_value_is_12_bit(avg: u16, cal_min: u16, cal_max: u16)
    requires
        cal_min != cal_max,
    ensures
        scaled_value(avg, cal_min, cal_max) <= 4095,
{
}

/// The ends of the line map to its ends.
pub proof fn law_ends_map_to_ends(in_min: u16, in_max: u16, out_min: u16, out_max: u16)
    requires
        in_min != in_max,
    ensures
        mapped(in_min, in_min, in_max, out_min, out_max) == out_min,
        mapped(in_max, in_min, in_max, out_min, out_max) == out_max,
{
    let d = in_max - in_min;
    let o = out_max - out_min;
    assert((in_min - in_min) * o == 0) by (nonlinear_arith);
    assert(magnitude(d * o) == magnitude(d) * magnitude(o)) by (nonlinear_arith);
    assert((magnitude(d) * magnitude(o)) / magnitude(d) == magnitude(o)) by (nonlinear_arith)
        requires
            magnitude(d) > 0,
    ;
    assert((d * o < 0) == ((d < 0) != (o < 0) && o != 0)) by (nonlinear_arith)
        requires
            d != 0,
    ;
}

} // verus!

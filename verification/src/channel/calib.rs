//! Calibration at start-up: one channel that was not calibrated yet, from the lowest
//! and the highest sample within a window.

use crate::bus::storage_state::{mark_holding_dirty, StorageView};
use crate::bus::writes::{current_storage, holding_marked, publish_storage, storage_clone, with_storage};
use crate::channel::ai::{calibration, read_sensor_calib};
use crate::config::{ai_calib, regs};
use crate::device::{posted, request_persist_holding, DeviceCmd};
use crate::gateway::{Gateway, GatewayView};
use vstd::prelude::*;

verus! {

/// Channels with calibration registers.
pub const SENSOR_CHANNELS: usize = 8;

/// The calibration task, which runs once.
pub struct CalibTask {
    pub completed: bool,
}

/// Notes that the calibration is over.
pub fn mark_task_completed(task: &mut CalibTask)
    ensures
        final(task).completed,
{
    task.completed = true;
}

/// Whether samples are still taken at `now_ms` where they were begun at `start_ms`.
pub fn sampling_goes_on(start_ms: u64, now_ms: u64) -> (r: bool)
    ensures
        r == ((now_ms - start_ms) % 0x1_0000_0000_0000_0000 < ai_calib::CALIB_WINDOW_MS),
{
    now_ms.wrapping_sub(start_ms) < ai_calib::CALIB_WINDOW_MS
}

/// Whether a channel was not calibrated yet.
pub open spec fn uncalibrated(g: GatewayView, ch: int) -> bool {
    calibration(g, regs::HOLD_SENSOR_MIN_BASE, ch) == 0 && calibration(g, regs::HOLD_SENSOR_MAX_BASE, ch) == 0
}

/// The first channel from `ch` on that was not calibrated yet.
pub open spec fn next_uncalibrated(g: GatewayView, ch: int) -> Option<int>
    decreases SENSOR_CHANNELS - ch,
{
    if ch >= SENSOR_CHANNELS {
        None
    } else if uncalibrated(g, ch) {
        Some(ch)
    } else {
        next_uncalibrated(g, ch + 1)
    }
}

/// The channel to calibrate.
pub fn channel_to_calibrate(gw: &Gateway) -> (r: Option<usize>)
    ensures
        r is Some <==> next_uncalibrated(gw@, 0) is Some,
        r is Some ==> r->0 == next_uncalibrated(gw@, 0)->0 && r->0 < SENSOR_CHANNELS,
{
    let mut ch: usize = 0;
    while ch < SENSOR_CHANNELS
        invariant
            ch <= SENSOR_CHANNELS,
            next_uncalibrated(gw@, 0) == next_uncalibrated(gw@, ch as int),
        decreases SENSOR_CHANNELS - ch,
    {
        let low: u16 = read_sensor_calib(gw, true, ch);
        let high: u16 = read_sensor_calib(gw, false, ch);
        if low == 0 && high == 0 {
            return Some(ch);
        }
        ch += 1;
    }
    None
}

/// The lowest of the first `n` samples; the highest number where there is none.
pub open spec fn lowest(samples: Seq<u16>, n: nat) -> u16
    decreases n,
{
    if n == 0 {
        u16::MAX
    } else {
        let m = lowest(samples, (n - 1) as nat);
        if samples[n - 1] < m {
            samples[n - 1]
        } else {
            m
        }
    }
}

/// The highest of the first `n` samples; zero where there is none.
pub open spec fn highest(samples: Seq<u16>, n: nat) -> u16
    decreases n,
{
    if n == 0 {
        0
    } else {
        let m = highest(samples, (n - 1) as nat);
        if samples[n - 1] > m {
            samples[n - 1]
        } else {
            m
        }
    }
}

/// Whether a value is near what the sensor should give.
pub open spec fn plausible(v: u16, expected: u16) -> bool {
    expected - 100 < v < expected + 200
}

/// The register buffer with the plausible ends of a channel.
pub open spec fn with_calibration(holding: Seq<u16>, ch: int, min: u16, max: u16) -> Seq<u16> {
    let h = if plausible(min, ai_calib::SENSOR_MIN) {
        holding.update(regs::HOLD_SENSOR_MIN_BASE - regs::HOLD_CFG_BASE + ch, min)
    } else {
        holding
    };
    if plausible(max, ai_calib::SENSOR_MAX) {
        h.update(regs::HOLD_SENSOR_MAX_BASE - regs::HOLD_CFG_BASE + ch, max)
    } else {
        h
    }
}

/// The state after a channel was calibrated from its lowest and highest sample. Where
/// neither is plausible nothing changes.
pub open spec fn calibrated(g: GatewayView, ch: int, min: u16, max: u16) -> GatewayView {
    if plausible(min, ai_calib::SENSOR_MIN) || plausible(max, ai_calib::SENSOR_MAX) {
        let s = current_storage(g);
        posted(
            holding_marked(
                with_storage(g, StorageView { holding_buf: with_calibration(s.holding_buf, ch, min, max), ..s }),
            ),
            DeviceCmd::PersistHolding,
        )
    } else {
        g
    }
}

/// Calibrates a channel from its samples.
pub fn run_auto_calibration(task: &mut CalibTask, gw: &mut Gateway, ch: usize, samples: &[u16])
    requires
        ch < SENSOR_CHANNELS,
    ensures
        final(task).completed,
        final(gw)@ == calibrated(
            old(gw)@,
            ch as int,
            lowest(samples@, samples@.len()),
            highest(samples@, samples@.len()),
        ),
{
    let mut raw_min: u16 = u16::MAX;
    let mut raw_max: u16 = 0;
    let mut i: usize = 0;
    while i < samples.len()
        invariant
            i <= samples@.len(),
            raw_min == lowest(samples@, i as nat),
            raw_max == highest(samples@, i as nat),
        decreases samples@.len() - i,
    {
        let raw: u16 = samples[i];
        if raw < raw_min {
            raw_min = raw;
        }
        if raw > raw_max {
            raw_max = raw;
        }
        i += 1;
    }
    mark_task_completed(task);
    let min_ok: bool = ai_calib::SENSOR_MIN - 100 < raw_min && raw_min < ai_calib::SENSOR_MIN + 200;
    let max_ok: bool = ai_calib::SENSOR_MAX - 100 < raw_max && raw_max < ai_calib::SENSOR_MAX + 200;
    if !min_ok && !max_ok {
        return;
    }
    let mut snap = storage_clone(gw);
    if min_ok {
        snap.holding_buf[(regs::HOLD_SENSOR_MIN_BASE - regs::HOLD_CFG_BASE) as usize + ch] = raw_min;
    }
    if max_ok {
        snap.holding_buf[(regs::HOLD_SENSOR_MAX_BASE - regs::HOLD_CFG_BASE) as usize + ch] = raw_max;
    }
    assert(snap@.holding_buf =~= with_calibration(
        current_storage(old(gw)@).holding_buf,
        ch as int,
        raw_min,
        raw_max,
    ));
    publish_storage(gw, snap);
    mark_holding_dirty(&mut gw.storage);
    request_persist_holding(gw);
}

// ---- Laws ----

proof fn lemma_next_uncalibrated(g: GatewayView, ch: int)
    requires
        0 <= ch,
    ensures
        next_uncalibrated(g, ch) matches Some(k) ==> ch <= k < SENSOR_CHANNELS && uncalibrated(g, k) && forall|j: int|
            ch <= j < k ==> !#[trigger] uncalibrated(g, j),
        next_uncalibrated(g, ch) is None ==> forall|j: int|
            ch <= j < SENSOR_CHANNELS ==> !#[trigger] uncalibrated(g, j),
    decreases SENSOR_CHANNELS - ch,
{
    if ch < SENSOR_CHANNELS && !uncalibrated(g, ch) {
        lemma_next_uncalibrated(g, ch + 1);
    }
}

/// The channel to calibrate is the first that was not calibrated yet; there is none
/// exactly where all were.
pub proof fn law_first_uncalibrated(g: GatewayView)
    ensures
        next_uncalibrated(g, 0) matches Some(k) ==> 0 <= k < SENSOR_CHANNELS && uncalibrated(g, k) && forall|j: int|
            0 <= j < k ==> !#[trigger] uncalibrated(g, j),
        next_uncalibrated(g, 0) is None ==> forall|j: int|
            0 <= j < SENSOR_CHANNELS ==> !#[trigger] uncalibrated(g, j),
{
    lemma_next_uncalibrated(g, 0);
}

/// A calibration with at least one plausible end is done with: the channel is not
/// chosen again.
pub proof fn law_calibrated_channel_is_done(g: GatewayView, ch: int, min: u16, max: u16)
    requires
        0 <= ch < SENSOR_CHANNELS,
        current_storage(g).holding_buf.len() == 2048,
        plausible(min, ai_calib::SENSOR_MIN) || plausible(max, ai_calib::SENSOR_MAX),
    ensures
        !uncalibrated(calibrated(g, ch, min, max), ch),
{
}

} // verus!

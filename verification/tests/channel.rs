//! Analogue inputs and outputs.

use iot_gateway::bus::event_bus::{recv_event, IoEvent};
use iot_gateway::channel::ai::{map_range, start_sample_task, tick_ai_sample};
use iot_gateway::channel::ao::{start_output_task, tick_ao_output};
use iot_gateway::channel::calib::{channel_to_calibrate, run_auto_calibration, sampling_goes_on, CalibTask};
use iot_gateway::device::DeviceCmd;
use iot_gateway::gateway::Gateway;

#[test]
fn test_map_range_basic() {
    assert_eq!(map_range(3016, 3016, 605, 4095, 0), 4095);
    assert_eq!(map_range(605, 3016, 605, 4095, 0), 0);
    let mid_in = (605 + 3016) / 2;
    let mid_out = map_range(mid_in, 3016, 605, 4095, 0);
    assert!(mid_out > 1900 && mid_out < 2100);
}

#[test]
fn test_map_range_clamp() {
    assert_eq!(map_range(4000, 3016, 605, 4095, 0), 4095);
    assert_eq!(map_range(0, 3016, 605, 4095, 0), 0);
}

#[test]
fn test_map_range_div_zero() {
    assert_eq!(map_range(100, 50, 50, 4095, 0), 4095);
    assert_eq!(map_range(100, 50, 50, 0, 4095), 0);
}

#[test]
fn test_map_range_inverted_output() {
    assert_eq!(map_range(3016, 3016, 605, 4095, 0), 4095);
    assert_eq!(map_range(605, 3016, 605, 4095, 0), 0);
}

#[test]
fn samples_are_averaged() {
    let mut gw = Gateway::new();
    let mut sampler = start_sample_task();
    tick_ai_sample(&mut sampler, &mut gw, &[1000, 0, 0, 0, 0, 4095]);
    assert_eq!(gw.io.ai.get_raw(0), 1000);
    assert_eq!(gw.io.ai.get_raw(5), 4095);
    assert_eq!(gw.io.ai.get_scaled(5), 20000);
    assert_eq!(gw.io.ai.get_scaled(1), 4000);
    tick_ai_sample(&mut sampler, &mut gw, &[2000, 0, 0, 0, 0, 4095]);
    assert_eq!(gw.io.ai.get_raw(0), 1500);
    for _ in 0..8 {
        tick_ai_sample(&mut sampler, &mut gw, &[800, 0, 0, 0, 0, 0]);
    }
    assert_eq!(gw.io.ai.get_raw(0), 800);
    assert_eq!(recv_event(&mut gw.events), Some(IoEvent::AiSampled));
}

#[test]
fn a_calibrated_channel_is_scaled_to_12_bits() {
    let mut gw = Gateway::new();
    let mut task = CalibTask { completed: false };
    assert_eq!(channel_to_calibrate(&gw), Some(0));
    run_auto_calibration(&mut task, &mut gw, 0, &[3016, 700, 605, 2000]);
    assert!(task.completed);
    assert!(gw.storage.holding_dirty);
    assert_eq!(gw.mailbox.dequeue(), Some(DeviceCmd::PersistHolding));
    assert_eq!(channel_to_calibrate(&gw), Some(1));
    let mut sampler = start_sample_task();
    tick_ai_sample(&mut sampler, &mut gw, &[3016, 0, 0, 0, 0, 0]);
    assert_eq!(gw.io.ai.get_scaled(0), 4095);
}

#[test]
fn samples_are_taken_for_eight_seconds() {
    assert!(sampling_goes_on(500, 500));
    assert!(sampling_goes_on(500, 8499));
    assert!(!sampling_goes_on(500, 8500));
    assert!(sampling_goes_on(u64::MAX, 7998));
    assert!(!sampling_goes_on(u64::MAX, 7999));
}

#[test]
fn implausible_samples_calibrate_nothing() {
    let mut gw = Gateway::new();
    let mut task = CalibTask { completed: false };
    run_auto_calibration(&mut task, &mut gw, 0, &[100, 4095]);
    run_auto_calibration(&mut task, &mut gw, 0, &[]);
    run_auto_calibration(&mut task, &mut gw, 0, &[505, 3216]);
    assert!(task.completed);
    assert!(!gw.storage.holding_dirty);
    assert_eq!(channel_to_calibrate(&gw), Some(0));
    run_auto_calibration(&mut task, &mut gw, 0, &[506, 3216]);
    assert_eq!(channel_to_calibrate(&gw), Some(1));
}

#[test]
fn changed_outputs_are_driven() {
    let mut gw = Gateway::new();
    let mut output = start_output_task();
    gw.io.ao.set_scaled(0, 10000);
    gw.io.ao.set_scaled(1, 5000);
    let all = tick_ao_output(&mut output, &mut gw);
    assert_eq!(all.len(), 4);
    assert_eq!((all[0].ch, all[0].duty), (0, 4095));
    assert_eq!((all[1].ch, all[1].duty), (1, 2047));
    assert_eq!(gw.io.ao.get_duty(1), 2047);
    assert!(tick_ao_output(&mut output, &mut gw).is_empty());
    gw.io.ao.set_scaled(3, 1);
    assert!(tick_ao_output(&mut output, &mut gw).is_empty());
    gw.io.ao.set_scaled(3, 3);
    let one = tick_ao_output(&mut output, &mut gw);
    assert_eq!((one.len(), one[0].ch, one[0].duty), (1, 3, 1));
}

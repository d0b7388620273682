//! The control-word executor.

use iot_gateway::bus::backends::{write_hold_reg, write_hold_regs};
use iot_gateway::control_logic::{
    analog_destination_is_valid, analog_result_word, bit_words, command_for_logic, feedback_from_table, init, parse_table,
    tick, transient_mask, AnalogChannel, ControlSpec, IoLogic, LogicTable, CONFIG_BASE, HOLDING_BASE,
};
use iot_gateway::gateway::Gateway;

fn logic(logic_id: u16, control_addr: u16, feedback_addr: u16, q_bits: u64) -> IoLogic {
    IoLogic {
        logic_id,
        controllable: true,
        control_addr,
        feedback_addr,
        q_points: heapless::Vec::from_slice(&[3, 6]).unwrap(),
        i_points: heapless::Vec::new(),
        delay_ms: 0,
        pulse_ms: 0,
        controls: vec![ControlSpec { value: 7, feedback: 9, q_bits, i_bits: 0 }],
    }
}

fn analog_words(attribute: u8, channel: u16, destination: u16) -> Vec<u16> {
    let mut words = vec![0u16; 256];
    let base = (CONFIG_BASE - HOLDING_BASE) as usize;
    words[base] = 1;
    words[base + 1] = 3;
    words[base + 2] = 16;
    let start = base + 3;
    words[start] = u16::from(attribute);
    words[start + 4] = 0x1001;
    words[start + 5] = channel;
    words[start + 6] = 0;
    words[start + 7] = 0;
    words[start + 8] = 100;
    words[start + 9] = destination;
    words[start + 10] = 0;
    words[start + 11] = 4;
    words[start + 12] = 20;
    words
}

#[test]
fn protocol_bit_words_are_decoded_little_bit_big_word() {
    assert_eq!(bit_words(&[0x0001, 0x0000, 0x8000], 0, 3), 0x8000_0000_0001);
}

#[test]
fn empty_table_is_safe() {
    assert!(parse_table(&[]).entries.is_empty());
}

#[test]
fn control_bits_use_physical_point_numbers() {
    let logic = logic(0, 17, 18, (1u64 << 2) | (1u64 << 5));
    let command = command_for_logic(&logic, 17, 7).unwrap();
    assert_eq!(command.q_scope, (1u64 << 2) | (1u64 << 5));
    assert_eq!(command.q_mask, (1u64 << 2) | (1u64 << 5));
}

#[test]
fn duplicate_control_and_feedback_addresses_do_not_hide_later_logic() {
    let first = logic(0, 17, 18, 1u64 << 2);
    let second = logic(1, 17, 18, 1u64 << 5);
    let table = LogicTable {
        entries: vec![first, second],
        analog_channels: Vec::new(),
    };
    assert_eq!(
        table
            .entries
            .iter()
            .filter_map(|logic| command_for_logic(logic, 17, 7))
            .count(),
        2
    );
    assert_eq!(feedback_from_table(&table, 18, 0, 1u64 << 5), Some(9));
}

#[test]
fn parses_legacy_io_record_and_maps_non_contiguous_points() {
    let mut words = vec![0u16; 256];
    let base = (CONFIG_BASE - HOLDING_BASE) as usize;
    words[base] = 1;
    words[base + 1] = 21;
    words[base + 2] = 100;
    let start = base + 21;
    words[start] = 1;
    words[start + 4] = 0x0402;
    words[start + 5] = 0;
    words[start + 6] = 3;
    words[start + 7] = 0;
    words[start + 8] = 6;
    words[start + 9] = 0x0401;
    words[start + 10] = 0;
    words[start + 11] = 1;
    words[start + 12] = 0x0202;
    words[start + 13] = 17;
    words[start + 14] = 18;
    words[start + 15] = 0x1402;
    words[start + 16] = 0x0101;
    words[start + 17] = 0x0202;
    words[start + 18] = 0x0303;
    words[start + 19] = 0x0404;
    words[start + 20] = 0x0505;
    words[start + 21] = 0x0606;
    words[start + 22] = 0x0707;
    words[start + 23] = 0x0808;
    words[start + 24] = 0x0909;
    words[start + 25] = 0x0A0A;
    words[start + 26] = 0;
    words[start + 27] = 0;
    let table = parse_table(&words);
    assert_eq!(table.entries.len(), 1);
    assert_eq!(table.entries[0].control_addr, 17);
    assert_eq!(table.entries[0].feedback_addr, 18);
    assert_eq!(table.entries[0].q_points.as_slice(), &[3, 6]);
}

#[test]
fn truncated_record_does_not_read_into_following_storage() {
    let mut words = vec![0u16; 256];
    let base = (CONFIG_BASE - HOLDING_BASE) as usize;
    words[base] = 1;
    words[base + 1] = 21;
    words[base + 2] = 30;
    let start = base + 21;
    words[start] = 1;
    words[start + 4] = 0x0401;
    assert!(parse_table(&words).entries.is_empty());
}

#[test]
fn parses_legacy_analog_channel_and_odd_channel_uses_20ma_reference() {
    let table = parse_table(&analog_words(3, 1, 4001));
    assert_eq!(table.analog_channels.len(), 1);
    let channel = table.analog_channels[0];
    assert_eq!(channel.source, 0);
    assert_eq!(channel.reference, 20);
    assert_eq!(channel.destination, 4001);
}

#[test]
fn even_channel_uses_10v_reference_and_maps_to_big_endian_f32_words() {
    let channel = AnalogChannel {
        source: 0,
        destination: 2,
        minimum: 0,
        maximum: 100,
        unit_minimum: 0,
        unit_maximum: 10,
        reference: 10,
    };
    let (encoded, count) = channel.encode(2048);
    assert_eq!(count, 2);
    let value = f32::from_bits((u32::from(encoded[0]) << 16) | u32::from(encoded[1]));
    assert!((value - 50.01).abs() < 0.02);
}

#[test]
fn invalid_or_absent_range_publishes_raw_value_in_one_word() {
    let channel = AnalogChannel {
        source: 0,
        destination: 127,
        minimum: 0,
        maximum: 0,
        unit_minimum: 0,
        unit_maximum: 20,
        reference: 20,
    };
    assert_eq!(channel.encode(3065), ([3065, 0], 1));
    assert!(analog_destination_is_valid(channel));
}

#[test]
fn two_word_float_cannot_cross_monitor_and_user_result_areas() {
    let channel = AnalogChannel {
        source: 0,
        destination: 127,
        minimum: 0,
        maximum: 100,
        unit_minimum: 4,
        unit_maximum: 20,
        reference: 20,
    };
    assert!(!analog_destination_is_valid(channel));
}

const RECORD: [u16; 27] = [
    1, 3, 27, // one record, where it starts and where it ends
    1, 0, 0, 0, // an IO record without texts
    0x0402, 0, 3, 0, 6, // outputs 3 and 6
    0x0401, 0, 1, // input 1
    0x0202, 17, 18, // control and feedback word
    0x0C01, 7, 9, 0, 0x0024, 0, 0, // value 7 switches both outputs on
    0, 2, // at once, for two seconds
];

fn with_record() -> Gateway {
    let mut gw = Gateway::new();
    init(&mut gw.control, &gw.storage);
    assert!(write_hold_regs(&mut gw, 2300, &RECORD));
    gw
}

fn run(gw: &mut Gateway, now: u64) {
    tick(&mut gw.control, &gw.storage, &mut gw.io, &mut gw.do_notify, now);
}

#[test]
fn a_control_word_drives_a_pulse() {
    let mut gw = with_record();
    assert!(write_hold_reg(&mut gw, 17, 7));
    gw.do_notify = false;
    run(&mut gw, 1000);
    assert_eq!(gw.io.do_.load_bits(), 0x24);
    assert!(gw.do_notify);
    assert_eq!(transient_mask(&gw.control), 0x24);
    run(&mut gw, 2999);
    assert_eq!(gw.io.do_.load_bits(), 0x24);
    run(&mut gw, 3000);
    assert_eq!(gw.io.do_.load_bits(), 0);
    assert_eq!(transient_mask(&gw.control), 0);
}

#[test]
fn other_words_drive_nothing() {
    let mut gw = with_record();
    assert!(write_hold_reg(&mut gw, 17, 8));
    assert!(write_hold_reg(&mut gw, 16, 7));
    gw.io.do_.store_bits(0x100);
    run(&mut gw, 1000);
    assert_eq!(gw.io.do_.load_bits(), 0x100);
}

#[test]
fn analogue_values_are_published() {
    let mut gw = Gateway::new();
    let words = analog_words(3, 1, 4001);
    let from = (CONFIG_BASE - HOLDING_BASE) as usize;
    assert!(write_hold_regs(&mut gw, CONFIG_BASE, &words[from..from + 16]));
    gw.io.ai.set_scaled(0, 4095);
    run(&mut gw, 1000);
    let high = analog_result_word(&gw.control, 4001).unwrap();
    let low = analog_result_word(&gw.control, 4002).unwrap();
    assert_eq!(f32::from_bits((u32::from(high) << 16) | u32::from(low)), 100.0);
}

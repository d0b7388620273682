//! The BLE link: frames in and out, text commands, connections and ticks.

use iot_gateway::ble_at::android::handle_ble_android_read_command;
use iot_gateway::ble_at::binary::{
    finish_modbus, try_feed_binary_protocol, try_handle_binary_protocol, FrameOutcome,
};
use iot_gateway::ble_at::frame::build_frame;
use iot_gateway::ble_at::link::{
    binary_tx_drops, feed_data, has_client, notify_ble_name_changed, notify_failed, on_adv_started, on_connect,
    on_disconnect, on_registered, on_service_started, on_table_created, send_ble_frame, send_di_status_report,
    take_response, try_send_notify, BleLink,
};
use iot_gateway::ble_at::logic_handlers::{
    dispatch_logic_cmd, finish_delete, finish_load, finish_store, nvs_key_for, sub_name, LogicOutcome,
};
use iot_gateway::ble_at::ota_handlers::OtaInfo;
use iot_gateway::ble_at::tick::{finish_tick, on_name_set, on_write, process_tick, update_gap_device_name};
use iot_gateway::bus::backends::{read_hold_reg, write_hold_reg};
use iot_gateway::config::regs;
use iot_gateway::gateway::Gateway;
use iot_gateway::modbus::shared::modbus_crc16;

const MAC: [u8; 6] = [1, 2, 3, 4, 5, 6];
const OTA: OtaInfo = OtaInfo { status: 0, done_pending_reboot: false, written: 0, total: 0, chunk_max: 128 };

fn connected() -> (BleLink, Gateway) {
    let mut link = BleLink::new();
    assert!(on_registered(&mut link, true, 3));
    assert_eq!(on_table_created(&mut link, true, &[10, 11, 12, 13]), Some(10));
    assert!(on_service_started(&mut link, true));
    on_connect(&mut link, 3, 7);
    (link, Gateway::new())
}

fn emptied(link: &mut BleLink) -> Vec<u8> {
    let all = link.tx.to_vec();
    link.tx.clear();
    all
}

#[test]
fn connecting_queues_a_heartbeat() {
    let (mut link, _gw) = connected();
    assert!(has_client(&link));
    assert_eq!(emptied(&mut link), build_frame(0, 0, &[1, 0x11, 0, 0]).to_vec());
    assert!(link.pending_notify);
    on_connect(&mut link, 3, 8);
    assert_eq!(emptied(&mut link), build_frame(0, 0, &[1, 0x11, 0, 1]).to_vec());
}

#[test]
fn failed_events_change_nothing() {
    let mut link = BleLink::new();
    assert!(!on_registered(&mut link, false, 3));
    assert_eq!(link.gatts_if, 0xFF);
    assert_eq!(on_table_created(&mut link, false, &[1, 2, 3, 4]), None);
    assert_eq!(on_table_created(&mut link, true, &[]), None);
    assert_eq!(link.handles, [0; 4]);
    assert!(!on_service_started(&mut link, false));
    assert!(!link.svc_started);
}

#[test]
fn a_client_that_leaves_leaves_nothing() {
    let (mut link, mut gw) = connected();
    feed_data(&mut link, b"AT+VER");
    send_ble_frame(&mut link, &mut gw, 1, 2, &[1, 2, 3], 0);
    on_disconnect(&mut link);
    assert!(!has_client(&link));
    assert!(link.tx.is_empty());
    assert!(link.line.is_empty());
    assert!(!link.notify_enabled);
}

#[test]
fn a_heartbeat_is_answered() {
    let (mut link, mut gw) = connected();
    emptied(&mut link);
    let frame = build_frame(0x1234, 0x5678, &[9, 0x11, 0, 0]);
    let out = try_handle_binary_protocol(&mut link, &mut gw, &frame, &MAC, 0);
    assert!(matches!(out, FrameOutcome::Done));
    assert_eq!(emptied(&mut link), build_frame(0x1234, 0x5678, &[9, 0x11, 9, 1, 1, 2, 3, 4, 5, 6]).to_vec());
    assert_eq!(link.beats, 1);
}

#[test]
fn a_frame_in_pieces_is_put_together() {
    let (mut link, mut gw) = connected();
    emptied(&mut link);
    let frame = build_frame(1, 0, &[1, 0x11, 0, 0]);
    for b in frame[..frame.len() - 1].iter() {
        let out = try_feed_binary_protocol(&mut link, &mut gw, &[*b], &MAC, 0);
        assert!(matches!(out, FrameOutcome::Done));
        assert!(link.tx.is_empty());
    }
    let out = try_feed_binary_protocol(&mut link, &mut gw, &frame[frame.len() - 1..], &MAC, 0);
    assert!(matches!(out, FrameOutcome::Done));
    assert!(!link.tx.is_empty());
    assert!(link.rx.is_empty());
}

#[test]
fn damaged_frames_are_dropped() {
    let (mut link, mut gw) = connected();
    emptied(&mut link);
    let mut frame = build_frame(1, 0, &[1, 0x11, 0, 0]);
    frame[9] ^= 1;
    let out = try_feed_binary_protocol(&mut link, &mut gw, &frame, &MAC, 0);
    assert!(matches!(out, FrameOutcome::Done));
    assert!(link.tx.is_empty());
    let out = try_feed_binary_protocol(&mut link, &mut gw, &[0, 0, 0, 0, 0, 1], &MAC, 0);
    assert!(matches!(out, FrameOutcome::Done));
    assert!(link.rx.is_empty());
    let mut long = build_frame(1, 0, &[1, 0x11, 0, 0]).to_vec();
    long.push(0);
    let out = try_feed_binary_protocol(&mut link, &mut gw, &long, &MAC, 0);
    assert!(matches!(out, FrameOutcome::Done));
    assert!(link.rx.is_empty());
    assert!(link.tx.is_empty());
    let out = try_feed_binary_protocol(&mut link, &mut gw, &[0u8; 600], &MAC, 0);
    assert!(matches!(out, FrameOutcome::Done));
    assert!(link.rx.is_empty());
    assert!(matches!(try_handle_binary_protocol(&mut link, &mut gw, &[0; 9], &MAC, 0), FrameOutcome::Ignored));
}

#[test]
fn text_is_left_to_the_text_channel() {
    let (mut link, mut gw) = connected();
    for text in [&b"AT"[..], &b"A"[..], &b"AT+VERSION\r\n"[..]] {
        let out = try_feed_binary_protocol(&mut link, &mut gw, text, &MAC, 0);
        assert!(matches!(out, FrameOutcome::Ignored));
        assert!(link.rx.is_empty());
    }
}

#[test]
fn the_serial_number_is_read() {
    let (mut link, mut gw) = connected();
    emptied(&mut link);
    let frame = build_frame(5, 6, &[1, 0x03, 0x08, 0x94, 0, 9]);
    try_handle_binary_protocol(&mut link, &mut gw, &frame, &MAC, 0);
    let mut pdu = vec![1, 0x03, 9];
    pdu.extend_from_slice(b"ESP32-001");
    assert_eq!(emptied(&mut link), build_frame(5, 6, &pdu).to_vec());
}

#[test]
fn port_settings_are_packed() {
    let (mut link, mut gw) = connected();
    emptied(&mut link);
    assert!(write_hold_reg(&mut gw, 0x08A6, 0x9801));
    assert!(write_hold_reg(&mut gw, 0x08A7, 5));
    assert!(write_hold_reg(&mut gw, 0x08A8, 3));
    assert!(write_hold_reg(&mut gw, 0x08A9, 500));
    assert!(write_hold_reg(&mut gw, 0x08AA, 50));
    let mode = gw.config.snapshot.read().unwrap().cfg.rs485[0].mode;
    let frame = build_frame(5, 6, &[1, 0x03, 0x08, 0xA6, 0, 5]);
    try_handle_binary_protocol(&mut link, &mut gw, &frame, &MAC, 0);
    let pdu = [1, 0x03, 10, 0x78, mode, 0, 5, 0, 3, 0x01, 0xF4, 0, 50];
    assert_eq!(emptied(&mut link), build_frame(5, 6, &pdu).to_vec());
}

#[test]
fn points_are_read_in_bytes() {
    let (mut link, mut gw) = connected();
    emptied(&mut link);
    gw.io.do_.store_bits(0x0000_0000_0000_A501);
    let frame = build_frame(5, 6, &[1, 0x03, 0x02, 0x00, 0, 12]);
    try_handle_binary_protocol(&mut link, &mut gw, &frame, &MAC, 0);
    assert_eq!(emptied(&mut link), build_frame(5, 6, &[1, 0x03, 2, 0x01, 0x05]).to_vec());
    let frame = build_frame(5, 6, &[1, 0x03, 0x02, 0x00, 0xFF, 0xFF]);
    try_handle_binary_protocol(&mut link, &mut gw, &frame, &MAC, 0);
    let sent = emptied(&mut link);
    assert_eq!(sent.len(), 8 + 3 + 250);
    assert_eq!(sent[8], 250);
}

#[test]
fn the_largest_reply_is_sent_whole() {
    let (mut link, mut gw) = connected();
    emptied(&mut link);
    let frame = build_frame(5, 6, &[1, 0x03, 0x00, 0x10, 0, 125]);
    try_handle_binary_protocol(&mut link, &mut gw, &frame, &MAC, 0);
    let sent = emptied(&mut link);
    assert_eq!(sent.len(), 8 + 253);
    let n = sent.len();
    assert_eq!(u16::from_le_bytes([sent[n - 2], sent[n - 1]]), modbus_crc16(&sent[..n - 2]));
}

#[test]
fn settings_and_text_are_written_and_read() {
    let (mut link, mut gw) = connected();
    emptied(&mut link);
    let frame = build_frame(5, 6, &[1, 0xB7, 0x13, 0x8A, 0, 2, 4, 0x00, 0x41, 0x4E, 0x2D]);
    assert!(matches!(try_handle_binary_protocol(&mut link, &mut gw, &frame, &MAC, 0), FrameOutcome::Done));
    assert_eq!(emptied(&mut link), build_frame(5, 6, &[1, 0xB7]).to_vec());
    assert_eq!(read_hold_reg(&mut gw, 0x138A), Some(0x0041));
    assert_eq!(read_hold_reg(&mut gw, 0x138B), Some(0x4E2D));
    let frame = build_frame(5, 6, &[1, 0xB6, 0x13, 0x8A, 0, 2]);
    try_handle_binary_protocol(&mut link, &mut gw, &frame, &MAC, 0);
    assert_eq!(emptied(&mut link), build_frame(5, 6, &[1, 0xB6, 4, 0x00, 0x41, 0x4E, 0x2D]).to_vec());
    let frame = build_frame(5, 6, &[1, 0xB5, 0, 0, 0, 1, 2, 0x12, 0x34]);
    try_handle_binary_protocol(&mut link, &mut gw, &frame, &MAC, 0);
    assert_eq!(read_hold_reg(&mut gw, regs::DEVICE_TEXT_BASE), Some(0x1234));
}

#[test]
fn writes_with_wrong_lengths_are_ignored() {
    let (mut link, mut gw) = connected();
    emptied(&mut link);
    for pdu in [
        &[1u8, 0xB7, 0x13, 0x8A, 0, 2, 4, 0x00, 0x41][..],
        &[1, 0xB7, 0x13, 0x8A, 0, 3, 4, 0x00, 0x41, 0x4E, 0x2D],
        &[1, 0xB7, 0x13, 0x8A, 0, 2],
        &[1, 0xB7, 0x13],
    ] {
        let frame = build_frame(5, 6, pdu);
        assert!(matches!(try_handle_binary_protocol(&mut link, &mut gw, &frame, &MAC, 0), FrameOutcome::Ignored));
    }
    assert!(link.tx.is_empty());
    assert_eq!(read_hold_reg(&mut gw, 0x138A), Some(0));
}

#[test]
fn the_function_count_is_written_and_read() {
    let (mut link, mut gw) = connected();
    emptied(&mut link);
    let frame = build_frame(5, 6, &[1, 0xB1, 0x00, 0x07]);
    try_handle_binary_protocol(&mut link, &mut gw, &frame, &MAC, 0);
    assert_eq!(emptied(&mut link), build_frame(5, 6, &[1, 0xB1]).to_vec());
    let frame = build_frame(5, 6, &[1, 0xB0]);
    try_handle_binary_protocol(&mut link, &mut gw, &frame, &MAC, 0);
    assert_eq!(emptied(&mut link), build_frame(5, 6, &[1, 0xB0, 0, 7]).to_vec());
}

#[test]
fn the_function_count_is_the_two_bytes_behind_the_function() {
    let (mut link, mut gw) = connected();
    emptied(&mut link);
    for (pdu, count) in [(&[1u8, 0xB1][..], 0xFD2F), (&[1, 0xB1, 9], 0x092F)] {
        let frame = build_frame(5, 6, pdu);
        assert!(matches!(try_handle_binary_protocol(&mut link, &mut gw, &frame, &MAC, 0), FrameOutcome::Done));
        assert_eq!(emptied(&mut link), build_frame(5, 6, &[1, 0xB1]).to_vec());
        assert_eq!(read_hold_reg(&mut gw, regs::FUNC_COUNT), Some(count));
    }
}

#[test]
fn only_reads_are_read_commands() {
    let mut gw = Gateway::new();
    for func in [0x03, 0x04] {
        let rsp = handle_ble_android_read_command(&mut gw, 1, func, 0x0080, 1).unwrap();
        assert_eq!(&rsp[..2], &[1, func]);
    }
    for func in [0x01, 0x06, 0x10, 0x83] {
        assert!(handle_ble_android_read_command(&mut gw, 1, func, 0x0080, 1).is_none());
        assert!(handle_ble_android_read_command(&mut gw, 1, func, 0x0894, 9).is_none());
    }
}

#[test]
fn information_is_given() {
    let (mut link, mut gw) = connected();
    emptied(&mut link);
    let cfg = gw.config.snapshot.read().unwrap().cfg;
    let ask = |link: &mut BleLink, gw: &mut Gateway, func: u8| {
        let frame = build_frame(5, 6, &[1, func]);
        let out = try_handle_binary_protocol(link, gw, &frame, &MAC, 0);
        (matches!(out, FrameOutcome::Done), emptied(link))
    };
    let mut net = vec![0xCE, 0];
    net.extend_from_slice(&cfg.ip);
    net.extend_from_slice(&cfg.mask);
    net.extend_from_slice(&cfg.gateway);
    assert_eq!(ask(&mut link, &mut gw, 0xCE), (true, build_frame(5, 6, &net).to_vec()));
    let mut sn = vec![0xC2, 0];
    sn.extend_from_slice(&cfg.sn[..18]);
    assert_eq!(ask(&mut link, &mut gw, 0xC2), (true, build_frame(5, 6, &sn).to_vec()));
    let firmware = build_frame(5, 6, &[0xCF, 0, 2, 2, 1, 6, 0x15]).to_vec();
    assert_eq!(ask(&mut link, &mut gw, 0xCF), (true, firmware));
    let mac = build_frame(5, 6, &[0xC6, 0, 0, 0, 0, 0, 0, 0]).to_vec();
    assert_eq!(ask(&mut link, &mut gw, 0xC6), (true, mac));
    assert_eq!(ask(&mut link, &mut gw, 0xC0), (false, vec![]));
}

#[test]
fn other_functions_go_to_the_modbus_server() {
    let (mut link, mut gw) = connected();
    emptied(&mut link);
    let frame = build_frame(5, 6, &[1, 0x06, 0x40, 0x00, 0x12, 0x34]);
    let request = match try_handle_binary_protocol(&mut link, &mut gw, &frame, &MAC, 0) {
        FrameOutcome::Modbus(r) => r,
        _ => panic!("not for a server"),
    };
    assert_eq!((request.tx_id, request.proto_id, request.unit, request.func), (5, 6, 1, 0x06));
    assert_eq!(request.data, [0x40, 0x00, 0x12, 0x34]);
    finish_modbus(&mut link, &mut gw, &request, &[0x06, 0x40, 0x00, 0x12, 0x34], 0);
    let mut pdu = vec![1, 0x06, 0x40, 0x00, 0x12, 0x34];
    let crc = modbus_crc16(&pdu);
    pdu.extend_from_slice(&crc.to_le_bytes());
    assert_eq!(emptied(&mut link), build_frame(5, 6, &pdu).to_vec());
}

#[test]
fn stored_settings_read_back() {
    let gw = Gateway::new();
    let blob = match dispatch_logic_cmd(&gw, 0xD0, &[0x10, 7, 8, 9]) {
        LogicOutcome::Store(0x10, blob) => blob,
        _ => panic!("not stored"),
    };
    assert_eq!(&blob[..], &[0x55, 3, 7, 8, 9]);
    assert_eq!(&finish_store(0x10, true)[..], &[0xD0, 0x10, 0]);
    assert_eq!(&finish_store(0x10, false)[..], &[0xD0, 0x10, 0x84]);
    assert!(matches!(dispatch_logic_cmd(&gw, 0xD1, &[0x10]), LogicOutcome::Load(0x10)));
    assert_eq!(&finish_load(0x10, Some(&blob))[..], &[0xD1, 0x10, 7, 8, 9]);
    assert_eq!(&finish_load(0x10, None)[..], &[0xD1, 0x10, 0x84]);
    assert_eq!(&finish_load(0x10, Some(&[0x54, 0]))[..], &[0xD1, 0x10, 0x84]);
    assert_eq!(&finish_load(0x10, Some(&[0x55, 9, 1]))[..], &[0xD1, 0x10, 0x84]);
    assert!(matches!(dispatch_logic_cmd(&gw, 0xD2, &[]), LogicOutcome::Erase));
    assert_eq!(&finish_delete(true)[..], &[0xD2, 0, 0]);
    assert!(matches!(dispatch_logic_cmd(&gw, 0xD0, &[1]), LogicOutcome::Unhandled));
    assert!(matches!(dispatch_logic_cmd(&gw, 0xD1, &[]), LogicOutcome::Unhandled));
    assert!(matches!(dispatch_logic_cmd(&gw, 0xD4, &[]), LogicOutcome::Unhandled));
    match dispatch_logic_cmd(&gw, 0xD0, &[0x25, 1]) {
        LogicOutcome::Reply(r) => assert_eq!(&r[..], &[0xD0, 0x25, 0x84]),
        _ => panic!("accepted"),
    }
    assert!(matches!(dispatch_logic_cmd(&gw, 0xD0, &[0x10; 255]), LogicOutcome::Store(0x10, _)));
    assert!(matches!(dispatch_logic_cmd(&gw, 0xD0, &[0x10; 256]), LogicOutcome::Reply(_)));
}

#[test]
fn sub_commands_have_keys_and_names() {
    assert_eq!(nvs_key_for(0x0A), "cfg_0a");
    assert_eq!(nvs_key_for(0xFF), "cfg_ff");
    assert_eq!(sub_name(0x1B), "COVI+NO2");
    assert_eq!(sub_name(0x25), "Unknown");
}

#[test]
fn the_state_of_the_points_is_given() {
    let (mut link, mut gw) = connected();
    emptied(&mut link);
    gw.io.di.store_bits(0x8001);
    gw.io.do_.store_bits(0x0102);
    let frame = build_frame(5, 6, &[1, 0xD3]);
    try_handle_binary_protocol(&mut link, &mut gw, &frame, &MAC, 0);
    assert_eq!(
        emptied(&mut link),
        build_frame(5, 6, &[0xD3, 0x27, 0x01, 0x80, 0xD3, 0x28, 0x02, 0x01]).to_vec()
    );
    send_di_status_report(&mut link, &mut gw, 0);
    assert_eq!(emptied(&mut link), build_frame(1, 0, &[1, 0x94, 0x01, 0x80]).to_vec());
}

#[test]
fn frames_that_do_not_fit_are_counted() {
    let (mut link, mut gw) = connected();
    emptied(&mut link);
    for _ in 0..4 {
        send_ble_frame(&mut link, &mut gw, 0, 0, &[0; 504], 0);
    }
    assert_eq!(link.tx.len(), 2048);
    assert_eq!(binary_tx_drops(&gw), 0);
    let before = link.tx.to_vec();
    send_ble_frame(&mut link, &mut gw, 0, 0, &[0; 2], 5);
    assert_eq!(binary_tx_drops(&gw), 1);
    assert_eq!(link.tx.to_vec(), before);
}

#[test]
fn a_text_command_is_answered_on_a_tick() {
    let (mut link, mut gw) = connected();
    emptied(&mut link);
    let out = on_write(&mut link, &mut gw, 12, true, b"AT+VERSION\r\nAT", &MAC, 0);
    assert!(out.respond);
    let plan = process_tick(&mut link, &mut gw, &OTA);
    let text = b"OK esp32s3-iot-gateway v2.2.1 (HW: F16)\r\n";
    assert_eq!(plan.notify.unwrap(), build_frame(0, 0, text).to_vec());
    assert!(plan.request.is_none());
    assert_eq!(link.line.as_str(), "AT");
    let to = plan.target.unwrap();
    assert_eq!((to.gatts_if, to.conn_id, to.handle), (3, 7, 12));
}

#[test]
fn a_command_that_needs_storage_waits_for_it() {
    let (mut link, mut gw) = connected();
    emptied(&mut link);
    feed_data(&mut link, b"AT+COMMIT\n");
    let plan = process_tick(&mut link, &mut gw, &OTA);
    assert!(plan.request.is_some());
    assert!(plan.notify.is_none());
    let sent = finish_tick(&mut link, "OK committed\r\n").unwrap();
    assert_eq!(sent, build_frame(0, 0, b"OK committed\r\n").to_vec());
}

#[test]
fn long_answers_are_whole_frames() {
    let (mut link, _gw) = connected();
    emptied(&mut link);
    for n in [248, 249, 250, 251, 504] {
        let long = "x".repeat(n);
        let sent = finish_tick(&mut link, &long).unwrap();
        assert_eq!(sent, build_frame(0, 0, long.as_bytes()).to_vec());
    }
}

#[test]
fn an_answer_that_is_too_long_for_a_frame_is_dropped() {
    let (mut link, mut gw) = connected();
    emptied(&mut link);
    process_tick(&mut link, &mut gw, &OTA);
    assert_eq!(finish_tick(&mut link, &"x".repeat(505)), None);
    assert!(link.tx.is_empty());
}

#[test]
fn heartbeats_come_every_hundred_ticks() {
    let (mut link, mut gw) = connected();
    emptied(&mut link);
    let first = process_tick(&mut link, &mut gw, &OTA);
    assert_eq!(first.notify.unwrap(), build_frame(0, 0, &[1, 0x11, 0, 0]).to_vec());
    for _ in 0..99 {
        assert!(process_tick(&mut link, &mut gw, &OTA).notify.is_none());
    }
    let next = process_tick(&mut link, &mut gw, &OTA);
    assert_eq!(next.notify.unwrap(), build_frame(0, 0, &[1, 0x11, 0, 1]).to_vec());
}

#[test]
fn nothing_is_sent_without_a_client() {
    let mut link = BleLink::new();
    let mut gw = Gateway::new();
    feed_data(&mut link, b"AT\n");
    let plan = process_tick(&mut link, &mut gw, &OTA);
    assert!(plan.target.is_none());
    assert!(plan.notify.is_none());
    assert_eq!(link.line.as_str(), "AT\n");
}

#[test]
fn advertising_is_retried_and_restarted() {
    let mut link = BleLink::new();
    let mut gw = Gateway::new();
    on_service_started(&mut link, true);
    let plan = process_tick(&mut link, &mut gw, &OTA);
    assert!(plan.adv.configure && !plan.adv.stop);
    on_adv_started(&mut link, true);
    for _ in 1..150 {
        let plan = process_tick(&mut link, &mut gw, &OTA);
        assert!(!plan.adv.configure && !plan.adv.stop);
    }
    let plan = process_tick(&mut link, &mut gw, &OTA);
    assert!(plan.adv.stop && plan.adv.configure);
    assert!(!link.adv_active);
}

#[test]
fn a_new_name_is_advertised() {
    let (mut link, mut gw) = connected();
    assert_eq!(update_gap_device_name(&gw), "Mesh");
    notify_ble_name_changed(&mut gw);
    let plan = process_tick(&mut link, &mut gw, &OTA);
    assert_eq!(plan.name.as_deref(), Some("Mesh"));
    on_adv_started(&mut link, true);
    assert!(on_name_set(&mut link));
    assert!(!link.adv_active);
    assert!(process_tick(&mut link, &mut gw, &OTA).name.is_none());
}

#[test]
fn an_empty_name_falls_back() {
    let mut gw = Gateway::new();
    for k in 0..4 {
        assert!(write_hold_reg(&mut gw, 0x08E2 + k, 0));
    }
    assert!(gw.ble_name_pending);
    assert_eq!(update_gap_device_name(&gw), "Mesh");
}

#[test]
fn notifications_are_switched() {
    let (mut link, mut gw) = connected();
    let out = on_write(&mut link, &mut gw, 13, true, &[1, 0], &MAC, 0);
    assert!(out.respond);
    assert!(link.notify_enabled);
    on_write(&mut link, &mut gw, 13, true, &[0, 0], &MAC, 0);
    assert!(!link.notify_enabled);
    assert!(!on_write(&mut link, &mut gw, 99, false, &[1], &MAC, 0).respond);
}

#[test]
fn text_waits_until_it_can_be_sent() {
    let (mut link, _gw) = connected();
    notify_failed(&mut link, "later");
    assert!(try_send_notify(&mut link).is_none());
    link.notify_enabled = true;
    let (to, text) = try_send_notify(&mut link).unwrap();
    assert_eq!(to.conn_id, 7);
    assert_eq!(text, "later");
    assert!(try_send_notify(&mut link).is_none());
    notify_failed(&mut link, &text);
    assert_eq!(take_response(&mut link).as_deref(), Some("later"));
    assert_eq!(take_response(&mut link), None);
}

#[test]
fn bytes_beyond_the_line_buffer_are_lost() {
    let (mut link, _gw) = connected();
    feed_data(&mut link, &[b'x'; 600]);
    assert_eq!(link.line.len(), 512);
    on_disconnect(&mut link);
    feed_data(&mut link, &[0xE9; 600]);
    assert_eq!(link.line.len(), 512);
    assert_eq!(link.line.chars().count(), 256);
}

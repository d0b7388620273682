//! The binary protocol: frames and read commands.

use iot_gateway::ble_at::android::{
    self, baud_to_index, data_response, read_settings, text_response, words_response, ReadSettings,
};
use iot_gateway::ble_at::frame::{binary_frame_total_len, build_frame};
use iot_gateway::ble_at::link::{
    heartbeat_counter, BleLink, ATTR_TABLE_LEN, CHARACTERISTIC_UUID, CHARACTERISTIC_UUID_128, IDX_CHAR_CCCD,
    IDX_CHAR_DECL, IDX_CHAR_VALUE, IDX_SVC, SERVICE_UUID, SERVICE_UUID_128,
};
use iot_gateway::device::system_config::SystemConfig;
use iot_gateway::modbus::shared::modbus_crc16;

#[allow(clippy::too_many_arguments)]
fn build_android_read_response_pdu(
    unit: u8,
    func: u8,
    reg_addr: u16,
    reg_cnt: u16,
    ip: [u8; 4],
    mask: [u8; 4],
    gateway: [u8; 4],
    eth_mac: [u8; 6],
    ble_mac: [u8; 6],
    hw_version: u16,
    fw_version: u16,
    fw_date: u16,
    do_count: u8,
    di_count: u8,
    ai_count: u8,
    rs485_count: u8,
) -> Option<heapless::Vec<u8, 256>> {
    let settings = ReadSettings {
        ip,
        mask,
        gateway,
        eth_mac,
        ble_id: [ble_mac[2], ble_mac[3], ble_mac[4], ble_mac[5]],
        hw_version,
        fw_version,
        fw_date,
        do_count,
        di_count,
        ai_count,
        rs485_count,
    };
    android::build_android_read_response_pdu(unit, func, reg_addr, reg_cnt, &settings)
}

fn build_sn_response(unit: u8, func: u8, cfg: &SystemConfig) -> Option<heapless::Vec<u8, 256>> {
    Some(text_response(unit, func, &cfg.sn_str()))
}

fn build_location_response(unit: u8, func: u8, cfg: &SystemConfig) -> Option<heapless::Vec<u8, 256>> {
    Some(text_response(unit, func, &cfg.name_str()))
}

fn build_adc_response(unit: u8, func: u8, _addr: u16, count: u16, v: [u16; 4]) -> Option<heapless::Vec<u8, 256>> {
    Some(words_response(unit, func, &v[..count.min(4) as usize]))
}

fn build_rs485_value_response(unit: u8, func: u8, _addr: u16, count: u16, v: [u16; 4]) -> Option<heapless::Vec<u8, 256>> {
    Some(words_response(unit, func, &v[..count.min(4) as usize]))
}

fn build_com_input_response(unit: u8, func: u8, _addr: u16, count: u16, p: [u8; 2]) -> Option<heapless::Vec<u8, 256>> {
    Some(data_response(unit, func, &p[..(count as usize + 7) / 8]))
}

fn build_ble_request(tx_id: u16, proto_id: u16, unit: u8, func: u8, data: &[u8]) -> heapless::Vec<u8, 512> {
    let mut pdu = vec![unit, func];
    pdu.extend_from_slice(data);
    build_frame(tx_id, proto_id, &pdu)
}

#[test]
fn test_read_hardware_info_format() {
    let pdu = build_android_read_response_pdu(
        0x01, 0x04, 0x087C, 2,
        [0; 4], [0; 4], [0; 4], [0; 6], [0; 6],
        0, 0, 0x0615, 8, 8, 6, 2,
    ).expect("must handle");
    assert_eq!(pdu[0], 0x01);
    assert_eq!(pdu[1], 0x04);
    assert_eq!(pdu[2], 4);
    assert_eq!(pdu[3], 8);
    assert_eq!(pdu[4], 8);
    assert_eq!(pdu[5], 6);
    assert_eq!(pdu[6], 2);
    assert_eq!(pdu.len(), 7);
}

#[test]
fn test_read_fw_version_format() {
    let pdu = build_android_read_response_pdu(
        0x01, 0x04, 0x087E, 2,
        [0; 4], [0; 4], [0; 4], [0; 6], [0; 6],
        0, 0x0221, 0x0615, 8, 8, 6, 2,
    ).expect("must handle");
    assert_eq!(pdu[0], 0x01);
    assert_eq!(pdu[1], 0x04);
    assert_eq!(pdu[2], 4);
    assert_eq!(pdu[3], 0x02);
    assert_eq!(pdu[4], 0x21);
    assert_eq!(pdu[5], 0x06);
    assert_eq!(pdu[6], 0x15);
    assert_eq!(pdu.len(), 7);
}

#[test]
fn test_read_device_product_format() {
    let pdu = build_android_read_response_pdu(
        0x01, 0x03, 0x08A5, 1,
        [0; 4], [0; 4], [0; 4], [0; 6], [0; 6],
        0x00F3, 0, 0x0615, 8, 8, 6, 2,
    ).expect("must handle");
    assert_eq!(pdu[0], 0x01);
    assert_eq!(pdu[1], 0x03);
    assert_eq!(pdu[2], 2);
    assert_eq!(pdu[3], 0x00);
    assert_eq!(pdu[4], 0xF3);
    assert_eq!(pdu.len(), 5);
}

#[test]
fn test_read_ip_format() {
    let pdu = build_android_read_response_pdu(
        0x01, 0x03, 0x08C7, 12,
        [192, 168, 51, 140], [255, 255, 255, 0], [192, 168, 51, 1],
        [0; 6], [0; 6],
        0, 0, 0x0615, 8, 8, 6, 2,
    ).expect("must handle");
    assert_eq!(pdu[0], 0x01);
    assert_eq!(pdu[1], 0x03);
    assert_eq!(pdu[2], 24);
    assert_eq!(&pdu[3..11], &[0x00,192, 0x00,168, 0x00,51, 0x00,140]);
    assert_eq!(&pdu[11..19], &[0x00,255, 0x00,255, 0x00,255, 0x00,0]);
    assert_eq!(&pdu[19..27], &[0x00,192, 0x00,168, 0x00,51, 0x00,1]);
    assert_eq!(pdu.len(), 27);
}

#[test]
fn test_read_mac_format() {
    let pdu = build_android_read_response_pdu(
        0x01, 0x03, 0x08D7, 6,
        [0; 4], [0; 4], [0; 4],
        [0x80, 0xB5, 0x4E, 0x5B, 0x24, 0xE4],
        [0; 6],
        0, 0, 0x0615, 8, 8, 6, 2,
    ).expect("must handle");
    assert_eq!(pdu[0], 0x01);
    assert_eq!(pdu[1], 0x03);
    assert_eq!(pdu[2], 12);
    assert_eq!(&pdu[3..15], &[0x00,0x80, 0x00,0xB5, 0x00,0x4E, 0x00,0x5B, 0x00,0x24, 0x00,0xE4]);
    assert_eq!(pdu.len(), 15);
}

#[test]
fn test_read_ble_id_format() {
    let pdu = build_android_read_response_pdu(
        0x01, 0x03, 0x08E2, 4,
        [0; 4], [0; 4], [0; 4], [0; 6],
        [0x80, 0xB5, 0x4E, 0x5B, 0x24, 0xE5],
        0, 0, 0x0615, 8, 8, 6, 2,
    ).expect("must handle");
    assert_eq!(pdu[0], 0x01);
    assert_eq!(pdu[1], 0x03);
    assert_eq!(pdu[2], 4);
    assert_eq!(&pdu[3..7], &[0x4E, 0x5B, 0x24, 0xE5]);
    assert_eq!(pdu.len(), 7);
}

#[test]
fn test_unmapped_returns_none() {
    let pdu = build_android_read_response_pdu(
        0x01, 0x03, 0x0880, 5,
        [0; 4], [0; 4], [0; 4], [0; 6], [0; 6],
        0, 0, 0x0615, 8, 8, 6, 2,
    );
    assert!(pdu.is_none());
}

#[test]
fn test_crc16() {
    let frame = [0x01, 0x03, 0x02, 0x00, 0xF3];
    let crc = modbus_crc16(&frame);
    assert_eq!(crc, modbus_crc16(&frame));
}

#[test]
fn test_binary_frame_length_allows_att_fragment_reassembly() {
    let header = [0x12, 0x34, 0x00, 0x00, 0x00, 0xB6];
    assert_eq!(binary_frame_total_len(&header), Some(190));
    assert_eq!(binary_frame_total_len(&header[..5]), None);
    assert_eq!(binary_frame_total_len(&[0, 0, 0, 0, 0, 1]), None);
}

#[test]
fn test_android_parse_ip() {
    let pdu = build_android_read_response_pdu(
        0x01, 0x03, 0x08C7, 12,
        [192, 168, 51, 140], [255, 255, 255, 0], [192, 168, 51, 1],
        [0; 6], [0; 6],
        0, 0, 0x0615, 8, 8, 6, 2,
    ).expect("must handle");

    let data = &pdu[2..];

    let ip_length_expected = 12 * 2;
    assert_eq!(data.len(), 1 + ip_length_expected);

    let data_length = data[0];
    assert_eq!(data_length as usize, ip_length_expected);

    let ip = &data[1..9];
    let mask = &data[9..17];
    let gw = &data[17..25];

    assert_eq!(ip, &[0x00, 192, 0x00, 168, 0x00, 51, 0x00, 140]);
    assert_eq!(mask, &[0x00, 255, 0x00, 255, 0x00, 255, 0x00, 0]);
    assert_eq!(gw, &[0x00, 192, 0x00, 168, 0x00, 51, 0x00, 1]);
}

#[test]
fn test_android_parse_ip_no_truncation() {
    let pdu = build_android_read_response_pdu(
        0x01, 0x03, 0x08C7, 12,
        [0xFF; 4], [0xFF; 4], [0xFF; 4],
        [0xFF; 6], [0xFF; 6],
        0, 0xFFFF, 0xFFFF, 0xFF, 0xFF, 0xFF, 0xFF,
    ).expect("must handle");
    let data = &pdu[2..];
    assert_eq!(data.len(), 25);
    assert_eq!(data[0], 24);
}

#[test]
fn test_android_parse_mac() {
    let pdu = build_android_read_response_pdu(
        0x01, 0x03, 0x08D7, 6,
        [0; 4], [0; 4], [0; 4],
        [0x80, 0xB5, 0x4E, 0x5B, 0x24, 0xE7],
        [0; 6],
        0, 0, 0x0615, 8, 8, 6, 2,
    ).expect("must handle");

    let data = &pdu[2..];
    let length = data[0] as usize;
    let mac_bytes = &data[1..1 + length];

    let mac_buffer_length = 6 * 2;
    assert_eq!(length, mac_buffer_length);
    assert_eq!(mac_bytes.len(), mac_buffer_length);

    assert_eq!(mac_bytes, &[0x00, 0x80, 0x00, 0xB5, 0x00, 0x4E,
                              0x00, 0x5B, 0x00, 0x24, 0x00, 0xE7]);
}

#[test]
fn test_android_parse_max_length_sn_without_truncation() {
    let mut cfg = SystemConfig::defaults();
    cfg.sn = *b"12345678901234567890123456789012";

    let pdu = build_sn_response(0x01, 0x03, &cfg)
        .expect("32-byte SN must fit in one BLE response");
    let data = &pdu[2..];
    let length = data[0] as usize;

    assert_eq!(length, 32);
    assert_eq!(data.len(), 33);
    assert_eq!(&data[1..], &cfg.sn);
}

#[test]
fn test_android_parse_location_length_prefix() {
    let mut cfg = SystemConfig::defaults();
    let mut name = [0u8; 16];
    let s = b"POS-001";
    name[..s.len()].copy_from_slice(s);
    cfg.name = name;
    let pdu = build_location_response(0x01, 0x03, &cfg).expect("must handle");
    let data = &pdu[2..];

    let length = data[0] as usize;
    let loc_bytes = &data[1..1 + length];
    let loc_str = core::str::from_utf8(loc_bytes).unwrap();
    assert_eq!(length, 7);
    assert_eq!(loc_str, "POS-001");
}

#[test]
fn test_android_parse_adc_length_prefix() {
    let pdu = build_adc_response(0x01, 0x04, 0x0080, 4, [0x0123, 0x0456, 0x0789, 0x0ABC])
        .expect("must handle");
    let data = &pdu[2..];

    let length = data[0] as usize;
    assert_eq!(length, 8);

    let v0 = u16::from_be_bytes([data[1], data[2]]);
    let v1 = u16::from_be_bytes([data[3], data[4]]);
    let v2 = u16::from_be_bytes([data[5], data[6]]);
    let v3 = u16::from_be_bytes([data[7], data[8]]);
    assert_eq!((v0, v1, v2, v3), (0x0123, 0x0456, 0x0789, 0x0ABC));
}

#[test]
fn test_android_parse_com_input_length_prefix() {
    let pdu = build_com_input_response(0x01, 0x02, 0x0000, 16, [0xAA, 0x55])
        .expect("must handle");
    let data = &pdu[2..];

    let buffer_length = data[0] as usize;
    assert_eq!(buffer_length, 2);

    let byte0 = data[1];
    let byte1 = data[2];
    let mut bits = [0u8; 16];
    for j in 0..8 {
        if (byte0 & (1 << j)) > 0 { bits[j] = 1; }
        if (byte1 & (1 << j)) > 0 { bits[8 + j] = 1; }
    }
    assert_eq!(bits[0], 0); assert_eq!(bits[1], 1); assert_eq!(bits[2], 0); assert_eq!(bits[3], 1);
    assert_eq!(bits[4], 0); assert_eq!(bits[5], 1); assert_eq!(bits[6], 0); assert_eq!(bits[7], 1);
    assert_eq!(bits[8], 1); assert_eq!(bits[9], 0); assert_eq!(bits[10], 1); assert_eq!(bits[11], 0);
    assert_eq!(bits[12], 1); assert_eq!(bits[13], 0); assert_eq!(bits[14], 1); assert_eq!(bits[15], 0);
}

#[test]
fn test_android_parse_rs485_value_length_prefix() {
    let pdu = build_rs485_value_response(0x01, 0x04, 0x1000, 4, [0x1234, 0x5678, 0x9ABC, 0xDEF0])
        .expect("must handle");
    let data = &pdu[2..];

    let length = data[0] as usize;
    assert_eq!(length, 8);

    let v0 = u16::from_be_bytes([data[1], data[2]]);
    let v1 = u16::from_be_bytes([data[3], data[4]]);
    let v2 = u16::from_be_bytes([data[5], data[6]]);
    let v3 = u16::from_be_bytes([data[7], data[8]]);
    assert_eq!((v0, v1, v2, v3), (0x1234, 0x5678, 0x9ABC, 0xDEF0));
}

#[test]
fn test_android_parse_bluetooth_id_utf8() {
    let settings = read_settings(&SystemConfig::defaults());
    let pdu = android::build_android_read_response_pdu(0x01, 0x03, 0x08E2, 4, &settings).expect("must handle");

    let data = &pdu[2..];
    let length = data[0] as usize;
    let bytes = &data[1..1 + length];

    let mut str_len = 0;
    for &b in bytes {
        if b > 0 { str_len += 1; } else { break; }
    }
    let s = core::str::from_utf8(&bytes[..str_len]).unwrap();
    assert_eq!(s, "Mesh");
}

#[test]
fn test_android_parse_hardware_info() {
    let pdu = build_android_read_response_pdu(
        0x01, 0x04, 0x087C, 2,
        [0; 4], [0; 4], [0; 4], [0; 6], [0; 6],
        0, 0, 0x0615, 8, 8, 6, 2,
    ).expect("must handle");
    let data = &pdu[2..];
    assert_eq!(data[0], 4);
    assert_eq!(data[1], 8);
    assert_eq!(data[2], 8);
    assert_eq!(data[3], 6);
    assert_eq!(data[4], 2);
}

#[test]
fn test_android_parse_device_product() {
    let pdu = build_android_read_response_pdu(
        0x01, 0x03, 0x08A5, 1,
        [0; 4], [0; 4], [0; 4], [0; 6], [0; 6],
        0x00F3, 0, 0x0615, 8, 8, 6, 2,
    ).expect("must handle");
    let data = &pdu[2..];
    let length = data[0] as usize;
    assert_eq!(length, 2);
    let product = u16::from_be_bytes([data[1], data[2]]);
    assert_eq!(product, 0x00F3);
}

#[test]
fn test_ble_protocol_format() {
    let frame = build_frame(0x0000, 0x0000, &[0x01, 0x11, 0x00, 0x00]);
    assert_eq!(frame.len(), 12);
    assert_eq!(u16::from_be_bytes([frame[4], frame[5]]), 4);
}

#[test]
fn test_ble_protocol_modbus_frame() {
    let pdu = [0x01, 0x03, 0x00, 0x00, 0x00, 0x0A];
    let frame = build_frame(0x1234, 0x5678, &pdu);
    assert_eq!(u16::from_be_bytes([frame[4], frame[5]]), 6);
    assert_eq!(&frame[0..2], &[0x12, 0x34]);
    assert_eq!(&frame[2..4], &[0x56, 0x78]);
    assert_eq!(&frame[6..12], &pdu);
    let crc_in_frame = u16::from_le_bytes([frame[frame.len() - 2], frame[frame.len() - 1]]);
    let crc_calc = modbus_crc16(&frame[..frame.len() - 2]);
    assert_eq!(crc_in_frame, crc_calc);
}

#[test]
fn test_ble_crc_validation() {
    let mut frame = build_frame(0x0000, 0x0000, &[0x01, 0x03, 0x00, 0x00, 0x00, 0x0A]);
    let last = frame.len() - 1;
    frame[last] ^= 0xFF;
    let data = &frame[..frame.len() - 2];
    let computed = modbus_crc16(data);
    let received = u16::from_le_bytes([frame[frame.len() - 2], frame[last]]);
    assert_ne!(computed, received);
}

#[test]
fn test_ble_service_uuid_encoding() {
    let canonical = "4fafc201-1fb5-459e-8fcc-c5c9c331914b";
    assert_eq!(SERVICE_UUID, canonical);
    assert_eq!(SERVICE_UUID_128.len(), 16);
    assert_eq!(SERVICE_UUID_128[0], 0x4b);
    assert_eq!(SERVICE_UUID_128[15], 0x4f);
}

#[test]
fn test_baud_to_index_alignment() {
    assert_eq!(baud_to_index(9600), 3);
    assert_eq!(baud_to_index(115200), 7);
    assert_eq!(baud_to_index(460800), 9);
    assert_eq!(baud_to_index(12345), 3);
    let packed = (baud_to_index(115200) & 0xF) << 4;
    assert_eq!((packed >> 4) & 0xF, 7);
}

#[test]
fn test_ble_characteristic_uuid_encoding() {
    let canonical = "beb5483e-36e1-4688-b7f5-ea07361b26a8";
    assert_eq!(CHARACTERISTIC_UUID, canonical);
    assert_eq!(CHARACTERISTIC_UUID_128.len(), 16);
    assert_eq!(CHARACTERISTIC_UUID_128[0], 0xa8);
    assert_eq!(CHARACTERISTIC_UUID_128[15], 0xbe);
}

#[test]
fn test_attribute_table_structure() {
    assert_eq!(ATTR_TABLE_LEN, 4);
    assert_eq!(IDX_SVC, 0);
    assert_eq!(IDX_CHAR_DECL, 1);
    assert_eq!(IDX_CHAR_VALUE, 2);
    assert_eq!(IDX_CHAR_CCCD, 3);
}

#[test]
fn test_heartbeat_counter_increments() {
    let mut link = BleLink::new();
    let a = heartbeat_counter(&mut link);
    let b = heartbeat_counter(&mut link);
    let c = heartbeat_counter(&mut link);
    assert!(b > a);
    assert!(c > b);
}

#[test]
fn test_ble_request_construction_matches_android() {
    let req = build_ble_request(0x1234, 0x5678, 1, 0x03, &[
        0x08, 0x94, 0x00, 0x09,
    ]);
    assert_eq!(req.len(), 14);
    assert_eq!(u16::from_be_bytes([req[0], req[1]]), 0x1234);
    assert_eq!(u16::from_be_bytes([req[2], req[3]]), 0x5678);
    assert_eq!(u16::from_be_bytes([req[4], req[5]]), 6);
    assert_eq!(req[6], 1);
    assert_eq!(req[7], 0x03);
    assert_eq!(&req[8..12], &[0x08, 0x94, 0x00, 0x09]);
    let crc = modbus_crc16(&req[..12]);
    assert_eq!(u16::from_le_bytes([req[12], req[13]]), crc);
}

#[test]
fn test_multiple_register_reads() {
    let cases = [
        (0x0894u16, 9usize, "SN"),
        (0x089D, 8, "Location"),
        (0x08D7, 6, "MAC"),
        (0x08E2, 4, "BT ID"),
        (0x08A5, 1, "HW Ver"),
        (0x08C7, 12, "IP"),
    ];
    for &(addr, count, _name) in &cases {
        let req = build_ble_request(1, 1, 1, 0x03, &{
            let mut v = Vec::new();
            v.push((addr >> 8) as u8);
            v.push(addr as u8);
            v.push((count >> 8) as u8);
            v.push(count as u8);
            v
        });
        let length = u16::from_be_bytes([req[4], req[5]]);
        assert_eq!(length, 6);
    }
}

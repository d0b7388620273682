//! The configuration registers and the stored configuration.

use iot_gateway::config::regs;
use iot_gateway::device::system_config::{parse_ipv4, parse_mac, Rs485Config, SystemConfig, WriteResult, CFG_BLOB_SIZE};

#[test]
fn test_default_config() {
    let cfg = SystemConfig::defaults();
    assert_eq!(cfg.dhcp, false);
    assert_eq!(cfg.ip, [192, 168, 51, 221]);
    assert_eq!(cfg.eth_mac, [0; 6]);
    assert_eq!(cfg.rs485.len(), 3);
}

#[test]
fn test_parse_ipv4() {
    assert_eq!(parse_ipv4("192.168.1.1"), Some([192, 168, 1, 1]));
    assert_eq!(parse_ipv4("0.0.0.0"), Some([0, 0, 0, 0]));
    assert_eq!(parse_ipv4("255.255.255.255"), Some([255, 255, 255, 255]));
    assert_eq!(parse_ipv4(""), None);
    assert_eq!(parse_ipv4("256.0.0.0"), None);
    assert_eq!(parse_ipv4("192.168.1"), None);
}

#[test]
fn test_parse_mac() {
    assert_eq!(
        parse_mac("AA:BB:CC:DD:EE:FF"),
        Some([0xAA, 0xBB, 0xCC, 0xDD, 0xEE, 0xFF])
    );
    assert_eq!(
        parse_mac("00:08:DC:11:22:33"),
        Some([0x00, 0x08, 0xDC, 0x11, 0x22, 0x33])
    );
    assert_eq!(
        parse_mac("aa:bb:cc:dd:ee:ff"),
        Some([0xaa, 0xbb, 0xcc, 0xdd, 0xee, 0xff])
    );
    assert_eq!(parse_mac("invalid"), None);
    assert_eq!(parse_mac("AA:BB:CC"), None);
}

#[test]
fn test_ip_str_format() {
    let cfg = SystemConfig::defaults();
    let s = cfg.ip_str();
    assert!(s.contains("192.168.51.221"));
}

#[test]
fn test_read_reg_unmapped_returns_none() {
    let cfg = SystemConfig::defaults();
    assert_eq!(cfg.read_reg(0xFFFF), None);
}

#[test]
fn test_read_reg_fw_ver() {
    let cfg = SystemConfig::defaults();
    assert!(cfg.read_reg(0x087E).is_some());
}

#[test]
fn test_write_reg_apply_request() {
    let mut cfg = SystemConfig::defaults();
    let result = cfg.write_reg(0xFF01, 0x0000);
    assert_eq!(result, WriteResult::Apply);
}

#[test]
fn test_write_reg_reset_request() {
    let mut cfg = SystemConfig::defaults();
    let result = cfg.write_reg(0xFF02, 0xD5D5);
    assert_eq!(result, WriteResult::Reset);
}

#[test]
fn test_write_reg_dhcp() {
    let mut cfg = SystemConfig::defaults();
    let result = cfg.write_reg(0xFF03, 1);
    assert_eq!(result, WriteResult::Apply);
    let result2 = cfg.write_reg(0xFF03, 0);
    assert_eq!(result2, WriteResult::Apply);
}

#[test]
fn test_str_format_helpers() {
    let cfg = SystemConfig::defaults();
    let sn = cfg.sn_str();
    assert!(sn.len() <= 32);
    let name = cfg.ble_name_str();
    assert!(name.len() <= 16);
}

#[test]
fn test_defaults_ascii_decoded() {
    let cfg = SystemConfig::defaults();
    let ble = cfg.ble_name_str();
    assert_eq!(ble, "Mesh");
    let first = ble.chars().next().unwrap();
    assert!(first == 'M' || first == 'm');
    assert_eq!(cfg.sn_str(), "ESP32-001");
    assert_eq!(cfg.name_str(), "GW-ESP32");
}

#[test]
fn test_write_reg_sn_persist() {
    let mut cfg = SystemConfig::defaults();
    let result = cfg.write_reg(regs::HOLD_SN_BASE, 0x4142);
    assert_eq!(result, WriteResult::Persist);
}

#[test]
fn test_write_reg_place_persist() {
    let mut cfg = SystemConfig::defaults();
    let result = cfg.write_reg(regs::HOLD_PLACE_BASE, 0x2021);
    assert_eq!(result, WriteResult::Persist);
}

#[test]
fn test_ble_name_hold_alias_roundtrip() {
    let mut cfg = SystemConfig::defaults();
    let original_mac = cfg.ble_mac;
    for (offset, word) in [0x4142, 0x4344, 0x4546, 0x4748].into_iter().enumerate() {
        let result = cfg.write_reg(regs::HOLD_BLE_ADDR_BASE + offset as u16, word);
        assert_eq!(result, WriteResult::Persist);
        assert_eq!(
            cfg.read_reg(regs::HOLD_BLE_ADDR_BASE + offset as u16),
            Some(word)
        );
    }
    assert_eq!(&cfg.ble_name, b"ABCDEFGH");
    assert_eq!(cfg.ble_mac, original_mac);
}

#[test]
fn test_ble_name_input_and_hold_windows_are_same_value() {
    let mut cfg = SystemConfig::defaults();
    cfg.ble_name = *b"Mesh001\0";
    for offset in 0..regs::HOLD_BLE_ADDR_COUNT {
        let hold = cfg
            .read_reg(regs::HOLD_BLE_ADDR_BASE + offset)
            .expect("D98..D101 must be readable");
        let input = cfg
            .read_reg(regs::INREG_BLE_ID_BASE + offset)
            .expect("FC=04 BLE ID window must be readable");
        assert_eq!(hold, input);
    }
}

#[test]
fn test_write_reg_rs485_persist() {
    let mut cfg = SystemConfig::defaults();
    let result = cfg.write_reg(regs::HOLD_RS485_BASE, 0x4001);
    assert_eq!(result, WriteResult::Persist);
}

#[test]
fn test_write_reg_hw_ver_persist() {
    let mut cfg = SystemConfig::defaults();
    let result = cfg.write_reg(regs::HOLD_HW_VER, 0x00F3);
    assert_eq!(result, WriteResult::Persist);
    assert_eq!(cfg.hw_version, 0x00F3);
}

#[test]
fn test_write_reg_pc_client_port_falls_back_to_preg() {
    let mut cfg = SystemConfig::defaults();
    let result = cfg.write_reg(regs::HOLD_UNKNOWN_BASE, 0x1234);
    assert_eq!(result, WriteResult::NotFound);
    assert_eq!(cfg.read_reg(regs::HOLD_UNKNOWN_BASE), None);
}

#[test]
fn test_write_reg_tcp_com_ok() {
    let mut cfg = SystemConfig::defaults();
    let result = cfg.write_reg(regs::HOLD_TCP_COM_BASE, 502);
    assert_eq!(result, WriteResult::Persist);
    assert_eq!(cfg.read_reg(regs::HOLD_TCP_COM_BASE), Some(502));
}

#[test]
fn test_write_reg_ip_apply() {
    let mut cfg = SystemConfig::defaults();
    let result = cfg.write_reg(regs::HOLD_IP_BASE, 0xC0A8);
    assert_eq!(result, WriteResult::Apply);
}

#[test]
fn test_user_logic_area_falls_back_to_preg() {
    let mut cfg = SystemConfig::defaults();
    let addr = regs::HOLD_USER_BASE + 4;
    let result = cfg.write_reg(addr, 0xAABB);
    assert_eq!(result, WriteResult::NotFound);
    assert_eq!(cfg.read_reg(addr), None);
}

#[test]
fn test_ble_name_at_metuory_addr_is_persist() {
    let mut cfg = SystemConfig::defaults();
    let original_mac = cfg.ble_mac;
    let result0 = cfg.write_reg(0x08E2, 0x4142);
    let result1 = cfg.write_reg(0x08E3, 0x4344);
    let result2 = cfg.write_reg(0x08E4, 0x4500);
    let result3 = cfg.write_reg(0x08E5, 0x0000);
    assert_eq!(result0, WriteResult::Persist);
    assert_eq!(result1, WriteResult::Persist);
    assert_eq!(result2, WriteResult::Persist);
    assert_eq!(result3, WriteResult::Persist);
    assert_eq!(&cfg.ble_name[0..2], b"AB");
    assert_eq!(&cfg.ble_name[2..4], b"CD");
    assert_eq!(cfg.ble_mac, original_mac);
}

#[test]
fn test_legacy_ble_mac_alias_no_longer_shadows_logic_data() {
    let mut cfg = SystemConfig::defaults();
    let original = cfg.ble_mac;
    let result = cfg.write_reg(0x0FA4, 0xAABB);
    assert_eq!(result, WriteResult::NotFound);
    assert_eq!(cfg.ble_mac, original);
}

#[test]
fn test_ble_name_read_at_metuory_addr() {
    let mut cfg = SystemConfig::defaults();
    cfg.ble_name = *b"Mesh\0\0\0\0";
    cfg.ble_mac = [0xAA, 0xBB, 0xCC, 0xDD, 0xEE, 0xFF];
    let v0 = cfg.read_reg(0x08E2).expect("must be Some");
    let v1 = cfg.read_reg(0x08E3).expect("must be Some");
    assert_eq!(v0, 0x4D65);
    assert_eq!(v1, 0x7368);
}

#[test]
fn test_rs485_persist_three_physical_ports() {
    let mut cfg = SystemConfig::defaults();
    let word1 = 0x9801u16;
    let r0 = cfg.write_reg(0x08A6, word1);
    let r1 = cfg.write_reg(0x08A7, 5);
    let r2 = cfg.write_reg(0x08A8, 3);
    let r3 = cfg.write_reg(0x08A9, 500);
    let r4 = cfg.write_reg(0x08AA, 50);
    for r in [r0, r1, r2, r3, r4] {
        assert_eq!(r, WriteResult::Persist);
    }
    assert_eq!(cfg.rs485[0].baudrate, 115200);
    assert_eq!(cfg.rs485[0].parity, 2);
    assert_eq!(cfg.rs485[0].stop_bits, 1);
    assert_eq!(cfg.rs485[0].data_bits, 8);
    assert_eq!(cfg.rs485[0].slave_addr, 5);
    let r5 = cfg.write_reg(0x08AB, 0xF000);
    assert_eq!(r5, WriteResult::Persist);
    assert_eq!(cfg.rs485[1].baudrate, 921600);
    let before = cfg.rs485[0].clone();
    assert_eq!(cfg.write_reg(0x08B5, 0x9000), WriteResult::NotFound);
    assert_eq!(cfg.rs485[0].baudrate, before.baudrate);
    assert_eq!(cfg.read_reg(0x08B5), None);
}

#[test]
fn test_rs485_write_then_read_consistency() {
    let mut cfg = SystemConfig::defaults();
    cfg.write_reg(0x08A6, 0x9701);
    cfg.write_reg(0x08A7, 42);

    let w1 = cfg.read_reg(0x08A6).expect("Word1 must be Some");
    let w2 = cfg.read_reg(0x08A7).expect("Word2 must be Some");
    assert_eq!(w1, 0x9701);
    assert_eq!(w2, 42);
}

#[test]
fn test_nvs_roundtrip_rs485_and_ble_name() {
    let mut cfg = SystemConfig::defaults();
    cfg.rs485[0] = Rs485Config {
        baudrate: 19200,
        data_bits: 7,
        stop_bits: 2,
        parity: 1,
        slave_addr: 12,
        mode: 2,
        retry_count: 3,
        timeout_ms: 500,
        interval_ms: 50,
    };
    cfg.ble_name = *b"Test1234";
    cfg.eth_mac = [0xDE, 0xAD, 0xBE, 0xEF, 0xCA, 0xFE];
    cfg.ip = [10, 20, 30, 40];
    cfg.tcp_ports = [1502, 1503, 1504, 1505];

    let buf = cfg.encode();
    assert_eq!(buf.len(), CFG_BLOB_SIZE);
    let decoded = SystemConfig::decode(&buf);

    assert_eq!(decoded.rs485[0].baudrate, 19200);
    assert_eq!(decoded.rs485[0].data_bits, 7);
    assert_eq!(decoded.rs485[0].stop_bits, 2);
    assert_eq!(decoded.rs485[0].parity, 1);
    assert_eq!(decoded.rs485[0].slave_addr, 12);
    assert_eq!(decoded.rs485[0].mode, 2);
    assert_eq!(&decoded.ble_name[..8], b"Test1234");
    assert_eq!(decoded.eth_mac, [0xDE, 0xAD, 0xBE, 0xEF, 0xCA, 0xFE]);
    assert_eq!(decoded.ip, [10, 20, 30, 40]);
    assert_eq!(decoded.tcp_ports, [1502, 1503, 1504, 1505]);
    assert_eq!(decoded.ble_mac, cfg.ble_mac);
}

#[test]
fn test_layout_sn_matches_mca() {
    assert_eq!(regs::HOLD_SN_BASE, 0x0894);
    assert_eq!(regs::HOLD_SN_COUNT, 9);
}

#[test]
fn test_layout_place_matches_mca() {
    assert_eq!(regs::HOLD_PLACE_BASE, 0x089D);
    assert_eq!(regs::HOLD_PLACE_COUNT, 8);
}

#[test]
fn test_layout_hw_ver_matches_mca() {
    assert_eq!(regs::HOLD_HW_VER, 0x08A5);
}

#[test]
fn test_layout_rs485_matches_mca() {
    assert_eq!(regs::HOLD_RS485_BASE, 0x08A6);
    assert_eq!(regs::HOLD_RS485_STRIDE, 5);
}

#[test]
fn test_layout_ip_matches_mca() {
    assert_eq!(regs::HOLD_IP_BASE, 0x08C7);
}

#[test]
fn test_layout_mask_matches_mca() {
    assert_eq!(regs::HOLD_MASK_BASE, 0x08CB);
}

#[test]
fn test_layout_gw_matches_mca() {
    assert_eq!(regs::HOLD_GW_BASE, 0x08CF);
}

#[test]
fn test_layout_mac_matches_mca() {
    assert_eq!(regs::HOLD_MAC_BASE, 0x08D7);
}

#[test]
fn test_layout_bt_addr_matches_design() {
    assert_eq!(regs::HOLD_BLE_ADDR_BASE, 2274);
    assert!((regs::HOLD_USER_BASE..=regs::HOLD_CFG_END).contains(&0x0FA4));
}

#[test]
fn test_read_reg_485_err_ro_zero() {
    let cfg = SystemConfig::defaults();
    assert_eq!(cfg.read_reg(regs::HOLD_485_1_COMERR), Some(0));
    assert_eq!(cfg.read_reg(regs::HOLD_485_1_APPERR), Some(0));
    assert_eq!(cfg.read_reg(regs::HOLD_485_2_COMERR), Some(0));
    assert_eq!(cfg.read_reg(regs::HOLD_485_2_APPERR), Some(0));
}

#[test]
fn test_layout_device_text_matches_android() {
    assert_eq!(regs::DEVICE_TEXT_BASE, 0x1388);
    assert_eq!(regs::DEVICE_TEXT_COUNT, 2000);
    assert_eq!(regs::DEVICE_TEXT_END, 6999);
}

#[test]
fn test_inreg_ai_count_matches_hw_version() {
    let expected = iot_gateway::config::hw_version::AI_COUNT;
    assert_eq!(regs::INREG_AI_COUNT, iot_gateway::config::hw_version::AI_COUNT);
    assert!(expected >= 4 && expected <= 8);
}

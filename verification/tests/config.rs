//! The register map and the board constants.

use iot_gateway::config::{hw_f3, hw_f4, hw_version, regs, APP_NAME, BLE_PROCESS_PERIOD_MS, MAIN_LOOP_PERIOD_MS};

#[test]
fn test_mca_register_layout_aligned() {
    assert_eq!(regs::COIL_DO_BASE, 0x0200);
    assert_eq!(regs::COIL_RESTART, 0x0402);
    assert_eq!(regs::COIL_LOGIC_RESTART, 0x0403);
    assert_eq!(regs::DISC_DI_BASE, 0x0000);
    assert_eq!(regs::INREG_AI_BASE, 0x0080);
    assert_eq!(regs::HOLD_CFG_BASE, 0x0880);
    assert_eq!(regs::HOLD_SN_BASE, 2196);
    assert_eq!(regs::HOLD_PLACE_BASE, 2205);
    assert_eq!(regs::HOLD_HW_VER, 2213);
    assert_eq!(regs::HOLD_RS485_BASE, 2214);
    assert_eq!(regs::HOLD_TCP_COM_BASE, 2243);
    assert_eq!(regs::HOLD_IP_BASE, 2247);
    assert_eq!(regs::HOLD_MASK_BASE, 2251);
    assert_eq!(regs::HOLD_GW_BASE, 2255);
    assert_eq!(regs::HOLD_DNS_BASE, 2259);
    assert_eq!(regs::HOLD_MAC_BASE, 2263);
    assert_eq!(regs::HOLD_MASTER_COM, 2269);
    assert_eq!(regs::HOLD_BLE_ADDR_BASE, 2274);
    assert_eq!(regs::HOLD_SENSOR_MIN_BASE, 2280);
    assert_eq!(regs::HOLD_SENSOR_MAX_BASE, 2288);
    assert_eq!(regs::HOLD_DEVICE_CONFIG, 2300);
    assert_eq!(regs::HOLD_USER_BASE, 4000);
}

#[test]
fn test_register_address_invariants() {
    assert!(regs::HOLD_RS485_BASE < regs::HOLD_TCP_COM_BASE);
    assert!(regs::HOLD_TCP_COM_BASE < regs::HOLD_IP_BASE);
    assert!(regs::HOLD_IP_BASE < regs::HOLD_MASK_BASE);
    assert!(regs::HOLD_MASK_BASE < regs::HOLD_GW_BASE);
    assert!(regs::HOLD_GW_BASE < regs::HOLD_DNS_BASE);
    assert!(regs::HOLD_DNS_BASE < regs::HOLD_MAC_BASE);
    assert!(regs::HOLD_MAC_BASE < regs::HOLD_MASTER_COM);
    assert!(regs::HOLD_MASTER_COM < regs::HOLD_BLE_ADDR_BASE);
    assert_eq!(regs::HOLD_PC_DEVICE_BASE, 2196);
    assert_eq!(regs::HOLD_PC_DEVICE_END, 2278);
}

#[test]
fn test_f3_di_count() {
    assert_eq!(hw_f3::DI_COUNT, 16);
    assert_eq!(hw_f3::DO_COUNT, 16);
    assert_eq!(hw_f3::NAME, "F3");
}

#[test]
fn test_f4_di_do_count() {
    assert_eq!(hw_f4::DI_COUNT, 48);
    assert_eq!(hw_f4::DO_COUNT, 48);
    assert_eq!(hw_f4::NAME, "F4");
    assert_eq!(hw_f4::DO_EXT_CHIPS, 3);
    assert_eq!(hw_f4::DO_ADDRS.len(), 3);
}

#[test]
fn test_default_di_do_count() {
    assert_eq!(hw_version::NAME, "F16");
    assert_eq!(hw_version::DI_COUNT, 16);
    assert_eq!(hw_version::DO_COUNT, 16);
}

#[test]
fn test_protocol_area() {
    assert_eq!(regs::PROTO_BASE, 0x4000);
    assert_eq!(regs::PROTO_COUNT, 1500);
    assert_eq!(regs::PROTO_END, 0x4000 + 1500);
}

#[test]
fn test_legacy_text_and_logic_storage_sizes() {
    assert_eq!(regs::DEVICE_TEXT_BASE, 5000);
    assert_eq!(regs::DEVICE_TEXT_END, 6999);
    assert_eq!(regs::DEVICE_TEXT_COUNT, 2000);
    assert_eq!(
        (regs::DEVICE_TEXT_END - regs::DEVICE_TEXT_BASE + 1) as usize,
        2000
    );
    assert_eq!(regs::HOLD_PXX_BASE, 0x0880);
    assert_eq!(regs::HOLD_PXX_END, 0x107F);
    assert_eq!(regs::HOLD_PXX_COUNT, 2048);
    assert_eq!(regs::HOLD_DEVICE_CONFIG, 2300);
}

#[test]
fn test_app_metadata() {
    assert_eq!(APP_NAME, "esp32s3-iot-gateway");
    assert_eq!(MAIN_LOOP_PERIOD_MS, 5);
    assert_eq!(BLE_PROCESS_PERIOD_MS, 10);
    assert_eq!(BLE_PROCESS_PERIOD_MS % MAIN_LOOP_PERIOD_MS, 0);
}

//! Reads and writes of the register map.

use iot_gateway::bus::backends::{
    config_modify_with_result, encode_hold_regs_be, encode_input_regs_be, read_coil, read_disc, read_hold_reg,
    read_input_reg, storage_modify_holding, write_coil, write_coils, write_hold_reg, write_hold_regs,
};
use iot_gateway::config::regs;
use iot_gateway::device::request_commit;
use iot_gateway::error::ringlog::log_error;
use iot_gateway::gateway::Gateway;

#[test]
fn read_coil_out_of_range() {
    let gw = Gateway::new();
    assert!(read_coil(&gw, 0xFFFF).is_none());
}

#[test]
fn legacy_input_register_gaps_return_zero() {
    let mut gw = Gateway::new();
    assert_eq!(read_input_reg(&mut gw, 0x0001), Some(0));
    assert_eq!(read_input_reg(&mut gw, 0x00c8), Some(0));
    assert!(read_input_reg(&mut gw, regs::INREG_LEGACY_END).is_some());
    assert!(read_input_reg(&mut gw, regs::INREG_LEGACY_END + 1).is_some());
    assert_eq!(read_input_reg(&mut gw, regs::HOLD_USER_BASE), Some(0));
    assert_eq!(read_input_reg(&mut gw, regs::HOLD_CFG_END), Some(0));
}

#[test]
fn test_ringlog_data_readable_via_input_reg() {
    let mut gw = Gateway::new();
    let v = read_input_reg(&mut gw, regs::INREG_RINGLOG_BASE);
    assert!(v.is_some());
    let v_oob = read_input_reg(&mut gw, regs::INREG_RINGLOG_BASE + 31);
    assert!(v_oob.is_some());
}

#[test]
fn test_ringlog_does_not_shadow_sn_place_hwver() {
    let mut gw = Gateway::new();
    let sn = read_hold_reg(&mut gw, regs::HOLD_SN_BASE);
    assert!(sn.is_some());
    let place = read_hold_reg(&mut gw, regs::HOLD_PLACE_BASE);
    assert!(place.is_some());
    let hwver = read_hold_reg(&mut gw, regs::HOLD_HW_VER);
    assert!(hwver.is_some());
}

#[test]
fn test_bulk_holding_read_supports_standard_fc03_maximum() {
    let mut gw = Gateway::new();
    let mut encoded = [0u8; 250];
    assert!(encode_hold_regs_be(&mut gw, regs::HOLD_CFG_BASE, 125, &mut encoded));
    assert_eq!(
        u16::from_be_bytes([encoded[0], encoded[1]]),
        read_hold_reg(&mut gw, regs::HOLD_CFG_BASE).unwrap()
    );
    assert_eq!(
        u16::from_be_bytes([encoded[248], encoded[249]]),
        read_hold_reg(&mut gw, regs::HOLD_CFG_BASE + 124).unwrap()
    );
}

#[test]
fn test_monitor_plc_readable_via_fc04() {
    let mut gw = Gateway::new();
    let v = read_input_reg(&mut gw, regs::MONITOR_PLC_BASE);
    assert!(v.is_some());
    let v_end = read_input_reg(&mut gw, regs::MONITOR_PLC_END);
    assert!(v_end.is_some());
    let v_oob = read_input_reg(&mut gw, regs::MONITOR_PLC_END + 1);
    assert!(v_oob.is_none());
}

#[test]
fn test_control_plc_readable_via_fc03() {
    let mut gw = Gateway::new();
    let v = read_hold_reg(&mut gw, regs::CONTROL_PLC_BASE);
    assert!(v.is_some());
    let v_end = read_hold_reg(&mut gw, regs::CONTROL_PLC_END);
    assert!(v_end.is_some());
    let v_oob = read_hold_reg(&mut gw, regs::CONTROL_PLC_END + 1);
    assert!(v_oob.is_none());
}

#[test]
fn test_func_count_via_fc03() {
    let mut gw = Gateway::new();
    let v = read_hold_reg(&mut gw, regs::FUNC_COUNT);
    assert!(v.is_some());
}

#[test]
fn test_pc_device_mmp_full_window_is_readable() {
    let mut gw = Gateway::new();
    for addr in regs::HOLD_PC_DEVICE_BASE..=regs::HOLD_PC_DEVICE_END {
        assert!(read_hold_reg(&mut gw, addr).is_some());
    }
}

#[test]
fn test_pc_fixed_io_and_meta_windows_are_readable() {
    let mut gw = Gateway::new();
    for addr in 0..=regs::LEGACY_COIL_END {
        assert!(read_coil(&gw, addr).is_some());
        assert!(read_disc(&gw, addr).is_some());
    }
    for addr in regs::INREG_AI_BASE..regs::INREG_AI_BASE + regs::LEGACY_AI_WINDOW_COUNT {
        assert!(read_input_reg(&mut gw, addr).is_some());
    }
    for addr in regs::INREG_PC_META_BASE..regs::INREG_PC_META_BASE + 6 {
        assert!(read_input_reg(&mut gw, addr).is_some());
    }
}

#[test]
fn test_legacy_control_monitor_and_coil_boundaries() {
    let mut gw = Gateway::new();
    assert!(read_hold_reg(&mut gw, 0).is_some());
    assert!(read_hold_reg(&mut gw, regs::CONTROL_WORD_COUNT - 1).is_some());
    assert!(read_input_reg(&mut gw, 0).is_some());
    assert!(read_input_reg(&mut gw, regs::MONITOR_WORD_COUNT - 1).is_some());
    assert!(write_hold_reg(&mut gw, regs::CONTROL_WORD_COUNT - 1, 0x1234));
    assert_eq!(read_hold_reg(&mut gw, regs::CONTROL_WORD_COUNT - 1), Some(0x1234));

    let last = regs::LEGACY_COIL_END;
    assert!(write_coil(&mut gw, last, true));
    assert_eq!(read_coil(&gw, last), Some(true));
    assert!(!write_coil(&mut gw, last + 1, true));
    assert!(write_hold_reg(&mut gw, regs::HOLD_PROTECT_WORD, 0x55AA));
    assert_eq!(read_hold_reg(&mut gw, regs::HOLD_PROTECT_WORD), Some(0x55AA));
}

#[test]
fn test_legacy_multi_coil_crosses_physical_and_internal_boundary() {
    let mut gw = Gateway::new();
    let start = regs::COIL_DO_END - 2;
    assert!(write_coils(&mut gw, start, 4, &[0b0000_1101]));
    assert_eq!(read_coil(&gw, start), Some(true));
    assert_eq!(read_coil(&gw, start + 1), Some(false));
    assert_eq!(read_coil(&gw, start + 2), Some(true));
    assert_eq!(read_coil(&gw, start + 3), Some(true));
}

#[test]
fn test_pc_logic_and_text_windows_are_contiguous() {
    let mut gw = Gateway::new();
    for addr in regs::HOLD_DEVICE_CONFIG..=regs::HOLD_CFG_END {
        assert!(read_hold_reg(&mut gw, addr).is_some());
    }
    for addr in regs::DEVICE_TEXT_BASE..=regs::DEVICE_TEXT_END {
        assert!(read_hold_reg(&mut gw, addr).is_some());
    }
}

#[test]
fn test_pc_logic_block_write_is_atomic_and_readable() {
    let mut gw = Gateway::new();
    let values = [0x1122, 0x3344, 0x5566, 0x7788];
    assert!(write_hold_regs(&mut gw, regs::HOLD_DEVICE_CONFIG, &values));
    for (offset, expected) in values.iter().enumerate() {
        assert_eq!(read_hold_reg(&mut gw, regs::HOLD_DEVICE_CONFIG + offset as u16), Some(*expected));
    }
    assert!(gw.storage.holding_dirty);
}

#[test]
fn test_pc_logic_single_write_is_readable_and_persistent() {
    let mut gw = Gateway::new();
    let address = regs::HOLD_DEVICE_CONFIG + 119;
    assert!(write_hold_reg(&mut gw, address, 0xA55A));
    assert_eq!(read_hold_reg(&mut gw, address), Some(0xA55A));
    assert!(gw.storage.holding_dirty);
}

#[test]
fn test_device_text_write_round_trips_at_5000_without_emptying() {
    let mut gw = Gateway::new();
    let address = regs::DEVICE_TEXT_BASE + 2;
    let values = [0x0041, 0x4E2D, 0x6587, 0x0000];
    assert!(write_hold_regs(&mut gw, address, &values));
    for (offset, expected) in values.iter().enumerate() {
        assert_eq!(read_hold_reg(&mut gw, address + offset as u16), Some(*expected));
    }
}

#[test]
fn a_refused_block_changes_nothing() {
    let mut gw = Gateway::new();
    assert!(!write_hold_regs(&mut gw, regs::DEVICE_TEXT_END, &[1, 2]));
    assert_eq!(read_hold_reg(&mut gw, regs::DEVICE_TEXT_END), Some(0));
    assert!(!write_hold_regs(&mut gw, 0x3FFF, &[1]));
    assert!(!write_hold_reg(&mut gw, 0x3FFF, 1));
    assert!(!write_coil(&mut gw, 0xFFFF, true));
}

#[test]
fn a_block_over_the_end_of_the_aliases_changes_nothing() {
    let mut gw = Gateway::new();
    assert!(!write_hold_regs(&mut gw, 40272, &[1, 2]));
    assert_eq!(read_hold_reg(&mut gw, 4223), Some(0));
    assert!(!gw.storage.holding_dirty);
    assert!(write_hold_regs(&mut gw, 40271, &[1, 2]));
    assert_eq!(read_hold_reg(&mut gw, 4223), Some(2));
}

#[test]
fn a_block_that_cannot_ask_changes_nothing() {
    let mut gw = Gateway::new();
    for _ in 0..31 {
        assert!(request_commit(&mut gw));
    }
    let block = [0x1234, 0xC5C5, 0xA5A5, 9];
    assert!(!write_hold_regs(&mut gw, regs::PROTO_COMMIT - 1, &block));
    assert_eq!(gw.mailbox.len(), 31);
    assert_eq!(read_hold_reg(&mut gw, regs::PROTO_COMMIT - 1), Some(0));
    assert_eq!(read_hold_reg(&mut gw, regs::PROTO_STATUS), Some(0));
    assert!(write_hold_regs(&mut gw, regs::PROTO_COMMIT - 1, &block[..2]));
    assert_eq!(gw.mailbox.len(), 32);
    assert_eq!(read_hold_reg(&mut gw, regs::PROTO_STATUS), Some(1));
    assert!(!write_hold_regs(&mut gw, regs::PROTO_COMMIT, &[0xC5C5]));
    assert_eq!(read_hold_reg(&mut gw, regs::PROTO_STATUS), Some(1));
    assert!(write_hold_regs(&mut gw, regs::PROTO_COMMIT, &[0, 0, 5]));
    assert_eq!(read_hold_reg(&mut gw, regs::PROTO_VERSION), Some(5));
}

#[test]
fn requests_that_make_no_sense_leave_the_buffer_alone() {
    let mut gw = Gateway::new();
    let mut out = [0xAAu8; 4];
    assert!(!encode_hold_regs_be(&mut gw, 2176, 3, &mut out));
    assert!(!encode_hold_regs_be(&mut gw, 0xFFFF, 2, &mut out));
    assert!(!encode_input_regs_be(&mut gw, 128, 1, &mut out));
    assert!(!encode_input_regs_be(&mut gw, 128, 0, &mut out[..0]));
    assert_eq!(out, [0xAA; 4]);
    assert!(write_hold_reg(&mut gw, 4223, 0x1234));
    assert!(!encode_hold_regs_be(&mut gw, 4223, 2, &mut out));
    assert_eq!(out, [0x12, 0x34, 0xAA, 0xAA]);
}

#[test]
fn the_board_describes_itself() {
    let mut gw = Gateway::new();
    assert_eq!(read_input_reg(&mut gw, regs::INREG_QI_COUNT), Some(0x1010));
    assert_eq!(read_input_reg(&mut gw, regs::INREG_ADC485), Some(0x0402));
    assert_eq!(read_hold_reg(&mut gw, regs::HOLD_SN_BASE), Some(u16::from_be_bytes(*b"ES")));
}

#[test]
fn outputs_are_driven_after_a_write() {
    let mut gw = Gateway::new();
    assert!(write_coil(&mut gw, regs::COIL_DO_BASE + 3, true));
    assert!(gw.do_notify);
    assert_eq!(gw.io.do_.load_bits(), 8);
    assert_eq!(read_coil(&gw, regs::COIL_DO_BASE + 3), Some(true));
    assert_eq!(read_coil(&gw, regs::COIL_DO_BASE + 2), Some(false));
}

#[test]
fn inputs_are_read_as_coils_too() {
    let mut gw = Gateway::new();
    gw.io.di.store_bits(0b101);
    assert_eq!(read_disc(&gw, 0), Some(true));
    assert_eq!(read_coil(&gw, 1), Some(false));
    assert_eq!(read_coil(&gw, 2), Some(true));
}

#[test]
fn blocks_of_input_registers_are_encoded() {
    let mut gw = Gateway::new();
    gw.io.ai.set_scaled(0, 0x0123);
    gw.io.ai.set_scaled(1, 0x0456);
    let mut out = [0u8; 4];
    assert!(encode_input_regs_be(&mut gw, regs::INREG_AI_BASE, 2, &mut out));
    assert_eq!(out, [0x01, 0x23, 0x04, 0x56]);
    let mut short = [0u8; 3];
    assert!(!encode_input_regs_be(&mut gw, regs::INREG_AI_BASE, 2, &mut short));
}

#[test]
fn logged_errors_are_readable() {
    let mut gw = Gateway::new();
    log_error(&mut gw.log, 4, 0x0777, 1, 0x0001_0002);
    assert_eq!(read_input_reg(&mut gw, regs::INREG_RINGLOG_COUNT), Some(1));
    assert_eq!(read_input_reg(&mut gw, regs::INREG_RINGLOG_BASE), Some(0x0002));
}

#[test]
fn closures_change_snapshots() {
    let mut gw = Gateway::new();
    let old = config_modify_with_result(&mut gw, |c| {
        let before = c.dhcp;
        c.dhcp = !before;
        before
    });
    assert_eq!(gw.config.snapshot.read().unwrap().cfg.dhcp, !old);
    storage_modify_holding(&mut gw, |h| h[5] = 77);
    assert!(gw.storage.holding_dirty);
    assert_eq!(gw.storage.snapshot.read().unwrap().holding_buf[5], 77);
}

//! The register map with one owner.

use iot_gateway::bus::single::{AiState, AoState, Bus, DiState, DoState, ProtoStore, SysState};
use iot_gateway::config::regs;

#[test]
fn test_di_state_bits() {
    let mut di = DiState::default();
    di.bits = 0xFFFF;
    for i in 0..16 {
        assert!(di.bits & (1u64 << i) != 0);
    }
    for i in 16..48 {
        assert!(di.bits & (1u64 << i) == 0);
    }
}

#[test]
fn test_do_state_bits() {
    let mut do_ = DoState::default();
    do_.bits = 0xAAAA;
    assert_eq!(do_.bits & 1, 0);
    assert_eq!(do_.bits & 2, 2);
    assert_eq!(do_.bits & 4, 0);
}

#[test]
fn test_ai_state_array() {
    let mut ai = AiState::default();
    ai.raw[0] = 2048;
    ai.scaled[0] = 5000;
    assert_eq!(ai.raw[0], 2048);
    assert_eq!(ai.scaled[0], 5000);
}

#[test]
fn test_ao_state_array() {
    let mut ao = AoState::default();
    ao.scaled[0] = 10000;
    ao.duty[0] = 4095;
    assert_eq!(ao.scaled[0], 10000);
    assert_eq!(ao.duty[0], 4095);
}

#[test]
fn test_sys_state_default() {
    let sys = SysState::default();
    assert_eq!(sys.log_level, SysState::DEFAULT_LOG_LEVEL);
    assert_eq!(sys.log_level, 2);
    assert_eq!(sys.uptime_s, 0);
}

#[test]
fn test_proto_store_default() {
    let proto = ProtoStore::default();
    assert_eq!(proto.data.len(), 1500);
    assert_eq!(proto.dirty, false);
    assert_eq!(proto.status, 0);
}

#[test]
fn test_bus_read_coil() {
    let bus = Bus::default();
    assert_eq!(bus.read_coil(regs::COIL_DO_BASE), Some(false));
    assert_eq!(bus.read_coil(0xFFFF), None);
}

#[test]
fn test_bus_write_coil() {
    let mut bus = Bus::default();
    let ok = bus.write_coil(regs::COIL_DO_BASE, true);
    assert_eq!(ok, true);
    assert_eq!(bus.read_coil(regs::COIL_DO_BASE), Some(true));
    assert_eq!(bus.write_coil(0xFFFF, true), false);
}

#[test]
fn test_bus_read_disc() {
    let bus = Bus::default();
    assert_eq!(bus.read_disc(regs::DISC_DI_BASE), Some(false));
}

#[test]
fn test_bus_read_input_reg() {
    let bus = Bus::default();
    let v = bus.read_input_reg(regs::INREG_FW_VER);
    assert_eq!(v, Some(0x0100));
    assert_eq!(bus.read_input_reg(regs::INREG_FW_DATE), Some(0x0615));
}

#[test]
fn test_bus_read_hold_reg_cfg_endpoints() {
    let bus = Bus::default();
    assert!(bus.read_hold_reg(regs::HOLD_CFG_BASE).is_some());
    assert!(bus.read_hold_reg(regs::HOLD_IP_BASE).is_some());
    assert!(bus.read_hold_reg(regs::HOLD_MASK_BASE).is_some());
    assert!(bus.read_hold_reg(regs::HOLD_GW_BASE).is_some());
}

#[test]
fn test_bus_write_hold_reg_commit() {
    let mut bus = Bus::default();
    let ok = bus.write_hold_reg(regs::PROTO_COMMIT, 0xC5C5);
    assert_eq!(ok, true);
}

#[test]
fn test_bus_write_hold_reg_reload() {
    let mut bus = Bus::default();
    let ok = bus.write_hold_reg(regs::PROTO_RELOAD, 0xA5A5);
    assert_eq!(ok, true);
}

#[test]
fn test_bus_device_text_area() {
    let mut bus = Bus::default();
    let ok = bus.write_hold_reg(5000, 0xABCD);
    assert_eq!(ok, true);
    assert_eq!(bus.read_hold_reg(5000), Some(0xABCD));
    assert_eq!(bus.write_hold_reg(4999, 0x1234), false);
    assert_eq!(bus.write_hold_reg(7000, 0x1234), false);
}

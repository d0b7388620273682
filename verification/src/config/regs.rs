//! The Modbus register map.

use crate::config::hw_version;
use vstd::prelude::*;

verus! {

// ---- Windows that configuration tools read as fixed blocks ----
/// Digital points in a fixed window, whatever the board has installed.
pub const LEGACY_POINT_WINDOW_COUNT: u16 = 48;
/// Analogue inputs in a fixed window.
pub const LEGACY_AI_WINDOW_COUNT: u16 = 8;
pub const INREG_PC_META_BASE: u16 = 0x0800;
pub const INREG_PC_META_COUNT: u16 = 6;

// ---- Coils (FC 01/05/15) ----
pub const COIL_DO_BASE: u16 = 0x0200;
pub const COIL_DO_COUNT: u16 = hw_version::DO_COUNT as u16;
pub const COIL_DO_END: u16 = 0x0210;
pub const COIL_INTERNAL_START: u16 = 0x0400;
pub const COIL_INTERNAL_STOP: u16 = 0x0401;
pub const COIL_RESTART: u16 = 0x0402;
pub const COIL_LOGIC_RESTART: u16 = 0x0403;
/// Extended coils, kept in storage.
pub const LEGACY_COIL_BASE: u16 = 0x0200;
pub const LEGACY_COIL_END: u16 = 0x07FF;
pub const LEGACY_COIL_COUNT: u16 = 1536;

// ---- Discrete inputs (FC 02) ----
pub const DISC_DI_BASE: u16 = 0x0000;
pub const DISC_DI_COUNT: u16 = hw_version::DI_COUNT as u16;

// ---- Input registers (FC 04) ----
pub const INREG_AI_BASE: u16 = 0x0080;
pub const INREG_AI_COUNT: u16 = hw_version::AI_COUNT;
pub const INREG_AI_STATUS_BASE: u16 = 0x0088;
/// Output count in the high byte, input count in the low byte.
pub const INREG_QI_COUNT: u16 = 0x087C;
/// Analogue inputs in the high byte, RS485 channels in the low byte.
pub const INREG_ADC485: u16 = 0x087D;
pub const INREG_FW_VER: u16 = 0x087E;
pub const INREG_FW_DATE: u16 = 0x087F;
/// Last address of the window in which gaps read as zero.
pub const INREG_LEGACY_END: u16 = 0x087F;

// Fault recovery.
pub const INREG_RECOV_RECOVERABLE: u16 = 0x0880;
pub const INREG_RECOV_DEGRADABLE: u16 = 0x0881;
pub const INREG_RECOV_SEVERE: u16 = 0x0882;
pub const INREG_RECOV_MODE: u16 = 0x0883;
pub const INREG_RECOV_BLE_DROPS: u16 = 0x0884;

// Registers that the handheld reads over BLE.
pub const INREG_HW_VER: u16 = 0x08A5;
pub const INREG_IP_BASE: u16 = 0x08C7;
pub const INREG_MAC_BASE: u16 = 0x08D7;
pub const INREG_BLE_ID_BASE: u16 = 0x08E2;

// Ring log: 8 entries of 4 words from the base address.
pub const INREG_RINGLOG_COUNT: u16 = 0x0885;
pub const INREG_RINGLOG_WRITES: u16 = 0x0886;
pub const INREG_RINGLOG_BASE: u16 = 0x0887;

// Multicast switch status.
pub const INREG_SWITCH_STATUS_BASE: u16 = 0x0090;
pub const INREG_SWITCH_STATUS_END: u16 = 0x0100;
pub const INREG_SWITCH_STATUS_COUNT: u16 = 0x0070;
pub const INREG_MULTICAST_IP1_2: u16 = 2190;
pub const INREG_MULTICAST_IP3_4: u16 = 2191;
pub const INREG_MULTICAST_PORT: u16 = 2192;
pub const INREG_SWITCH_IP1_2: u16 = 2193;
pub const INREG_SWITCH_IP3_4: u16 = 2194;
/// Bytes in one multicast status packet.
pub const MULTICAST_BUF_SIZE: usize = 32;

// ---- Holding registers (FC 03/06/16) ----
pub const HOLD_CFG_BASE: u16 = 0x0880;
// RS485 error counters, read only.
pub const HOLD_485_1_COMERR: u16 = 0x0880;
pub const HOLD_485_1_APPERR: u16 = 0x0881;
pub const HOLD_485_2_COMERR: u16 = 0x0882;
pub const HOLD_485_2_APPERR: u16 = 0x0883;
pub const HOLD_485_3_COMERR: u16 = 0x0884;
pub const HOLD_485_3_APPERR: u16 = 0x0885;
/// Serial number: 9 words, two characters each.
pub const HOLD_SN_BASE: u16 = 2196;
pub const HOLD_SN_COUNT: u16 = 9;
/// Place name: 8 words, two characters each.
pub const HOLD_PLACE_BASE: u16 = 2205;
pub const HOLD_PLACE_COUNT: u16 = 8;
pub const HOLD_HW_VER: u16 = 2213;
/// Serial ports: 5 blocks of 5 words, of which the first 3 are physical.
pub const HOLD_RS485_BASE: u16 = 2214;
pub const HOLD_RS485_STRIDE: u16 = 5;
/// Local ports of the configuration tool.
pub const HOLD_UNKNOWN_BASE: u16 = 2239;
pub const HOLD_UNKNOWN_COUNT: u16 = 4;
pub const HOLD_TCP_COM_BASE: u16 = 2243;
pub const HOLD_TCP_COM_COUNT: u16 = 4;
pub const HOLD_IP_BASE: u16 = 2247;
pub const HOLD_MASK_BASE: u16 = 2251;
pub const HOLD_GW_BASE: u16 = 2255;
pub const HOLD_DNS_BASE: u16 = 2259;
pub const HOLD_MAC_BASE: u16 = 2263;
pub const HOLD_MASTER_COM: u16 = 2269;
pub const HOLD_MASTER_IP_BASE: u16 = 2270;
/// BLE node name: 4 words, two characters each.
pub const HOLD_BLE_ADDR_BASE: u16 = 2274;
pub const HOLD_BLE_ADDR_COUNT: u16 = 4;
pub const HOLD_BLE_NAME_BASE: u16 = HOLD_BLE_ADDR_BASE;
pub const HOLD_BLE_NAME_COUNT: u16 = HOLD_BLE_ADDR_COUNT;
/// Sensor calibration: 8 minima, then 8 maxima.
pub const HOLD_SENSOR_MIN_BASE: u16 = 2280;
pub const HOLD_SENSOR_MAX_BASE: u16 = 2288;
/// Control-logic table.
pub const HOLD_DEVICE_CONFIG: u16 = 2300;
/// User area.
pub const HOLD_USER_BASE: u16 = 4000;
pub const HOLD_USER_COUNT: u16 = 224;
pub const HOLD_PROTECT_WORD: u16 = 4222;
pub const HOLD_CFG_END: u16 = 4223;
// The same area as a flat buffer.
pub const HOLD_PXX_BASE: u16 = HOLD_CFG_BASE;
pub const HOLD_PXX_END: u16 = HOLD_CFG_END;
pub const HOLD_PXX_COUNT: usize = 2048;
/// Block that the configuration tool reads in one request.
pub const HOLD_PC_DEVICE_BASE: u16 = HOLD_SN_BASE;
pub const HOLD_PC_DEVICE_COUNT: u16 = 83;
pub const HOLD_PC_DEVICE_END: u16 = 2278;

// ---- Device text ----
pub const DEVICE_TEXT_BASE: u16 = 5000;
pub const DEVICE_TEXT_COUNT: u16 = 2000;
pub const DEVICE_TEXT_END: u16 = 6999;

// ---- Protocol store ----
pub const PROTO_BASE: u16 = 0x4000;
pub const PROTO_COUNT: u16 = 1500;
pub const PROTO_END: u16 = 0x45DC;
pub const PROTO_COMMIT: u16 = 0x45DC;
pub const PROTO_RELOAD: u16 = 0x45DD;
pub const PROTO_VERSION: u16 = 0x45DE;
pub const PROTO_LENGTH: u16 = 0x45DF;
pub const PROTO_STATUS: u16 = 0x45E0;
pub const PROTO_MAGIC: u16 = 0x45E1;

/// Number of device-function entries.
pub const FUNC_COUNT: u16 = 0x08FC;

pub const TEXT_META_BASE: u16 = 0x1388;
pub const TEXT_META_COUNT: u16 = 2;
pub const TEXT_DATA_BASE: u16 = 0x138A;

// ---- Internal registers ----
pub const CFG_BASE: u16 = HOLD_CFG_BASE;
pub const CFG_FW_VER: u16 = INREG_FW_VER;
pub const CFG_CFG_VER: u16 = 0xFF00;
pub const CFG_APPLY: u16 = 0xFF01;
pub const CFG_RESET_DEFAULT: u16 = 0xFF02;
pub const CFG_DHCP: u16 = 0xFF03;
pub const CFG_BLE_MAC_BASE: u16 = 0;
pub const CFG_END: u16 = 4224;
pub const CFG_BLE_NAME_BASE: u16 = HOLD_BLE_ADDR_BASE;
pub const CFG_NAME_BASE: u16 = HOLD_PLACE_BASE;
pub const CFG_NAME_COUNT: u16 = HOLD_PLACE_COUNT;
pub const CFG_RS485_BASE: u16 = HOLD_RS485_BASE;
pub const CFG_RS485_STRIDE: u16 = HOLD_RS485_STRIDE;
pub const CFG_RS485_COUNT: u16 = 5;
pub const TCP_PORTS_DEFAULT: [u16; 4] = [502, 503, 504, 5002];
pub const UNKNOWN_DEFAULTS: [u16; 4] = [5500, 5501, 5502, 5503];

// ---- PLC aliases ----
/// 30001 to 30128.
pub const MONITOR_PLC_BASE: u16 = 0x7531;
pub const MONITOR_PLC_END: u16 = 0x75B0;
pub const MONITOR_PLC_COUNT: u16 = 128;
/// 40001 to 40300.
pub const CONTROL_PLC_BASE: u16 = 0x9C41;
pub const CONTROL_PLC_END: u16 = 0x9D6C;
pub const CONTROL_PLC_COUNT: u16 = 300;
pub const MONITOR_WORD_COUNT: u16 = 128;
pub const CONTROL_WORD_COUNT: u16 = 300;

} // verus!

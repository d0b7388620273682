//! The table of connected devices.

use iot_gateway::device_config::{DeviceConfigTable, DeviceType};

#[test]
fn kinds_and_codes_match() {
    for code in 0..=255u8 {
        assert_eq!(DeviceType::from_u8(code).as_u8(), code);
    }
    assert_eq!(DeviceType::from_u8(0x1B), DeviceType::CoviNo2Sensor);
    assert_eq!(DeviceType::from_u8(0x23), DeviceType::Unknown(0x23));
}

#[test]
fn an_entry_is_started_and_filled() {
    let mut table = DeviceConfigTable::new();
    assert_eq!(table.read_reg(2300), Some(0));
    assert_eq!(table.read_reg(2301), None);
    assert!(table.write_reg(2301, 0x0219));
    assert_eq!(table.len(), 1);
    assert_eq!(table.read_reg(2301), Some(0x0219));
    assert_eq!(table.read_reg(2302), Some(0x0301));
    assert_eq!(table.read_reg(2303), Some(0));
    assert_eq!(table.read_reg(2304), Some(8));
    assert_eq!(table.read_reg(2305), Some(0));
    assert_eq!(table.read_reg(2306), None);
    assert!(table.write_reg(2302, 0x0411));
    assert!(table.write_reg(2303, 0x1000));
    assert!(table.write_reg(2304, 2));
    assert!(table.write_reg(2305, 99));
    assert_eq!(table.read_reg(2305), Some(0));
    let poll = table.poll_entries();
    assert_eq!(poll.len(), 1);
    assert_eq!((poll[0].port, poll[0].slave, poll[0].func, poll[0].addr, poll[0].count), (2, 0x11, 4, 0x1000, 2));
    assert!(!table.write_reg(2307, 1));
}

#[test]
fn a_count_cuts_the_table() {
    let mut table = DeviceConfigTable::new();
    for k in 0..32u16 {
        assert!(table.write_reg(2301 + 5 * k, k));
    }
    assert!(!table.write_reg(2301 + 5 * 32, 1));
    assert_eq!(table.len(), 32);
    assert!(table.write_reg(2300, 40));
    assert_eq!(table.len(), 32);
    assert_eq!(table.read_reg(2300), Some(40));
    assert!(table.write_reg(2300, 2));
    assert_eq!(table.len(), 2);
}

#[test]
fn a_stored_table_is_loaded() {
    let mut table = DeviceConfigTable::new();
    table.write_reg(2301, 0x011A);
    table.write_reg(2303, 0x2233);
    table.write_reg(2306, 0x0220);
    let blob = table.save();
    assert_eq!(&blob[..4], &[0x43, 0x56, 0x45, 0x44]);
    assert_eq!(blob.len(), 4 + 2 * 9);
    assert_eq!(&blob[4..13], &[0x1A, 1, 1, 3, 0x33, 0x22, 8, 0, 0]);
    let mut other = DeviceConfigTable::new();
    other.load(Some(&blob));
    assert_eq!(other.len(), 2);
    assert_eq!(other.read_reg(2300), Some(2));
    for addr in 2301..2311 {
        assert_eq!(other.read_reg(addr), table.read_reg(addr));
    }
}

#[test]
fn parameters_are_kept() {
    let mut blob = vec![0x43, 0x56, 0x45, 0x44];
    blob.extend_from_slice(&[0x0D, 2, 7, 3, 0x10, 0x00, 4, 0, 2, 0xAA, 0x00, 0xBB, 0x01]);
    let mut table = DeviceConfigTable::new();
    table.load(Some(&blob));
    assert_eq!(table.read_reg(2305), Some(2));
    assert_eq!(table.read_reg(2306), Some(0x00AA));
    assert_eq!(table.read_reg(2307), Some(0x01BB));
    assert!(table.write_reg(2307, 5));
    assert_eq!(table.read_reg(2307), Some(5));
    assert_eq!(&table.save()[13..], &[0xAA, 0x00, 5, 0]);
}

#[test]
fn what_is_no_table_is_ignored() {
    let mut table = DeviceConfigTable::new();
    table.load(None);
    table.load(Some(&[1, 2]));
    table.load(Some(&[0, 0, 0, 0, 1, 1, 1, 1, 1, 1]));
    assert_eq!(table.len(), 0);
    let mut cut = vec![0x43, 0x56, 0x45, 0x44];
    cut.extend_from_slice(&[0x0D, 2, 7, 3, 0x10, 0x00]);
    table.load(Some(&cut));
    assert_eq!(table.len(), 1);
    assert_eq!(table.read_reg(2304), Some(8));
}

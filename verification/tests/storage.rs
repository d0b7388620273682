//! Stored images: the protocol store, the registers, the device text, the outputs,
//! and what the storage task does with requests.

use iot_gateway::bus::backends::{read_hold_reg, write_coil, write_hold_reg};
use iot_gateway::config::regs;
use iot_gateway::device::actor::{DeviceActor, DevicePlan};
use iot_gateway::device::holding_store::{
    abandon_save, finish_save, load_from_nvs, retire_legacy, save_to_nvs, HoldingSources, LoadedHoldingState, SlotState,
};
use iot_gateway::device::persist::{
    abandon_text, do_bits_stored, init, load_device_text, load_do_bits, load_mesh_keys, load_reset_count, persist_do_bits_throttled,
    save_device_text_to_nvs, save_do_bits_to_nvs, text_to_store, BootImage, DoPersist, DEV_TEXT_MAGIC, DO_NVS_MAGIC,
};
use iot_gateway::device::proto_store::{
    check_commit, commit_sync, finish_commit, load_single_blob, proto_info, proto_read, proto_read_bulk, proto_write,
    proto_write_bulk, reload_sync, LegacyProto, ProtoImage, ProtoSources, StoreOutcome,
};
use iot_gateway::device::system_config::{SystemConfig, NVS_MAGIC};
use iot_gateway::device::{
    crc32, request_apply_config, request_commit, request_persist_device_config, request_persist_holding,
    save_reset_count, DeviceCmd,
};
use iot_gateway::error::AppError;
use iot_gateway::gateway::Gateway;
use iot_gateway::modbus::shared::modbus_crc16;

fn no_legacy<'a>() -> LegacyProto<'a> {
    LegacyProto { magic: None, blob: None, version: None, length: None }
}

#[test]
fn checksums_have_their_known_values() {
    assert_eq!(crc32(b"123456789"), 0xCBF4_3926);
    assert_eq!(crc32(b""), 0);
    assert_eq!(modbus_crc16(b"123456789"), 0x4B37);
    assert_eq!(modbus_crc16(b""), 0xFFFF);
    assert_eq!(modbus_crc16(&[0x01, 0x03, 0x00, 0x00, 0x00, 0x0A]), 0xCDC5);
}

#[test]
fn the_protocol_store_is_committed_and_reloaded() {
    let mut gw = Gateway::new();
    assert!(proto_write(&mut gw, 3, 0xBEEF));
    assert!(write_hold_reg(&mut gw, regs::PROTO_VERSION, 9));
    assert!(write_hold_reg(&mut gw, regs::PROTO_LENGTH, 10));
    assert!(proto_info(&gw).dirty);
    let plan = commit_sync(&mut gw, None);
    assert_eq!((plan.key, plan.active), ("proto_b", 1));
    assert_eq!(proto_info(&gw).status, 1);
    let checked = check_commit(&mut gw, &plan, &plan.blob).unwrap();
    assert_eq!(checked.active(), 1);
    assert!(proto_info(&gw).dirty);
    assert!(finish_commit(&mut gw, StoreOutcome::Stored(checked)));
    assert!(!proto_info(&gw).dirty);
    let mut other = Gateway::new();
    let sources = ProtoSources { active: Some(1), blob_a: None, blob_b: Some(&plan.blob), legacy: no_legacy() };
    reload_sync(&mut other, Some(&sources));
    assert_eq!(proto_read(&other, 3), Some(0xBEEF));
    let info = proto_info(&other);
    assert_eq!((info.version, info.length, info.status), (9, 10, 0));
    assert_eq!(commit_sync(&mut gw, Some(1)).key, "proto_a");
}

#[test]
fn a_failed_commit_is_reported() {
    let mut gw = Gateway::new();
    let _ = commit_sync(&mut gw, Some(0));
    assert!(!finish_commit(&mut gw, StoreOutcome::Failed));
    assert_eq!(proto_info(&gw).status, 3);
    assert!(finish_commit(&mut gw, StoreOutcome::Unavailable));
    assert_eq!(proto_info(&gw).status, 0);
}

#[test]
fn a_commit_that_reads_back_wrong_fails() {
    let mut gw = Gateway::new();
    proto_write(&mut gw, 3, 7);
    let plan = commit_sync(&mut gw, Some(1));
    let mut damaged = plan.blob.clone();
    damaged[500] ^= 4;
    assert!(check_commit(&mut gw, &plan, &damaged).is_none());
    assert_eq!(proto_info(&gw).status, 3);
    assert!(proto_info(&gw).dirty);
    assert!(check_commit(&mut gw, &plan, &[]).is_none());
    let mut other = Gateway::new();
    let whole_but_other = commit_sync(&mut other, Some(1));
    assert!(check_commit(&mut gw, &plan, &whole_but_other.blob).is_none());
}

#[test]
fn a_damaged_protocol_image_is_refused() {
    let mut gw = Gateway::new();
    proto_write(&mut gw, 0, 1);
    let mut plan = commit_sync(&mut gw, None);
    assert!(load_single_blob(Some(&plan.blob)).is_some());
    plan.blob[100] ^= 1;
    assert!(load_single_blob(Some(&plan.blob)).is_none());
    assert!(load_single_blob(Some(&plan.blob[..3009])).is_none());
    assert!(load_single_blob(None).is_none());
}

#[test]
fn blocks_of_the_protocol_store_are_cut_at_its_end() {
    let mut gw = Gateway::new();
    assert!(proto_write_bulk(&mut gw, 10, &[1, 2, 3]));
    assert_eq!(proto_read_bulk(&gw, 10, 3), [1, 2, 3]);
    assert_eq!(proto_read_bulk(&gw, 1498, 5).len(), 2);
    assert!(proto_read_bulk(&gw, 1500, 1).is_empty());
    assert_eq!(proto_read(&gw, 1500), None);
    assert!(!proto_write(&mut gw, 1500, 1));
}

#[test]
fn registers_are_saved_and_loaded() {
    let mut gw = Gateway::new();
    let mut slots = SlotState::new();
    assert!(matches!(save_to_nvs(&mut gw.storage, &slots), Ok(None)));
    assert!(write_hold_reg(&mut gw, 2400, 0x1357));
    assert!(write_coil(&mut gw, regs::LEGACY_COIL_END, true));
    let plan = save_to_nvs(&mut gw.storage, &slots).unwrap().unwrap();
    assert_eq!((plan.slot, plan.generation), (0, 1));
    assert!(!gw.storage.holding_dirty);
    assert!(finish_save(&mut gw.storage, &mut slots, &plan, &plan.blob).is_ok());
    assert_eq!((slots.active, slots.generation), (0, 1));
    let mut other = Gateway::new();
    let mut other_slots = SlotState::new();
    let sources = HoldingSources {
        slot0: Some(&plan.blob),
        slot1: None,
        legacy_active: None,
        legacy_a: None,
        legacy_b: None,
    };
    let loaded = load_from_nvs(&mut other.storage, &mut other_slots, &sources);
    assert_eq!(loaded.words[2400 - 0x0880], 0x1357);
    assert_eq!(*loaded.legacy_coils.last().unwrap(), 1);
    assert_eq!((other_slots.active, other_slots.generation), (0, 1));
    assert!(other.storage.holding_valid);
}

#[test]
fn a_save_that_fails_is_repeated() {
    let mut gw = Gateway::new();
    let mut slots = SlotState::new();
    write_hold_reg(&mut gw, 2400, 1);
    let plan = save_to_nvs(&mut gw.storage, &slots).unwrap().unwrap();
    let mut damaged = plan.blob.clone();
    damaged[20] ^= 1;
    match finish_save(&mut gw.storage, &mut slots, &plan, &damaged) {
        Err(AppError::Config(e)) => assert_eq!(e, "raw slot 0 verification failed"),
        _ => panic!("accepted"),
    }
    assert!(gw.storage.holding_dirty);
    assert_eq!(slots, SlotState::new());
    let plan = save_to_nvs(&mut gw.storage, &slots).unwrap().unwrap();
    abandon_save(&mut gw.storage, &plan);
    assert!(gw.storage.holding_dirty);
}

#[test]
fn text_and_outputs_are_stored() {
    let mut text = vec![0u16; 2000];
    text[1999] = 0x4E2D;
    let blob = save_device_text_to_nvs(&text).unwrap();
    assert_eq!(load_device_text(Some(DEV_TEXT_MAGIC), Some(&blob)), text);
    assert_eq!(load_device_text(None, Some(&blob)), vec![0u16; 2000]);
    assert_eq!(load_device_text(Some(DEV_TEXT_MAGIC), Some(&blob[1..])), vec![0u16; 2000]);
    match save_device_text_to_nvs(&text[1..]) {
        Err(AppError::Config(e)) => assert_eq!(e, "dev_text len mismatch: 1999 != 2000"),
        _ => panic!("accepted"),
    }
    let bits = 0x8000_0000_0000_0123;
    let blob = save_do_bits_to_nvs(bits);
    assert_eq!(blob, bits.to_le_bytes());
    assert_eq!(load_do_bits(Some(DO_NVS_MAGIC), Some(&blob)), bits);
    assert_eq!(load_do_bits(Some(DO_NVS_MAGIC), Some(&blob[1..])), 0);
    assert_eq!(load_do_bits(None, Some(&blob)), 0);
}

#[test]
fn text_waits_until_it_is_stored() {
    let mut gw = Gateway::new();
    assert!(text_to_store(&mut gw.storage).is_none());
    assert!(write_hold_reg(&mut gw, regs::DEVICE_TEXT_BASE + 1, 0x4E2D));
    let blob = text_to_store(&mut gw.storage).unwrap().unwrap();
    assert_eq!(blob.len(), 4000);
    assert_eq!(&blob[..4], &[0, 0, 0x2D, 0x4E]);
    assert!(!gw.storage.text_dirty);
    assert!(text_to_store(&mut gw.storage).is_none());
    abandon_text(&mut gw.storage);
    assert_eq!(text_to_store(&mut gw.storage).unwrap().unwrap(), blob);
}

#[test]
fn older_images_are_removed_once() {
    let mut slots = SlotState::new();
    assert!(!retire_legacy(&mut slots, false));
    assert!(!slots.legacy_removed);
    assert!(retire_legacy(&mut slots, true));
    assert_eq!(slots, SlotState { legacy_removed: true, ..SlotState::new() });
    assert!(!retire_legacy(&mut slots, true));
    assert!(!retire_legacy(&mut slots, false));
    assert!(slots.legacy_removed);
}

#[test]
fn output_writes_are_throttled() {
    let mut p = DoPersist { last_bits: 0, last_ms: u32::MAX - 10 };
    assert_eq!(persist_do_bits_throttled(&p, 5, 500), None);
    assert_eq!(persist_do_bits_throttled(&p, 5, 2000), Some(5));
    assert_eq!(persist_do_bits_throttled(&p, 0, 2000), None);
    do_bits_stored(&mut p, 5, 2000);
    assert_eq!(persist_do_bits_throttled(&p, 6, 2999), None);
    assert_eq!(persist_do_bits_throttled(&p, 6, 3000), Some(6));
}

#[test]
fn counters_start_at_zero() {
    assert_eq!(load_reset_count(None), 0);
    assert_eq!(load_reset_count(Some(7)), 7);
    assert_eq!(load_mesh_keys(None, Some(3)), (0, 3));
}

#[test]
fn the_configuration_is_loaded() {
    let mut cfg = SystemConfig::defaults();
    cfg.ip = [10, 1, 2, 3];
    let blob = cfg.encode();
    assert_eq!(SystemConfig::load_from_nvs(Some(NVS_MAGIC), Some(&blob)).ip, [10, 1, 2, 3]);
    assert_eq!(SystemConfig::load_from_nvs(None, Some(&blob)).ip, SystemConfig::defaults().ip);
    assert_eq!(SystemConfig::load_from_nvs(Some(NVS_MAGIC), None).ip, SystemConfig::defaults().ip);
    assert_eq!(SystemConfig::fw_version_of("2.2.1"), 221);
}

#[test]
fn start_up_publishes_what_was_loaded() {
    let mut gw = Gateway::new();
    let mut data = vec![0u16; 1500];
    data[4] = 44;
    let mut text = vec![0u16; 2000];
    text[0] = 5;
    let mut holding = LoadedHoldingState::empty();
    holding.words[0x100] = 0x7777;
    let boot = BootImage {
        proto: ProtoImage { data, version: 2, length: 5 },
        device_text: text,
        holding,
        config: SystemConfig::defaults(),
        devices: Some(vec![0x43, 0x56, 0x45, 0x44, 0x0D, 2, 7, 3, 0x10, 0x00, 4, 0, 0]),
        do_bits: Some(0x11),
        hw_eth_mac: [1, 2, 3, 4, 5, 6],
        hw_ble_mac: [6, 5, 4, 3, 2, 1],
    };
    init(&mut gw, &boot);
    assert_eq!(proto_read(&gw, 4), Some(44));
    assert_eq!(read_hold_reg(&mut gw, regs::DEVICE_TEXT_BASE), Some(5));
    assert_eq!(gw.io.do_.load_bits(), 0x11);
    assert!(gw.do_notify);
    let cfg = gw.config.snapshot.read().unwrap().cfg;
    assert_eq!(cfg.eth_mac, [1, 2, 3, 4, 5, 6]);
    assert_eq!(cfg.ble_mac, [6, 5, 4, 3, 2, 1]);
    assert_eq!(gw.io.sys.get_fw_version(), 221);
    assert_eq!(gw.devices.len(), 1);
}

#[test]
fn the_storage_task_plans_each_request() {
    let mut gw = Gateway::new();
    let actor = DeviceActor::new();
    assert!(request_commit(&mut gw));
    request_apply_config(&mut gw);
    request_persist_holding(&mut gw);
    request_persist_device_config(&mut gw);
    save_reset_count(&mut gw, 12);
    let cmd = gw.mailbox.dequeue().unwrap();
    assert!(matches!(actor.handle(&mut gw, cmd, Some(0)), DevicePlan::Commit(p) if p.key == "proto_b"));
    let cmd = gw.mailbox.dequeue().unwrap();
    let blob = SystemConfig::defaults().encode();
    assert!(matches!(actor.handle(&mut gw, cmd, None), DevicePlan::StoreConfig(b) if b == blob));
    let cmd = gw.mailbox.dequeue().unwrap();
    assert!(matches!(actor.handle(&mut gw, cmd, None), DevicePlan::Nothing));
    write_hold_reg(&mut gw, 2400, 1);
    assert!(matches!(actor.handle(&mut gw, cmd, None), DevicePlan::StoreHolding(p) if p.slot == 0));
    let cmd = gw.mailbox.dequeue().unwrap();
    assert!(matches!(actor.handle(&mut gw, cmd, None), DevicePlan::StoreDeviceTable(b) if b.len() == 4));
    let cmd = gw.mailbox.dequeue().unwrap();
    assert!(matches!(actor.handle(&mut gw, cmd, None), DevicePlan::StoreResetCount(12)));
    assert!(matches!(actor.handle(&mut gw, DeviceCmd::Reload, None), DevicePlan::Reload));
    assert_eq!(proto_info(&gw).status, 2);
}

#[test]
fn a_full_mailbox_drops_requests() {
    let mut gw = Gateway::new();
    for _ in 0..32 {
        assert!(request_commit(&mut gw));
    }
    assert!(!request_commit(&mut gw));
    assert_eq!(gw.mailbox.len(), 32);
}

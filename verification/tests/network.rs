//! The wired network and the mesh.

use iot_gateway::blemesh::bindings::{
    EspBleMeshMsgCtx, OP_GEN_ONOFF_GET, OP_GEN_ONOFF_SET, OP_GEN_ONOFF_SET_UNACK, OP_GEN_ONOFF_STATUS,
};
use iot_gateway::blemesh::models::{
    client_ops, handle_model_operation, handle_without_bus, send_onoff_set, server_ops,
};
use iot_gateway::blemesh::provisioning::{
    current_mesh_keys, handle_provisioning_event, start_provisioner, static_oob, MeshKeys, ProvAction,
};
use iot_gateway::bus::event_bus::{recv_event, IoEvent};
use iot_gateway::bus::single::Bus;
use iot_gateway::device::DeviceCmd;
use iot_gateway::error::recovery::{mode, DegradedMode, RecoveryAction};
use iot_gateway::ethernet::w5500::{
    apply_netif_config, fmt_ip, heartbeat_once, link_up, mac_to_set, on_ip_event, on_link_event, tick_eth_heartbeat,
    EthState, NetifPlan,
};
use iot_gateway::gateway::Gateway;

#[test]
fn a_pulled_cable_is_noticed() {
    let mut eth = EthState::new();
    assert!(link_up(&eth));
    assert!(heartbeat_once(&eth, Some(0x0100A8C0)));
    assert!(!heartbeat_once(&eth, Some(0)));
    assert!(!heartbeat_once(&eth, None));
    on_link_event(&mut eth, false);
    assert!(!heartbeat_once(&eth, Some(0x0100A8C0)));
}

#[test]
fn failures_degrade_and_recovery_restores() {
    let mut eth = EthState::new();
    let mut gw = Gateway::new();
    on_link_event(&mut eth, false);
    assert_eq!(tick_eth_heartbeat(&mut eth, &mut gw, None, 1), None);
    assert_eq!(mode(&gw.recovery), DegradedMode::Normal);
    let action = tick_eth_heartbeat(&mut eth, &mut gw, None, 2);
    assert!(matches!(action, Some(RecoveryAction::Degrade(DegradedMode::BleOnly))));
    assert_eq!(mode(&gw.recovery), DegradedMode::BleOnly);
    on_link_event(&mut eth, true);
    assert_eq!(tick_eth_heartbeat(&mut eth, &mut gw, Some(1), 3), None);
    assert_eq!(mode(&gw.recovery), DegradedMode::Normal);
    assert_eq!(eth.fail_count, 0);
}

#[test]
fn an_assigned_address_is_reported() {
    let mut gw = Gateway::new();
    on_ip_event(&mut gw, 0x8C33_A8C0, 0x00FF_FFFF, 0x0133_A8C0);
    let event = IoEvent::IpAssigned([192, 168, 51, 140], [255, 255, 255, 0], [192, 168, 51, 1]);
    assert_eq!(recv_event(&mut gw.events), Some(event));
    assert_eq!(fmt_ip(0x8C33_A8C0), "192.168.51.140");
}

#[test]
fn the_interface_is_set_up_as_configured() {
    let mut gw = Gateway::new();
    let cfg = gw.config.snapshot.read().unwrap().cfg;
    let expected = NetifPlan::Static {
        ip: u32::from_le_bytes(cfg.ip),
        mask: u32::from_le_bytes(cfg.mask),
        gateway: u32::from_le_bytes(cfg.gateway),
        dns: u32::from_le_bytes(cfg.dns),
    };
    assert_eq!(apply_netif_config(&gw), expected);
    assert_eq!(mac_to_set(&gw), cfg.eth_mac);
    iot_gateway::bus::backends::config_modify(&mut gw, |c| c.dhcp = true);
    assert_eq!(apply_netif_config(&gw), NetifPlan::Dhcp);
}

#[test]
fn the_mesh_switches_output_zero() {
    let mut bus = Bus::new();
    let ctx = EspBleMeshMsgCtx::for_send(1, 2, 0xC000);
    let answer = handle_model_operation(&mut bus, OP_GEN_ONOFF_SET, 1, 2, 0xC000, &[1, 9]).unwrap();
    assert_eq!((answer.ctx, answer.on), (ctx, 1));
    assert_eq!(bus.do_.bits, 1);
    assert!(handle_model_operation(&mut bus, OP_GEN_ONOFF_SET_UNACK, 1, 2, 0xC000, &[0, 9]).is_none());
    assert_eq!(bus.do_.bits, 0);
    assert!(handle_model_operation(&mut bus, OP_GEN_ONOFF_SET, 1, 2, 0xC000, &[]).is_none());
    assert!(handle_model_operation(&mut bus, OP_GEN_ONOFF_STATUS, 1, 2, 0xC000, &[1]).is_none());
    assert_eq!(handle_model_operation(&mut bus, OP_GEN_ONOFF_GET, 1, 2, 0xC000, &[]).unwrap().on, 0);
    assert_eq!(server_ops()[1].min_len, 2);
    assert_eq!(client_ops()[0].opcode, OP_GEN_ONOFF_STATUS);
}

#[test]
fn without_the_bus_the_output_is_reported_off() {
    let ctx = EspBleMeshMsgCtx::for_send(1, 2, 0xC000);
    for (opcode, msg) in [(OP_GEN_ONOFF_GET, &[][..]), (OP_GEN_ONOFF_SET, &[1, 9])] {
        let answer = handle_without_bus(opcode, 1, 2, 0xC000, msg).unwrap();
        assert_eq!((answer.ctx, answer.on), (ctx, 0));
    }
    assert!(handle_without_bus(OP_GEN_ONOFF_SET, 1, 2, 0xC000, &[]).is_none());
    assert!(handle_without_bus(OP_GEN_ONOFF_SET_UNACK, 1, 2, 0xC000, &[1, 9]).is_none());
    assert!(handle_without_bus(OP_GEN_ONOFF_STATUS, 1, 2, 0xC000, &[1]).is_none());
}

#[test]
fn transactions_are_numbered() {
    let mut tid = 0xFF;
    let first = send_onoff_set(&mut tid, true, 2, 0, 0);
    let second = send_onoff_set(&mut tid, false, 2, 0, 0);
    assert_eq!((first.on, first.tid, first.ctx.addr), (1, 0xFF, 2));
    assert_eq!((second.on, second.tid), (0, 0));
}

#[test]
fn keys_are_taken_from_provisioning() {
    let mut keys = MeshKeys { net_idx: 0, app_idx: 0 };
    let mut gw = Gateway::new();
    assert_eq!(handle_provisioning_event(&mut keys, &mut gw, 10, None), ProvAction::Nothing);
    assert_eq!(current_mesh_keys(&keys), (0, 0));
    assert_eq!(handle_provisioning_event(&mut keys, &mut gw, 10, Some(5)), ProvAction::Nothing);
    assert_eq!(current_mesh_keys(&keys), (5, 0));
    assert_eq!(gw.mailbox.dequeue(), Some(DeviceCmd::PersistMeshKeys { net_idx: 5, app_idx: 0 }));
    assert_eq!(handle_provisioning_event(&mut keys, &mut gw, 31, Some(0)), ProvAction::AddAppKey(keys));
    assert_eq!(handle_provisioning_event(&mut keys, &mut gw, 7, Some(0)), ProvAction::Nothing);
    assert_eq!(start_provisioner(&keys), ProvAction::AddAppKey(keys));
    assert_eq!(static_oob(), None);
}

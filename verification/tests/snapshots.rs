//! Snapshots and events.

use iot_gateway::bus::config_state::{config_read, config_read_with, config_write, ConfigSnapshot, ConfigState};
use iot_gateway::bus::event_bus::{event_count, recv_event, send_event, EventBus, IoEvent};
use iot_gateway::bus::rcu::Rcu;
use iot_gateway::bus::storage_state::{storage_read, storage_write, StorageSnapshot, StorageState};
use iot_gateway::device::system_config::SystemConfig;
use std::sync::atomic::{AtomicUsize, Ordering};

#[test]
fn test_basic() {
    let mut state = ConfigState::new();
    let snap = ConfigSnapshot::new();
    config_write(&mut state, snap);
    let read = config_read(&state).unwrap();
    assert_eq!(read.cfg.fw_version, SystemConfig::defaults().fw_version);
}

#[test]
fn test_read_with() {
    let mut state = ConfigState::new();
    let mut snap = ConfigSnapshot::new();
    snap.cfg.dhcp = true;
    config_write(&mut state, snap);
    let result = config_read_with(&state, |s| s.cfg.dhcp);
    assert_eq!(result, Some(true));
}

#[test]
fn test_storage_basic() {
    let mut state = StorageState::new();
    let mut snap = StorageSnapshot::new();
    snap.proto.length = 42;
    storage_write(&mut state, snap);
    let read = storage_read(&state).unwrap();
    assert_eq!(read.proto.length, 42);
}

#[test]
fn test_event_basic() {
    let mut events = EventBus::new();
    send_event(&mut events, IoEvent::DiChanged);
    let _ = recv_event(&mut events);
}

#[test]
fn test_event_overflow() {
    let mut events = EventBus::new();
    for _ in 0..40 {
        send_event(&mut events, IoEvent::AiSampled);
    }
    let count = event_count(&events);
    assert!(count <= 32);
}

#[test]
fn test_recv_returns_some() {
    let mut events = EventBus::new();
    send_event(&mut events, IoEvent::ResetRequested);
    assert!(recv_event(&mut events).is_some());
}

#[test]
fn test_event_count() {
    let mut events = EventBus::new();
    let initial = event_count(&events);
    send_event(&mut events, IoEvent::DiChanged);
    send_event(&mut events, IoEvent::DoChanged);
    let new_count = event_count(&events);
    assert!(new_count >= initial);
}

#[test]
fn test_rcu_basic() {
    let mut rcu = Rcu::new(42u32);
    assert_eq!(*rcu.read().unwrap(), 42);
    rcu.write(100);
    assert_eq!(*rcu.read().unwrap(), 100);
}

#[test]
fn test_rcu_empty() {
    let mut rcu: Rcu<u32> = Rcu::empty();
    assert!(rcu.read().is_none());
    rcu.write(99);
    assert_eq!(*rcu.read().unwrap(), 99);
}

#[test]
fn test_rcu_read_with_and_cloned() {
    let rcu = Rcu::new(String::from("hello"));
    assert_eq!(rcu.read_with(String::len), Some(5));
    assert_eq!(rcu.read_cloned(), Some("hello".to_string()));
}

struct Counted<'a>(&'a AtomicUsize);
impl Drop for Counted<'_> {
    fn drop(&mut self) {
        self.0.fetch_add(1, Ordering::Release);
    }
}

#[test]
fn test_reader_keeps_replaced_snapshot_alive() {
    let drops = AtomicUsize::new(0);
    let mut rcu = Rcu::new(Counted(&drops));
    let old = rcu.read().unwrap();
    rcu.write(Counted(&drops));
    assert_eq!(drops.load(Ordering::Acquire), 0);
    drop(old);
    assert_eq!(drops.load(Ordering::Acquire), 1);
    drop(rcu);
    assert_eq!(drops.load(Ordering::Acquire), 2);
}

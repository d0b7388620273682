//! IO points, bits and the buffer pool.

use iot_gateway::bits::{get_bit, mask_replace, set_bit};
use iot_gateway::bus::buffer_pool::GlobalBufferPool;
use iot_gateway::bus::event_bus::{has_event, recv_event, send_event, EventBus, IoEvent};
use iot_gateway::bus::io_global::IoBundle;
use iot_gateway::bus::io_state::ResetSource;

#[test]
fn bits_are_set_and_read() {
    let b = set_bit(0, 63, true);
    assert_eq!(b, 1 << 63);
    assert!(get_bit(b, 63));
    assert!(!get_bit(b, 64));
    assert_eq!(set_bit(b, 64, true), b);
    assert_eq!(set_bit(b, 63, false), 0);
    assert_eq!(mask_replace(0b1111, 0b0110, 0b0010), 0b1011);
}

#[test]
fn channels_out_of_range_are_ignored() {
    let mut io = IoBundle::new();
    io.ai.set_raw(7, 70);
    io.ai.set_raw(8, 80);
    io.ai.set_status(1, 1);
    assert_eq!(io.ai.get_raw(7), 70);
    assert_eq!(io.ai.get_raw(8), 0);
    assert_eq!(io.ai.get_status(1), 1);
    let mut all = [9u16; 10];
    io.ai.read_all_raw(&mut all);
    assert_eq!(all[7], 70);
    assert_eq!(all[0], 0);
    io.ao.set_scaled(4, 1);
    assert_eq!(io.ao.get_scaled(4), 0);
}

#[test]
fn system_registers_are_kept() {
    let mut io = IoBundle::new();
    assert_eq!(io.sys.get_log_level(), 2);
    io.sys.set_log_level(4);
    io.sys.set_uptime(100_000);
    io.sys.set_reset_count(3);
    io.sys.set_reset_reason(15);
    assert_eq!((io.sys.get_log_level(), io.sys.get_uptime()), (4, 100_000));
    assert_eq!((io.sys.get_reset_count(), io.sys.get_reset_reason()), (3, 15));
    io.sys.request_reset(ResetSource::BleOta);
    assert!(io.sys.is_reset_requested());
    io.sys.clear_reset_request();
    assert!(!io.sys.is_reset_requested());
}

#[test]
fn the_pool_runs_out_and_recovers() {
    let mut pool = GlobalBufferPool::new();
    assert_eq!(pool.available(), 4);
    for k in 0..4 {
        assert_eq!(pool.acquire(), Some(k));
    }
    assert_eq!(pool.acquire(), None);
    assert_eq!(pool.available(), 0);
    pool.release(2);
    pool.release(99);
    assert_eq!(pool.acquire(), Some(2));
    pool.write(2, |b| {
        let _ = b.extend_from_slice(&[1, 2]);
    });
    pool.write(2, |b| {
        let _ = b.push(3);
    });
    assert_eq!(&pool.read(2).unwrap()[..], &[3]);
}

#[test]
fn a_full_queue_keeps_the_latest_events() {
    let mut events = EventBus::new();
    assert!(!has_event(&events));
    send_event(&mut events, IoEvent::DiChanged);
    for _ in 0..31 {
        send_event(&mut events, IoEvent::DoChanged);
    }
    send_event(&mut events, IoEvent::ResetRequested);
    assert!(has_event(&events));
    for _ in 0..31 {
        assert_eq!(recv_event(&mut events), Some(IoEvent::DoChanged));
    }
    assert_eq!(recv_event(&mut events), Some(IoEvent::ResetRequested));
    assert_eq!(recv_event(&mut events), None);
}

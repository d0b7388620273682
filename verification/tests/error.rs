//! Recovery and the error log.

use iot_gateway::error::recovery::{
    decide_action, enter_mode, handle_failure, is_feature_allowed, mode, record_failure, stats, DegradedMode, Feature,
    RecoveryAction, RecoveryState, Severity,
};
use iot_gateway::error::ringlog::{log_error, LogState, RingLog};
use iot_gateway::error::AppError;

#[test]
fn test_recoverable_decision() {
    let action = decide_action(Severity::Recoverable, 100);
    assert!(matches!(action, RecoveryAction::Retry(_)));
}

#[test]
fn test_degradable_decision_progression() {
    let action = decide_action(Severity::Degradable, 1);
    assert!(matches!(action, RecoveryAction::Retry(_)));

    let action = decide_action(Severity::Degradable, 2);
    assert!(matches!(
        action,
        RecoveryAction::Degrade(DegradedMode::BleOnly)
    ));
    let action = decide_action(Severity::Degradable, 4);
    assert!(matches!(
        action,
        RecoveryAction::Degrade(DegradedMode::BleOnly)
    ));

    let action = decide_action(Severity::Degradable, 5);
    assert!(matches!(
        action,
        RecoveryAction::Degrade(DegradedMode::LocalOnly)
    ));

    let action = decide_action(Severity::Degradable, 10);
    assert!(matches!(
        action,
        RecoveryAction::Degrade(DegradedMode::Minimal)
    ));
}

#[test]
fn test_severe_degrades_without_restart() {
    let action = decide_action(Severity::Severe, 1);
    assert!(matches!(
        action,
        RecoveryAction::Degrade(DegradedMode::LocalOnly)
    ));
}

#[test]
fn test_fatal_degrades_without_restart() {
    let action = decide_action(Severity::Fatal, 0);
    assert!(matches!(
        action,
        RecoveryAction::Degrade(DegradedMode::Minimal)
    ));
}

#[test]
fn test_mode_cycling() {
    let mut state = RecoveryState::new();
    assert_eq!(mode(&state), DegradedMode::Normal);

    enter_mode(&mut state, DegradedMode::BleOnly);
    assert_eq!(mode(&state), DegradedMode::BleOnly);

    enter_mode(&mut state, DegradedMode::Normal);
    assert_eq!(mode(&state), DegradedMode::Normal);
}

#[test]
fn test_feature_filtering() {
    let mut state = RecoveryState::new();
    enter_mode(&mut state, DegradedMode::Normal);
    assert!(is_feature_allowed(&state, Feature::Ble));
    assert!(is_feature_allowed(&state, Feature::ModbusTcp));
    assert!(is_feature_allowed(&state, Feature::Ethernet));

    enter_mode(&mut state, DegradedMode::BleOnly);
    assert!(is_feature_allowed(&state, Feature::Ble));
    assert!(!is_feature_allowed(&state, Feature::ModbusTcp));
    assert!(!is_feature_allowed(&state, Feature::Ethernet));

    enter_mode(&mut state, DegradedMode::LocalOnly);
    assert!(is_feature_allowed(&state, Feature::Ble));
    assert!(!is_feature_allowed(&state, Feature::ModbusTcp));
    assert!(is_feature_allowed(&state, Feature::LocalIo));

    enter_mode(&mut state, DegradedMode::Minimal);
    assert!(!is_feature_allowed(&state, Feature::Ble));
    assert!(is_feature_allowed(&state, Feature::LocalIo));

    enter_mode(&mut state, DegradedMode::Normal);
}

#[test]
fn test_ring_log_basic() {
    let mut ring = RingLog::new();
    ring.record(0, 1, 100, 0, 0);
    ring.record(2, 2, 200, 1, 0);
    assert_eq!(ring.len(), 2);
    assert_eq!(ring.entries()[0].code, 100);
    assert_eq!(ring.entries()[1].code, 200);
}

#[test]
fn test_ring_log_overflow() {
    let mut ring = RingLog::new();
    for i in 0..150 {
        ring.record(0, 0, i, 0, 0);
    }
    assert_eq!(ring.len(), 100);
    assert_eq!(ring.entries()[99].code, 149);
    assert_eq!(ring.entries()[0].code, 50);
}

#[test]
fn test_log_error_atomic_count() {
    let mut log = LogState::new();
    log_error(&mut log, 0, 100, 0, 0);
    log_error(&mut log, 0, 200, 0, 0);
    let _cnt = log.published_count;
}

#[test]
fn errors_say_where_they_come_from() {
    assert_eq!(AppError::Modbus("no reply".to_owned()).message(), "modbus: no reply");
    assert_eq!(AppError::Config("x".to_owned()).message(), "config: x");
    assert_eq!(AppError::other("y").message(), AppError::from("y".to_owned()).message());
    let e = AppError::from_anyhow(anyhow::Error::msg("lost"));
    assert!(e.message().contains("lost"));
    let io = AppError::from(std::io::Error::other("disk"));
    assert!(io.message().contains("disk"));
}

#[test]
fn failures_are_counted_by_severity() {
    let mut state = RecoveryState::new();
    record_failure(&mut state, Severity::Recoverable, 1);
    record_failure(&mut state, Severity::Recoverable, 2);
    record_failure(&mut state, Severity::Degradable, 3);
    record_failure(&mut state, Severity::Severe, 4);
    let s = stats(&state);
    assert_eq!((s.recoverable, s.degradable, s.severe), (2, 1, 1));
    let action = handle_failure(&mut state, Severity::Degradable, 10, 5);
    assert!(matches!(action, RecoveryAction::Degrade(DegradedMode::Minimal)));
    assert_eq!(mode(&state), DegradedMode::Minimal);
}

#[test]
fn the_log_keeps_what_was_logged() {
    let mut log = LogState::new();
    log_error(&mut log, 3, 100, 7, 55);
    let e = log.ring.entries()[0];
    assert_eq!((e.module_id, e.code, e.context, e.timestamp_s), (3, 100, 7, 55));
    assert_eq!(log.ring.write_count(), 1);
}

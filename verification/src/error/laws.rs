//! Laws of fault recovery and of the fault log.

use crate::error::recovery::{
    action_for, after_action, after_failure, allows, mode_code, DegradedMode, Feature, RecoveryAction, RecoveryState,
    Severity,
};
use crate::error::ringlog::{logged, LogView};
use crate::error::AppError;
use vstd::prelude::*;

verus! {

/// A fault that degrades is retried after a second the first time, and from the second
/// in a row on leaves BLE, from the fifth on local operation, from the tenth on the
/// minimum.
pub proof fn law_faults_in_a_row_degrade(n: u32)
    ensures
        ({
            let a = action_for(Severity::Degradable, n);
            &&& n < 2 <==> a == RecoveryAction::Retry(1000)
            &&& 2 <= n < 5 <==> a == RecoveryAction::Degrade(DegradedMode::BleOnly)
            &&& 5 <= n < 10 <==> a == RecoveryAction::Degrade(DegradedMode::LocalOnly)
            &&& 10 <= n <==> a == RecoveryAction::Degrade(DegradedMode::Minimal)
        }),
{
}

/// The other classes do not count: a light fault is retried after 100 ms, a severe one
/// leaves local operation at once, a fatal one the minimum.
pub proof fn law_other_faults_act_at_once(n: u32)
    ensures
        action_for(Severity::Recoverable, n) == RecoveryAction::Retry(100),
        action_for(Severity::Severe, n) == RecoveryAction::Degrade(DegradedMode::LocalOnly),
        action_for(Severity::Fatal, n) == RecoveryAction::Degrade(DegradedMode::Minimal),
{
}

/// A fault raises the counter of its own class by one and notes its time; a fatal one
/// raises none. No fault changes the service level by itself.
pub proof fn law_fault_counts_once(s: RecoveryState, severity: Severity, now: u64)
    requires
        s.recoverable < u32::MAX,
        s.degradable < u32::MAX,
        s.severe < u32::MAX,
    ensures
        ({
            let t = after_failure(s, severity, now);
            let one = |yes: bool|
                if yes {
                    1int
                } else {
                    0
                };
            &&& t.recoverable == s.recoverable + one(severity is Recoverable)
            &&& t.degradable == s.degradable + one(severity is Degradable)
            &&& t.severe == s.severe + one(severity is Severe)
            &&& t.last_recoverable_ms == if severity is Recoverable {
                now % 0x1_0000_0000
            } else {
                s.last_recoverable_ms as u64
            }
            &&& t.last_degradable_ms == if severity is Degradable {
                now % 0x1_0000_0000
            } else {
                s.last_degradable_ms as u64
            }
            &&& t.last_severe_ms == if severity is Severe {
                now % 0x1_0000_0000
            } else {
                s.last_severe_ms as u64
            }
            &&& t.mode == s.mode
        }),
{
}

/// An action changes the service level where it says so, and nothing else.
pub proof fn law_action_sets_the_level(s: RecoveryState, m: DegradedMode, ms: u64)
    ensures
        after_action(s, RecoveryAction::Degrade(m)).mode == m,
        after_action(s, RecoveryAction::Degrade(m)) == (RecoveryState { mode: m, ..s }),
        after_action(s, RecoveryAction::Retry(ms)) == s,
        after_action(s, RecoveryAction::Continue) == s,
{
}

/// What each level keeps: all features in normal operation, BLE and local IO in the next
/// two levels, local IO alone at the minimum.
pub proof fn law_levels_keep_their_features(f: Feature)
    ensures
        allows(DegradedMode::Normal, f),
        allows(DegradedMode::BleOnly, f) <==> f == Feature::Ble || f == Feature::LocalIo,
        allows(DegradedMode::LocalOnly, f) <==> f == Feature::Ble || f == Feature::LocalIo,
        allows(DegradedMode::Minimal, f) <==> f == Feature::LocalIo,
        mode_code(DegradedMode::Normal) < mode_code(DegradedMode::BleOnly) < mode_code(DegradedMode::LocalOnly)
            < mode_code(DegradedMode::Minimal),
{
}

/// The log holds a hundred entries. A new one stands last with what was logged, and the
/// number of writes goes up by one.
pub proof fn law_log_entry_stands_last(
    l: LogView,
    level: u8,
    module_id: u8,
    code: u16,
    context: u32,
    now_s: u32,
    i: int,
)
    requires
        l.ring.entries.len() <= 100,
        l.ring.write_count < u32::MAX,
        0 <= i,
    ensures
        ({
            let n = logged(l, level, module_id, code, context, now_s);
            let (before, after) = (l.ring.entries, n.ring.entries);
            let e = after.last();
            &&& after.len() == if before.len() < 100 {
                before.len() + 1
            } else {
                100
            }
            &&& e.level == level
            &&& e.module_id == module_id
            &&& e.code == code
            &&& e.context == context
            &&& e.timestamp_s == now_s
            &&& before.len() < 100 && i < before.len() ==> after[i] == before[i]
            &&& before.len() == 100 && i < 99 ==> after[i] == before[i + 1]
            &&& n.published_count == l.ring.write_count + 1
            &&& n.ring.write_count == l.ring.write_count + 1
        }),
{
}


/// The message of an error opens with what failed.
pub proof fn law_messages_name_what_failed(e: AppError)
    ensures
        e is Hal ==> e.label() == "hal: "@,
        e is Ethernet ==> e.label() == "ethernet: "@,
        e is BleMesh ==> e.label() == "ble-mesh: "@,
        e is Modbus ==> e.label() == "modbus: "@,
        e is Rs485 ==> e.label() == "rs485: "@,
        e is Io ==> e.label() == "io: "@,
        e is Channel ==> e.label() == "channel: "@,
        e is Config ==> e.label() == "config: "@,
        e is Sys ==> e.label() == "sys: "@,
        e is Ota ==> e.label() == "ota: "@,
        e is IoErr ==> e.label() == "io-err: "@,
        e is Other ==> e.label() == "other: "@,
{
}

} // verus!

//! Graded fault recovery.
//!
//! A fault never restarts the device. Light faults are retried, and repeated or
//! heavier ones reduce the service step by step.

use vstd::prelude::*;

verus! {

/// Severity of a fault.
#[derive(Debug, Clone, Copy, PartialEq, Eq, Structural)]
pub enum Severity {
    /// A retry is enough.
    Recoverable,
    /// The feature concerned can be switched off.
    Degradable,
    /// The device falls back to local operation.
    Severe,
    /// Only the minimum keeps running.
    Fatal,
}

/// Service level.
#[derive(Debug, Clone, Copy, PartialEq, Eq, Structural)]
pub enum DegradedMode {
    Normal,
    BleOnly,
    LocalOnly,
    Minimal,
}

/// A feature that a service level may switch off.
#[derive(Debug, Clone, Copy, PartialEq, Eq, Structural)]
pub enum Feature {
    Ble,
    ModbusTcp,
    ModbusRtuMaster,
    ModbusRtuSlave,
    Ethernet,
    LocalIo,
    Nvs,
}

/// Fault counters and service level.
#[derive(Debug, Clone, Copy, PartialEq, Eq, Structural)]
pub struct Stats {
    pub recoverable: u32,
    pub degradable: u32,
    pub severe: u32,
    pub mode: DegradedMode,
}

/// What to do about a fault.
#[derive(Debug, Clone, Copy, PartialEq, Eq, Structural)]
pub enum RecoveryAction {
    Continue,
    /// Try again after a delay (ms).
    Retry(u64),
    /// Change the service level.
    Degrade(DegradedMode),
}

/// State of the recovery machine: the counters, the time of the latest fault of
/// each kind (ms since start-up) and the service level.
#[derive(Debug, Clone, Copy, PartialEq, Eq, Structural)]
pub struct RecoveryState {
    pub recoverable: u32,
    pub degradable: u32,
    pub severe: u32,
    pub last_recoverable_ms: u32,
    pub last_degradable_ms: u32,
    pub last_severe_ms: u32,
    pub mode: DegradedMode,
}

/// No faults, full service.
pub open spec fn recovery_start() -> RecoveryState {
    RecoveryState {
        recoverable: 0,
        degradable: 0,
        severe: 0,
        last_recoverable_ms: 0,
        last_degradable_ms: 0,
        last_severe_ms: 0,
        mode: DegradedMode::Normal,
    }
}

impl RecoveryState {
    pub fn new() -> (r: Self)
        ensures
            r == recovery_start(),
    {
        RecoveryState {
            recoverable: 0,
            degradable: 0,
            severe: 0,
            last_recoverable_ms: 0,
            last_degradable_ms: 0,
            last_severe_ms: 0,
            mode: DegradedMode::Normal,
        }
    }
}

/// A time in a 32-bit millisecond counter.
pub open spec fn wrapped_ms(now: u64) -> u32 {
    (now % 0x1_0000_0000) as u32
}

/// The state after a fault was recorded.
pub open spec fn after_failure(s: RecoveryState, severity: Severity, now: u64) -> RecoveryState {
    match severity {
        Severity::Recoverable => RecoveryState {
            recoverable: s.recoverable.wrapping_add(1),
            last_recoverable_ms: wrapped_ms(now),
            ..s
        },
        Severity::Degradable => RecoveryState {
            degradable: s.degradable.wrapping_add(1),
            last_degradable_ms: wrapped_ms(now),
            ..s
        },
        Severity::Severe => RecoveryState {
            severe: s.severe.wrapping_add(1),
            last_severe_ms: wrapped_ms(now),
            ..s
        },
        Severity::Fatal => s,
    }
}

/// Records a fault at a time (ms since start-up).
pub fn record_failure(state: &mut RecoveryState, severity: Severity, now: u64)
    ensures
        *final(state) == after_failure(*old(state), severity, now),
{
    let ms: u32 = (now % 0x1_0000_0000) as u32;
    match severity {
        Severity::Recoverable => {
            state.recoverable = state.recoverable.wrapping_add(1);
            state.last_recoverable_ms = ms;
        },
        Severity::Degradable => {
            state.degradable = state.degradable.wrapping_add(1);
            state.last_degradable_ms = ms;
        },
        Severity::Severe => {
            state.severe = state.severe.wrapping_add(1);
            state.last_severe_ms = ms;
        },
        Severity::Fatal => {},
    }
}

/// The service level.
pub fn mode(state: &RecoveryState) -> (r: DegradedMode)
    ensures
        r == state.mode,
{
    state.mode
}

/// Changes the service level.
pub fn enter_mode(state: &mut RecoveryState, new_mode: DegradedMode)
    ensures
        *final(state) == (RecoveryState { mode: new_mode, ..*old(state) }),
{
    state.mode = new_mode;
}

/// Register code of a service level.
pub open spec fn mode_code(m: DegradedMode) -> u16 {
    match m {
        DegradedMode::Normal => 0,
        DegradedMode::BleOnly => 1,
        DegradedMode::LocalOnly => 2,
        DegradedMode::Minimal => 3,
    }
}

/// Register code of a service level.
pub fn code_of_mode(m: DegradedMode) -> (r: u16)
    ensures
        r == mode_code(m),
{
    match m {
        DegradedMode::Normal => 0,
        DegradedMode::BleOnly => 1,
        DegradedMode::LocalOnly => 2,
        DegradedMode::Minimal => 3,
    }
}

/// Whether a service level keeps a feature.
pub open spec fn allows(m: DegradedMode, f: Feature) -> bool {
    match m {
        DegradedMode::Normal => true,
        DegradedMode::BleOnly => f is Ble || f is LocalIo,
        DegradedMode::LocalOnly => f is Ble || f is LocalIo,
        DegradedMode::Minimal => f is LocalIo,
    }
}

/// Whether the service level keeps a feature.
pub fn is_feature_allowed(state: &RecoveryState, feature: Feature) -> (r: bool)
    ensures
        r == allows(state.mode, feature),
{
    match state.mode {
        DegradedMode::Normal => true,
        DegradedMode::BleOnly => feature == Feature::Ble || feature == Feature::LocalIo,
        DegradedMode::LocalOnly => feature == Feature::Ble || feature == Feature::LocalIo,
        DegradedMode::Minimal => feature == Feature::LocalIo,
    }
}

/// The counters and the service level.
pub fn stats(state: &RecoveryState) -> (r: Stats)
    ensures
        r == (Stats {
            recoverable: state.recoverable,
            degradable: state.degradable,
            severe: state.severe,
            mode: state.mode,
        }),
{
    Stats {
        recoverable: state.recoverable,
        degradable: state.degradable,
        severe: state.severe,
        mode: state.mode,
    }
}

/// What to do about a fault that occurred so many times in a row.
pub open spec fn action_for(severity: Severity, consecutive: u32) -> RecoveryAction {
    match severity {
        Severity::Recoverable => RecoveryAction::Retry(100),
        Severity::Degradable => if consecutive >= 10 {
            RecoveryAction::Degrade(DegradedMode::Minimal)
        } else if consecutive >= 5 {
            RecoveryAction::Degrade(DegradedMode::LocalOnly)
        } else if consecutive >= 2 {
            RecoveryAction::Degrade(DegradedMode::BleOnly)
        } else {
            RecoveryAction::Retry(1000)
        },
        Severity::Severe => RecoveryAction::Degrade(DegradedMode::LocalOnly),
        Severity::Fatal => RecoveryAction::Degrade(DegradedMode::Minimal),
    }
}

/// Decides what to do about a fault.
pub fn decide_action(severity: Severity, consecutive_failures: u32) -> (r: RecoveryAction)
    ensures
        r == action_for(severity, consecutive_failures),
{
    match severity {
        Severity::Recoverable => RecoveryAction::Retry(100),
        Severity::Degradable => {
            if consecutive_failures >= 10 {
                RecoveryAction::Degrade(DegradedMode::Minimal)
            } else if consecutive_failures >= 5 {
                RecoveryAction::Degrade(DegradedMode::LocalOnly)
            } else if consecutive_failures >= 2 {
                RecoveryAction::Degrade(DegradedMode::BleOnly)
            } else {
                RecoveryAction::Retry(1000)
            }
        },
        Severity::Severe => RecoveryAction::Degrade(DegradedMode::LocalOnly),
        Severity::Fatal => RecoveryAction::Degrade(DegradedMode::Minimal),
    }
}

/// The state after an action: only a change of level changes it.
pub open spec fn after_action(s: RecoveryState, action: RecoveryAction) -> RecoveryState {
    match action {
        RecoveryAction::Degrade(m) => RecoveryState { mode: m, ..s },
        _ => s,
    }
}

/// Carries out an action.
pub fn apply_action(state: &mut RecoveryState, action: RecoveryAction)
    ensures
        *final(state) == after_action(*old(state), action),
{
    match action {
        RecoveryAction::Continue => {},
        RecoveryAction::Retry(_) => {},
        RecoveryAction::Degrade(m) => {
            enter_mode(state, m);
        },
    }
}

/// Records a fault, decides what to do and carries it out.
pub fn handle_failure(state: &mut RecoveryState, severity: Severity, consecutive: u32, now: u64) -> (r:
    RecoveryAction)
    ensures
        r == action_for(severity, consecutive),
        *final(state) == after_action(after_failure(*old(state), severity, now), r),
{
    record_failure(state, severity, now);
    let action = decide_action(severity, consecutive);
    apply_action(state, action);
    action
}

// ---- Laws ----

/// More faults in a row never restore service: the level only goes down.
pub proof fn law_degradation_is_monotone(a: u32, b: u32)
    requires
        a <= b,
    ensures
        ({
            let level = |n: u32| match action_for(Severity::Degradable, n) {
                RecoveryAction::Degrade(m) => mode_code(m),
                _ => 0,
            };
            level(a) <= level(b)
        }),
{
}

/// Recoverable faults are always retried and never reduce the service.
pub proof fn law_recoverable_keeps_service(s: RecoveryState, n: u32)
    ensures
        action_for(Severity::Recoverable, n) is Retry,
        after_action(s, action_for(Severity::Recoverable, n)) == s,
{
}

/// Local IO keeps running at every level, and a lower level never has a feature
/// that a higher one lacks.
pub proof fn law_levels_are_nested(m: DegradedMode, lower: DegradedMode, f: Feature)
    requires
        mode_code(m) <= mode_code(lower),
    ensures
        allows(m, Feature::LocalIo),
        allows(lower, f) ==> allows(m, f),
{
}

} // verus!

//! The state that all channels of the gateway share.

use crate::bus::config_state::ConfigState;
use crate::bus::event_bus::{EventBus, IoEvent};
use crate::bus::io_global::{io_zero, IoBundle, IoView};
use crate::bus::storage_state::{storage_start, zero_words, StorageState, StorageStateView};
use crate::control_logic::{control_start, ControlState, ControlView};
use crate::device::system_config::{cfg_default, CfgView};
use crate::device::DeviceCmd;
use crate::device_config::{DeviceConfigTable, TableView};
use crate::error::recovery::{recovery_start, RecoveryState};
use crate::error::ringlog::{LogState, LogView, RingLogView};
use crate::modbus::rtu_master::{rtu_start, RtuResults, RtuView};
use crate::modbus::shared::{Rs485Stats, Rs485StatsView};
use crate::sync::MpscRing;
use vstd::prelude::*;

verus! {

/// Capacity of the mailbox of the storage task.
pub const MAILBOX_CAPACITY: usize = 32;

/// The shared state.
pub struct Gateway {
    pub io: IoBundle,
    /// The outputs wait to be driven.
    pub do_notify: bool,
    pub storage: StorageState,
    pub config: ConfigState,
    /// The connected devices.
    pub devices: DeviceConfigTable,
    pub control: ControlState,
    /// Requests to the storage task.
    pub mailbox: MpscRing<DeviceCmd, 32>,
    pub rs485: Rs485Stats,
    pub rtu: RtuResults,
    /// Switch status received by multicast.
    pub switch_words: [u16; 16],
    pub recovery: RecoveryState,
    pub log: LogState,
    /// BLE frames dropped because the send queue was full.
    pub ble_tx_drops: u32,
    /// The BLE name changed and waits to be advertised.
    pub ble_name_pending: bool,
    pub events: EventBus,
}

/// The shared state as plain values.
#[verifier::ext_equal]
pub struct GatewayView {
    pub io: IoView,
    pub do_notify: bool,
    pub storage: StorageStateView,
    pub config: Option<CfgView>,
    pub devices: TableView,
    pub control: ControlView,
    pub mailbox: Seq<DeviceCmd>,
    pub rs485: Rs485StatsView,
    pub rtu: RtuView,
    pub switch_words: Seq<u16>,
    pub recovery: RecoveryState,
    pub log: LogView,
    pub ble_tx_drops: u32,
    pub ble_name_pending: bool,
    pub events: Seq<IoEvent>,
}

impl View for Gateway {
    type V = GatewayView;

    open spec fn view(&self) -> GatewayView {
        GatewayView {
            io: self.io@,
            do_notify: self.do_notify,
            storage: self.storage@,
            config: self.config@,
            devices: self.devices@,
            control: self.control@,
            mailbox: self.mailbox@,
            rs485: self.rs485@,
            rtu: self.rtu@,
            switch_words: self.switch_words@,
            recovery: self.recovery,
            log: self.log@,
            ble_tx_drops: self.ble_tx_drops,
            ble_name_pending: self.ble_name_pending,
            events: self.events@,
        }
    }
}

/// The state at power-on.
pub open spec fn gateway_start() -> GatewayView {
    GatewayView {
        io: io_zero(),
        do_notify: false,
        storage: storage_start(),
        config: Some(cfg_default()),
        devices: TableView { devices: Seq::empty(), stored_count: 0 },
        control: control_start(),
        mailbox: Seq::empty(),
        rs485: Rs485StatsView { comerr: zero_words(3), apperr: zero_words(3) },
        rtu: rtu_start(),
        switch_words: zero_words(16),
        recovery: recovery_start(),
        log: LogView { ring: RingLogView { entries: Seq::empty(), write_count: 0 }, published_count: 0 },
        ble_tx_drops: 0,
        ble_name_pending: false,
        events: Seq::empty(),
    }
}

impl Gateway {
    pub fn new() -> (r: Self)
        ensures
            r@ == gateway_start(),
    {
        let r = Gateway {
            io: IoBundle::new(),
            do_notify: false,
            storage: StorageState::new(),
            config: ConfigState::new(),
            devices: DeviceConfigTable::new(),
            control: ControlState::new(),
            mailbox: MpscRing::new(),
            rs485: Rs485Stats::new(),
            rtu: RtuResults::new(),
            switch_words: [0u16; 16],
            recovery: RecoveryState::new(),
            log: LogState::new(),
            ble_tx_drops: 0,
            ble_name_pending: false,
            events: EventBus::new(),
        };
        assert(r@ =~= gateway_start());
        r
    }
}

} // verus!

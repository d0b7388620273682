//! Supervision of the W5500 network chip.

use crate::bus::event_bus::{events_after, send_event, IoEvent};
use crate::bus::writes::config_clone;
use crate::bytes::{byte_of, dbyte, dword, make_dword};
use crate::device::system_config::{cfg_default, ipv4_str, ipv4_text, CfgView};
use crate::error::recovery::{
    action_for, after_action, after_failure, apply_action, decide_action, enter_mode, record_failure, DegradedMode,
    RecoveryAction, RecoveryState, Severity,
};
use crate::gateway::{Gateway, GatewayView};
use vstd::prelude::*;

verus! {

/// Period of the supervision (s).
pub const HEARTBEAT_PERIOD_S: u64 = 5;

/// MAC address that is used where none is configured.
pub const FALLBACK_MAC: [u8; 6] = [0x02, 0x00, 0x00, 0x00, 0x00, 0x01];

/// What the supervision knows.
#[derive(Debug, Clone, Copy, PartialEq, Eq, Structural)]
pub struct EthState {
    pub link_up: bool,
    /// Failures in a row.
    pub fail_count: u32,
}

impl EthState {
    /// The link counts as up until it is reported down.
    pub fn new() -> (r: Self)
        ensures
            r == (EthState { link_up: true, fail_count: 0 }),
    {
        EthState { link_up: true, fail_count: 0 }
    }
}

/// Whether the link is up.
pub fn link_up(eth: &EthState) -> (r: bool)
    ensures
        r == eth.link_up,
{
    eth.link_up
}

/// The link came up or went down.
pub fn on_link_event(eth: &mut EthState, connected: bool)
    ensures
        *final(eth) == (EthState { link_up: connected, ..*old(eth) }),
{
    eth.link_up = connected;
}

/// The four bytes of an address that arrives as a little-endian double word.
pub open spec fn address_bytes(raw: u32) -> Seq<u8> {
    seq![dbyte(raw, 0), dbyte(raw, 1), dbyte(raw, 2), dbyte(raw, 3)]
}

fn split_address(raw: u32) -> (r: [u8; 4])
    ensures
        r@ == address_bytes(raw),
{
    let r: [u8; 4] = [byte_of(raw, 0), byte_of(raw, 1), byte_of(raw, 2), byte_of(raw, 3)];
    assert(r@ =~= address_bytes(raw));
    r
}

/// An address in dotted form.
pub fn fmt_ip(addr: u32) -> (r: String)
    ensures
        r@ == ipv4_text(address_bytes(addr)),
{
    ipv4_str(&split_address(addr))
}

/// The network assigned an address.
pub fn on_ip_event(gw: &mut Gateway, ip_raw: u32, mask_raw: u32, gw_raw: u32)
    ensures
        final(gw)@.events.last() matches IoEvent::IpAssigned(ip, mask, gateway) && ip@ == address_bytes(ip_raw) && mask@
            == address_bytes(mask_raw) && gateway@ == address_bytes(gw_raw),
        final(gw)@ == (GatewayView {
            events: events_after(old(gw)@.events, final(gw)@.events.last()),
            ..old(gw)@
        }),
{
    let ip = split_address(ip_raw);
    let mask = split_address(mask_raw);
    let gateway = split_address(gw_raw);
    send_event(&mut gw.events, IoEvent::IpAssigned(ip, mask, gateway));
    assert(gw@ =~= (GatewayView {
        events: events_after(old(gw)@.events, IoEvent::IpAssigned(ip, mask, gateway)),
        ..old(gw)@
    }));
}

// ---- Supervision ----

/// Whether the network is reachable: the link is up and an address is assigned.
pub open spec fn reachable(eth: EthState, ip: Option<u32>) -> bool {
    eth.link_up && ip is Some && ip->0 != 0
}

/// Checks the network. `ip` is the address of the interface, `None` where it cannot
/// be had.
pub fn heartbeat_once(eth: &EthState, ip: Option<u32>) -> (r: bool)
    ensures
        r == reachable(*eth, ip),
{
    if !eth.link_up {
        return false;
    }
    match ip {
        Some(a) => a != 0,
        None => false,
    }
}

/// Failures in a row after one more.
pub open spec fn one_more(n: u32) -> u32 {
    if n == u32::MAX {
        n
    } else {
        (n + 1) as u32
    }
}

/// The supervision after a check.
pub open spec fn eth_after(eth: EthState, ip: Option<u32>) -> EthState {
    EthState {
        fail_count: if reachable(eth, ip) {
            0
        } else {
            one_more(eth.fail_count)
        },
        ..eth
    }
}

/// What a check asks for: from the second failure in a row on, what faults that
/// degrade ask for.
pub open spec fn eth_action(eth: EthState, ip: Option<u32>) -> Option<RecoveryAction> {
    let n = eth_after(eth, ip).fail_count;
    if n >= 2 {
        Some(action_for(Severity::Degradable, n))
    } else {
        None
    }
}

/// The recovery state after a check: service is restored with the network, the first
/// failure is recorded, and later ones degrade.
pub open spec fn recovery_after(s: RecoveryState, eth: EthState, ip: Option<u32>, now: u64) -> RecoveryState {
    if reachable(eth, ip) {
        if eth.fail_count > 0 {
            RecoveryState { mode: DegradedMode::Normal, ..s }
        } else {
            s
        }
    } else {
        match eth_action(eth, ip) {
            Some(a) => after_action(s, a),
            None => after_failure(s, Severity::Recoverable, now),
        }
    }
}

/// Checks the network and acts on it.
pub fn tick_eth_heartbeat(eth: &mut EthState, gw: &mut Gateway, ip: Option<u32>, now: u64) -> (r: Option<
    RecoveryAction,
>)
    ensures
        *final(eth) == eth_after(*old(eth), ip),
        r == eth_action(*old(eth), ip),
        final(gw)@ == (GatewayView {
            recovery: recovery_after(old(gw)@.recovery, *old(eth), ip, now),
            ..old(gw)@
        }),
{
    if heartbeat_once(eth, ip) {
        if eth.fail_count > 0 {
            enter_mode(&mut gw.recovery, DegradedMode::Normal);
        }
        eth.fail_count = 0;
        return None;
    }
    eth.fail_count = eth.fail_count.saturating_add(1);
    if eth.fail_count >= 2 {
        let action = decide_action(Severity::Degradable, eth.fail_count);
        apply_action(&mut gw.recovery, action);
        Some(action)
    } else {
        record_failure(&mut gw.recovery, Severity::Recoverable, now);
        None
    }
}

// ---- Settings ----

/// Settings of the network interface.
#[derive(Debug, Clone, Copy, PartialEq, Eq, Structural)]
pub enum NetifPlan {
    /// Wait for a lease.
    Dhcp,
    /// Stop the DHCP client and set these addresses.
    Static { ip: u32, mask: u32, gateway: u32, dns: u32 },
}

/// An address as the network stack takes it.
pub open spec fn address_of(b: Seq<u8>) -> u32 {
    dword(b[0], b[1], b[2], b[3])
}

/// The configuration that the interface is set up with: without a published one, the
/// factory settings without DHCP.
pub open spec fn netif_config(g: GatewayView) -> CfgView {
    match g.config {
        Some(c) => c,
        None => CfgView { dhcp: false, ..cfg_default() },
    }
}

/// Settings of the interface.
pub open spec fn netif_plan(c: CfgView) -> NetifPlan {
    if c.dhcp {
        NetifPlan::Dhcp
    } else {
        NetifPlan::Static {
            ip: address_of(c.ip),
            mask: address_of(c.mask),
            gateway: address_of(c.gateway),
            dns: address_of(c.dns),
        }
    }
}

fn to_ip4(b: [u8; 4]) -> (r: u32)
    ensures
        r == address_of(b@),
{
    make_dword(b[0], b[1], b[2], b[3])
}

/// The settings of the interface.
pub fn apply_netif_config(gw: &Gateway) -> (r: NetifPlan)
    ensures
        r == netif_plan(netif_config(gw@)),
{
    let known: bool = gw.config.snapshot.read().is_some();
    let mut cfg = config_clone(gw).cfg;
    if !known {
        cfg.dhcp = false;
    }
    if cfg.dhcp {
        NetifPlan::Dhcp
    } else {
        NetifPlan::Static {
            ip: to_ip4(cfg.ip),
            mask: to_ip4(cfg.mask),
            gateway: to_ip4(cfg.gateway),
            dns: to_ip4(cfg.dns),
        }
    }
}

/// The MAC address to set: the configured one.
pub fn mac_to_set(gw: &Gateway) -> (r: [u8; 6])
    ensures
        r@ == match gw@.config {
            Some(c) => c.eth_mac,
            None => FALLBACK_MAC@,
        },
{
    match gw.config.snapshot.read() {
        Some(s) => s.cfg.eth_mac,
        None => FALLBACK_MAC,
    }
}

// ---- Laws ----

/// A pulled cable is a failure at once, even while an address is still assigned.
pub proof fn law_pulled_cable_is_noticed(eth: EthState, ip: Option<u32>)
    requires
        !eth.link_up,
    ensures
        !reachable(eth, ip),
        eth_after(eth, ip).fail_count == one_more(eth.fail_count),
{
}

/// Once the network is back, nothing of the failures remains.
pub proof fn law_network_back_restores_service(s: RecoveryState, eth: EthState, ip: Option<u32>, now: u64)
    requires
        reachable(eth, ip),
        eth.fail_count > 0,
    ensures
        recovery_after(s, eth, ip, now).mode == DegradedMode::Normal,
        eth_after(eth, ip).fail_count == 0,
        eth_action(eth, ip) is None,
{
}

/// The addresses that are set are the configured ones.
pub proof fn law_static_addresses(b: Seq<u8>)
    requires
        b.len() == 4,
    ensures
        address_bytes(address_of(b)) == b,
{
    assert(address_bytes(address_of(b)) =~= b);
}


/// The network is reachable where the link is up and an address other than zero is
/// assigned.
pub proof fn law_reachable_with_link_and_address(eth: EthState, ip: Option<u32>)
    ensures
        reachable(eth, ip) <==> eth.link_up && (exists|a: u32| a != 0 && ip == Some(a)),
{
}

/// The supervision after `n` checks of a network that cannot be reached.
pub open spec fn failed_checks(eth: EthState, n: nat) -> EthState
    decreases n,
{
    if n == 0 {
        eth
    } else {
        eth_after(failed_checks(eth, (n - 1) as nat), None)
    }
}

/// The first failed check is noted as a light fault. From the second in a row on the
/// service leaves BLE, from the fifth on local operation, from the tenth on the minimum.
pub proof fn law_failed_checks_degrade(eth: EthState, s: RecoveryState, n: nat, now: u64)
    requires
        eth.fail_count == 0,
        n < 0xFFFF_FFFF,
        s.recoverable < u32::MAX,
    ensures
        ({
            let before = failed_checks(eth, n);
            let r = recovery_after(s, before, None, now);
            let a = eth_action(before, None);
            &&& before.fail_count == n
            &&& before.link_up == eth.link_up
            &&& n == 0 ==> a is None && r.mode == s.mode && r.recoverable == s.recoverable + 1
            &&& n >= 1 ==> a == Some(RecoveryAction::Degrade(r.mode)) && r.recoverable == s.recoverable
            &&& 1 <= n < 4 ==> r.mode == DegradedMode::BleOnly
            &&& 4 <= n < 9 ==> r.mode == DegradedMode::LocalOnly
            &&& 9 <= n ==> r.mode == DegradedMode::Minimal
        }),
    decreases n,
{
    if n > 0 {
        law_failed_checks_degrade(eth, s, (n - 1) as nat, now);
    }
}

/// While the network is reachable nothing is recorded and no level changes.
pub proof fn law_reachable_network_is_left_alone(s: RecoveryState, eth: EthState, ip: Option<u32>, now: u64)
    requires
        reachable(eth, ip),
        eth.fail_count == 0,
    ensures
        recovery_after(s, eth, ip, now) == s,
        eth_after(eth, ip) == eth,
        eth_action(eth, ip) is None,
{
}

/// Without DHCP the interface takes the configured addresses, first byte lowest.
pub proof fn law_interface_takes_the_settings(c: CfgView)
    requires
        c.shaped(),
    ensures
        c.dhcp <==> netif_plan(c) is Dhcp,
        netif_plan(c) matches NetifPlan::Static { ip, mask, gateway, dns } ==> {
            let number = |b: Seq<u8>| b[0] + 256 * b[1] + 65536 * b[2] + 16777216 * b[3];
            &&& ip == number(c.ip)
            &&& mask == number(c.mask)
            &&& gateway == number(c.gateway)
            &&& dns == number(c.dns)
        },
{
}


/// The interface is set up with the published configuration; without one it takes the
/// factory addresses and no lease.
pub proof fn law_interface_without_a_configuration(g: GatewayView)
    ensures
        g.config is Some ==> netif_config(g) == g.config->0,
        g.config is None ==> netif_plan(netif_config(g)) == (NetifPlan::Static {
            ip: (192 + 256 * 168 + 65536 * 51 + 16777216 * 221) as u32,
            mask: (255 + 256 * 255 + 65536 * 255) as u32,
            gateway: (192 + 256 * 168 + 65536 * 51 + 16777216 * 1) as u32,
            dns: (192 + 256 * 168 + 65536 * 51 + 16777216 * 1) as u32,
        }),
{
}

} // verus!

//! AT commands on the configuration.

use crate::ble_at::handlers::{ok_word, text, word_text};
use crate::ble_at::reply::{
    after_comma, answer, before_comma, cut, err, err_text, has_comma, ok_data, ok_line, ok_none, ok_text,
    parse_word, utf8, word_value, AtEffect, AtReply, AtRequest, ReplyView, RequestView,
};
use crate::bus::writes::{config_clone, current_config, publish_config, with_config};
use crate::config::regs;
use crate::device::system_config::{
    address_value, cfg_default, cfg_read, cfg_write, cfg_write_result, ipv4_text, mac_text, padded,
    parse_ipv4_chars, push_ipv4, push_mac, CfgView, Rs485Config, SystemConfig, WriteResult,
};
use crate::device::{posted, request_apply_config, DeviceCmd};
use crate::gateway::{Gateway, GatewayView};
use crate::text::{dec, hex, shown, push_dec, push_hex, split, split_at_each, trim, trimmed, until_zero};
use vstd::prelude::*;
use vstd::utf8::encode_utf8;

verus! {

/// A zero-padded field with the given bytes, of which there must not be too many.
fn field<const N: usize>(zero: [u8; N], bytes: &Vec<u8>) -> (r: [u8; N])
    requires
        bytes@.len() <= N,
        zero@ == padded(seq![], N as nat),
    ensures
        r@ == padded(bytes@, N as nat),
{
    let mut out: [u8; N] = zero;
    let mut i: usize = 0;
    while i < bytes.len()
        invariant
            i <= bytes@.len() <= N,
            forall|j: int| 0 <= j < i ==> out@[j] == bytes@[j],
            forall|j: int| i <= j < N ==> out@[j] == 0,
        decreases bytes@.len() - i,
    {
        out[i] = bytes[i];
        i += 1;
    }
    assert(out@ =~= padded(bytes@, N as nat));
    out
}

// ---- CFGSN, CFGNAME, CFGBTNAME ----

/// AT+CFGSN[=<sn>]
pub open spec fn cfgsn_effect(g: GatewayView, args: Seq<char>) -> AtEffect {
    let c = current_config(g);
    let bytes = encode_utf8(trimmed(args));
    if trimmed(args).len() == 0 {
        answer(g, ok_text(shown(until_zero(c.sn))))
    } else if bytes.len() > 32 {
        answer(g, err_text(10, "sn too long (max 32)"@))
    } else {
        answer(with_config(g, CfgView { sn: padded(bytes, 32), ..c }), ok_line())
    }
}

pub fn handle_cfgsn(gw: &mut Gateway, args: &[char]) -> (r: AtReply)
    ensures
        r@ == cfgsn_effect(old(gw)@, args@).reply,
        final(gw)@ == cfgsn_effect(old(gw)@, args@).g,
{
    let value = trim(args);
    let mut cs = config_clone(gw);
    if value.len() == 0 {
        let sn = cs.cfg.sn_str();
        return text(ok_data(sn.as_str()));
    }
    let bytes = utf8(value);
    if bytes.len() > 32 {
        return text(err(10, "sn too long (max 32)"));
    }
    let zero: [u8; 32] = [0u8; 32];
    assert(zero@ =~= padded(seq![], 32));
    cs.cfg.sn = field(zero, &bytes);
    publish_config(gw, cs);
    text(ok_none())
}

/// AT+CFGNAME[=<name>]
pub open spec fn cfgname_effect(g: GatewayView, args: Seq<char>) -> AtEffect {
    let c = current_config(g);
    let bytes = encode_utf8(trimmed(args));
    if trimmed(args).len() == 0 {
        answer(g, ok_text(shown(until_zero(c.name))))
    } else if bytes.len() > 16 {
        answer(g, err_text(10, "name too long (max 16)"@))
    } else {
        answer(with_config(g, CfgView { name: padded(bytes, 16), ..c }), ok_line())
    }
}

pub fn handle_cfgname(gw: &mut Gateway, args: &[char]) -> (r: AtReply)
    ensures
        r@ == cfgname_effect(old(gw)@, args@).reply,
        final(gw)@ == cfgname_effect(old(gw)@, args@).g,
{
    let value = trim(args);
    let mut cs = config_clone(gw);
    if value.len() == 0 {
        let name = cs.cfg.name_str();
        return text(ok_data(name.as_str()));
    }
    let bytes = utf8(value);
    if bytes.len() > 16 {
        return text(err(10, "name too long (max 16)"));
    }
    let zero: [u8; 16] = [0u8; 16];
    assert(zero@ =~= padded(seq![], 16));
    cs.cfg.name = field(zero, &bytes);
    publish_config(gw, cs);
    text(ok_none())
}

/// AT+CFGBTNAME[=<name>]
pub open spec fn cfgbtname_effect(g: GatewayView, args: Seq<char>) -> AtEffect {
    let c = current_config(g);
    let bytes = encode_utf8(trimmed(args));
    if trimmed(args).len() == 0 {
        answer(g, ok_text(shown(until_zero(c.ble_name))))
    } else if bytes.len() > 8 {
        answer(g, err_text(10, "ble name too long (max 8)"@))
    } else {
        answer(with_config(g, CfgView { ble_name: padded(bytes, 8), ..c }), ok_line())
    }
}

pub fn handle_cfgbtname(gw: &mut Gateway, args: &[char]) -> (r: AtReply)
    ensures
        r@ == cfgbtname_effect(old(gw)@, args@).reply,
        final(gw)@ == cfgbtname_effect(old(gw)@, args@).g,
{
    let value = trim(args);
    let mut cs = config_clone(gw);
    if value.len() == 0 {
        let name = cs.cfg.ble_name_str();
        return text(ok_data(name.as_str()));
    }
    let bytes = utf8(value);
    if bytes.len() > 8 {
        return text(err(10, "ble name too long (max 8)"));
    }
    let zero: [u8; 8] = [0u8; 8];
    assert(zero@ =~= padded(seq![], 8));
    cs.cfg.ble_name = field(zero, &bytes);
    publish_config(gw, cs);
    text(ok_none())
}

// ---- CFGIP ----

/// Network settings as text.
pub open spec fn network_text(c: CfgView) -> Seq<char> {
    Seq::<char>::empty() + "ip="@ + ipv4_text(c.ip) + ",mask="@ + ipv4_text(c.mask) + ",gw="@ + ipv4_text(
        c.gateway,
    ) + ",dns="@ + ipv4_text(c.dns) + ",dhcp="@ + dec(
        if c.dhcp {
            1
        } else {
            0
        },
    )
}

/// A dotted address.
pub open spec fn ip_value(s: Seq<char>) -> Option<Seq<u8>> {
    address_value(s, '.', 10, 4)
}

/// AT+CFGIP[=<ip>,<mask>,<gw>[,<dns>]]
pub open spec fn cfgip_effect(g: GatewayView, args: Seq<char>) -> AtEffect {
    let c = current_config(g);
    let t = trimmed(args);
    let parts = split(t, ',');
    if t.len() == 0 {
        answer(g, ok_text(network_text(c)))
    } else if parts.len() < 3 || parts.len() > 4 {
        answer(g, err_text(10, "usage: AT+CFGIP=<ip>,<mask>,<gw>[,<dns>]"@))
    } else if ip_value(parts[0]) is None {
        answer(g, err_text(11, "invalid ip"@))
    } else if ip_value(parts[1]) is None {
        answer(g, err_text(11, "invalid mask"@))
    } else if ip_value(parts[2]) is None {
        answer(g, err_text(11, "invalid gw"@))
    } else {
        answer(
            with_config(
                g,
                CfgView {
                    ip: ip_value(parts[0])->0,
                    mask: ip_value(parts[1])->0,
                    gateway: ip_value(parts[2])->0,
                    dns: if parts.len() == 3 {
                        ip_value(parts[2])->0
                    } else if ip_value(parts[3]) is Some {
                        ip_value(parts[3])->0
                    } else {
                        seq![192, 168, 1, 1]
                    },
                    dhcp: false,
                    ..c
                },
            ),
            ok_line(),
        )
    }
}

fn network_info(c: &SystemConfig) -> (r: String)
    ensures
        r@ == network_text(c@),
{
    let mut s = String::new();
    s.push_str("ip=");
    push_ipv4(&mut s, &c.ip);
    s.push_str(",mask=");
    push_ipv4(&mut s, &c.mask);
    s.push_str(",gw=");
    push_ipv4(&mut s, &c.gateway);
    s.push_str(",dns=");
    push_ipv4(&mut s, &c.dns);
    s.push_str(",dhcp=");
    push_dec(
        &mut s,
        if c.dhcp {
            1
        } else {
            0
        },
    );
    s
}

pub fn handle_cfgip(gw: &mut Gateway, args: &[char]) -> (r: AtReply)
    ensures
        r@ == cfgip_effect(old(gw)@, args@).reply,
        final(gw)@ == cfgip_effect(old(gw)@, args@).g,
{
    let value = trim(args);
    let mut cs = config_clone(gw);
    if value.len() == 0 {
        let s = network_info(&cs.cfg);
        return text(ok_data(s.as_str()));
    }
    let parts = split_at_each(value, ',');
    if parts.len() < 3 || parts.len() > 4 {
        return text(err(10, "usage: AT+CFGIP=<ip>,<mask>,<gw>[,<dns>]"));
    }
    assert(parts@[0]@ == split(value@, ',')[0] && parts@[1]@ == split(value@, ',')[1] && parts@[2]@ == split(
        value@,
        ',',
    )[2]);
    let ip = match parse_ipv4_chars(parts[0]) {
        Some(v) => v,
        None => {
            return text(err(11, "invalid ip"));
        },
    };
    let mask = match parse_ipv4_chars(parts[1]) {
        Some(v) => v,
        None => {
            return text(err(11, "invalid mask"));
        },
    };
    let gateway = match parse_ipv4_chars(parts[2]) {
        Some(v) => v,
        None => {
            return text(err(11, "invalid gw"));
        },
    };
    let dns: [u8; 4] = if parts.len() == 4 {
        assert(parts@[3]@ == split(value@, ',')[3]);
        match parse_ipv4_chars(parts[3]) {
            Some(v) => v,
            None => [192, 168, 1, 1],
        }
    } else {
        gateway
    };
    assert(parts@.len() == 4 && ip_value(split(value@, ',')[3]) is None ==> dns@ =~= seq![192u8, 168, 1, 1]);
    cs.cfg.ip = ip;
    cs.cfg.mask = mask;
    cs.cfg.gateway = gateway;
    cs.cfg.dns = dns;
    cs.cfg.dhcp = false;
    publish_config(gw, cs);
    text(ok_none())
}

// ---- CFGDHCP, CFGMESH ----

/// AT+CFGDHCP=<0|1>
pub open spec fn cfgdhcp_effect(g: GatewayView, args: Seq<char>) -> AtEffect {
    match word_value(args) {
        None => answer(g, err_text(10, "invalid value"@)),
        Some(v) => answer(
            with_config(g, CfgView { dhcp: v != 0, ..current_config(g) }),
            ok_text("dhcp="@ + dec(v)),
        ),
    }
}

pub fn handle_cfgdhcp(gw: &mut Gateway, args: &[char]) -> (r: AtReply)
    ensures
        r@ == cfgdhcp_effect(old(gw)@, args@).reply,
        final(gw)@ == cfgdhcp_effect(old(gw)@, args@).g,
{
    let v: u16 = match parse_word(args) {
        Some(v) => v,
        None => {
            return text(err(10, "invalid value"));
        },
    };
    let mut cs = config_clone(gw);
    cs.cfg.dhcp = v != 0;
    publish_config(gw, cs);
    let mut s = "dhcp=".to_owned();
    push_dec(&mut s, v as u64);
    text(ok_data(s.as_str()))
}

/// AT+CFGMESH=<0|1>
pub open spec fn cfgmesh_effect(g: GatewayView, args: Seq<char>) -> AtEffect {
    match word_value(args) {
        None => answer(g, err_text(10, "invalid value"@)),
        Some(v) => answer(
            with_config(g, CfgView { ble_mesh_enable: v != 0, ..current_config(g) }),
            ok_text("ble_mesh="@ + dec(v)),
        ),
    }
}

pub fn handle_cfgmesh(gw: &mut Gateway, args: &[char]) -> (r: AtReply)
    ensures
        r@ == cfgmesh_effect(old(gw)@, args@).reply,
        final(gw)@ == cfgmesh_effect(old(gw)@, args@).g,
{
    let v: u16 = match parse_word(args) {
        Some(v) => v,
        None => {
            return text(err(10, "invalid value"));
        },
    };
    let mut cs = config_clone(gw);
    cs.cfg.ble_mesh_enable = v != 0;
    publish_config(gw, cs);
    let mut s = "ble_mesh=".to_owned();
    push_dec(&mut s, v as u64);
    text(ok_data(s.as_str()))
}

// ---- CFGMAC, CFGBTMAC ----

/// AT+CFGMAC
pub fn handle_cfgmac(gw: &Gateway) -> (r: AtReply)
    ensures
        r@ == ReplyView::Text(ok_text(mac_text(current_config(gw@).eth_mac))),
{
    let s = config_clone(gw).cfg.mac_str();
    text(ok_data(s.as_str()))
}

/// AT+CFGBTMAC
pub fn handle_cfgbtmac(gw: &Gateway) -> (r: AtReply)
    ensures
        r@ == ReplyView::Text(ok_text(mac_text(current_config(gw@).ble_mac))),
{
    let s = config_clone(gw).cfg.ble_mac_str();
    text(ok_data(s.as_str()))
}

// ---- CFG485 ----

/// Settings of a port as text.
pub open spec fn port_text(i: nat, p: Rs485Config) -> Seq<char> {
    Seq::<char>::empty() + "idx="@ + dec(i) + ",baud="@ + dec(p.baudrate as nat) + ",data="@ + dec(
        p.data_bits as nat,
    ) + ",stop="@ + dec(p.stop_bits as nat) + ",parity="@ + dec(p.parity as nat) + ",slave="@ + dec(
        p.slave_addr as nat,
    ) + ",mode="@ + dec(p.mode as nat)
}

/// Whether a part is one of the words 0, 1, 2 or a subset of them.
pub open spec fn part_in(parts: Seq<Seq<char>>, i: int, low: nat, high: nat) -> bool {
    word_value(parts[i]) matches Some(v) && low <= v <= high
}

/// The settings that seven parts give a port; the baud rate is in hundreds.
pub open spec fn port_with_parts(p: Rs485Config, parts: Seq<Seq<char>>) -> Rs485Config {
    Rs485Config {
        baudrate: (word_value(parts[1])->0 * 100) as u32,
        data_bits: word_value(parts[2])->0 as u8,
        stop_bits: word_value(parts[3])->0 as u8,
        parity: word_value(parts[4])->0 as u8,
        slave_addr: (word_value(parts[5])->0 % 256) as u8,
        mode: word_value(parts[6])->0 as u8,
        ..p
    }
}

/// AT+CFG485=<idx>[,<baud>,<data>,<stop>,<parity>,<slave>,<mode>]
pub open spec fn cfg485_effect(g: GatewayView, args: Seq<char>) -> AtEffect {
    let c = current_config(g);
    let parts = split(args, ',');
    if !part_in(parts, 0, 0, 1) {
        answer(g, err_text(11, "invalid idx (0..1)"@))
    } else {
        let i = word_value(parts[0])->0;
        if parts.len() == 1 {
            answer(g, ok_text(port_text(i, c.rs485[i as int])))
        } else if parts.len() != 7 {
            answer(g, err_text(10, "expected 1 or 7 args"@))
        } else if word_value(parts[1]) is None {
            answer(g, err_text(11, "invalid baud"@))
        } else if !part_in(parts, 2, 7, 8) {
            answer(g, err_text(11, "data_bits must be 7 or 8"@))
        } else if !part_in(parts, 3, 1, 2) {
            answer(g, err_text(11, "stop_bits must be 1 or 2"@))
        } else if !part_in(parts, 4, 0, 2) {
            answer(g, err_text(11, "parity must be 0/1/2"@))
        } else if word_value(parts[5]) is None {
            answer(g, err_text(11, "invalid slave"@))
        } else if !part_in(parts, 6, 0, 2) {
            answer(g, err_text(11, "mode must be 0/1/2"@))
        } else {
            let p = port_with_parts(c.rs485[i as int], parts);
            answer(with_config(g, CfgView { rs485: c.rs485.update(i as int, p), ..c }), ok_line())
        }
    }
}

/// A part that is a word between two bounds.
fn bounded_part(part: &[char], low: u16, high: u16) -> (r: Option<u16>)
    ensures
        r is Some <==> (word_value(part@) matches Some(v) && low <= v <= high),
        r is Some ==> r->0 == word_value(part@)->0,
{
    match parse_word(part) {
        Some(v) => {
            if low <= v && v <= high {
                Some(v)
            } else {
                None
            }
        },
        None => None,
    }
}

fn port_info(i: usize, p: &Rs485Config) -> (r: String)
    ensures
        r@ == port_text(i as nat, *p),
{
    let mut s = String::new();
    s.push_str("idx=");
    push_dec(&mut s, i as u64);
    s.push_str(",baud=");
    push_dec(&mut s, p.baudrate as u64);
    s.push_str(",data=");
    push_dec(&mut s, p.data_bits as u64);
    s.push_str(",stop=");
    push_dec(&mut s, p.stop_bits as u64);
    s.push_str(",parity=");
    push_dec(&mut s, p.parity as u64);
    s.push_str(",slave=");
    push_dec(&mut s, p.slave_addr as u64);
    s.push_str(",mode=");
    push_dec(&mut s, p.mode as u64);
    s
}

pub fn handle_cfg485(gw: &mut Gateway, args: &[char]) -> (r: AtReply)
    ensures
        r@ == cfg485_effect(old(gw)@, args@).reply,
        final(gw)@ == cfg485_effect(old(gw)@, args@).g,
{
    let parts = split_at_each(args, ',');
    let ghost sp = split(args@, ',');
    assert(forall|j: int| 0 <= j < parts@.len() ==> (#[trigger] parts@[j])@ == sp[j]);
    assert(parts@[0]@ == sp[0]);
    let i: usize = match bounded_part(parts[0], 0, 1) {
        Some(v) => v as usize,
        None => {
            return text(err(11, "invalid idx (0..1)"));
        },
    };
    let mut cs = config_clone(gw);
    if parts.len() == 1 {
        let s = port_info(i, &cs.cfg.rs485[i]);
        return text(ok_data(s.as_str()));
    }
    if parts.len() != 7 {
        return text(err(10, "expected 1 or 7 args"));
    }
    assert(parts@[1]@ == sp[1] && parts@[2]@ == sp[2] && parts@[3]@ == sp[3] && parts@[4]@ == sp[4] && parts@[5]@
        == sp[5] && parts@[6]@ == sp[6]);
    let baud: u16 = match parse_word(parts[1]) {
        Some(v) => v,
        None => {
            return text(err(11, "invalid baud"));
        },
    };
    let data: u16 = match bounded_part(parts[2], 7, 8) {
        Some(v) => v,
        None => {
            return text(err(11, "data_bits must be 7 or 8"));
        },
    };
    let stop: u16 = match bounded_part(parts[3], 1, 2) {
        Some(v) => v,
        None => {
            return text(err(11, "stop_bits must be 1 or 2"));
        },
    };
    let parity: u16 = match bounded_part(parts[4], 0, 2) {
        Some(v) => v,
        None => {
            return text(err(11, "parity must be 0/1/2"));
        },
    };
    let slave: u16 = match parse_word(parts[5]) {
        Some(v) => v,
        None => {
            return text(err(11, "invalid slave"));
        },
    };
    let mode: u16 = match bounded_part(parts[6], 0, 2) {
        Some(v) => v,
        None => {
            return text(err(11, "mode must be 0/1/2"));
        },
    };
    let mut p: Rs485Config = cs.cfg.rs485[i];
    p.baudrate = (baud as u32) * 100;
    p.data_bits = data as u8;
    p.stop_bits = stop as u8;
    p.parity = parity as u8;
    p.slave_addr = (slave % 256) as u8;
    p.mode = mode as u8;
    cs.cfg.rs485[i] = p;
    publish_config(gw, cs);
    text(ok_none())
}

// ---- CFGAPPLY, CFGRESET ----

/// AT+CFGAPPLY
pub fn handle_cfgapply(gw: &mut Gateway) -> (r: AtReply)
    ensures
        r@ == ReplyView::Request(RequestView::Apply),
        ({
            let c = current_config(old(gw)@);
            final(gw)@ == with_config(old(gw)@, CfgView { cfg_version: c.cfg_version.wrapping_add(1), ..c })
        }),
{
    let mut cs = config_clone(gw);
    cs.cfg.cfg_version = cs.cfg.cfg_version.wrapping_add(1);
    publish_config(gw, cs);
    AtReply::Request(AtRequest::Apply)
}

/// AT+CFGRESET
pub fn handle_cfgreset(gw: &mut Gateway) -> (r: AtReply)
    ensures
        r@ == ReplyView::Request(RequestView::ApplyDefaults),
        final(gw)@ == with_config(old(gw)@, cfg_default()),
{
    let mut cs = config_clone(gw);
    cs.cfg = SystemConfig::defaults();
    publish_config(gw, cs);
    AtReply::Request(AtRequest::ApplyDefaults)
}

// ---- CFGINFO ----

/// The identity part of the configuration text.
pub open spec fn identity_text(c: CfgView) -> Seq<char> {
    Seq::<char>::empty() + "sn="@ + shown(until_zero(c.sn)) + ",name="@ + shown(until_zero(c.name)) + ",hw=0x"@
        + hex(c.hw_version as nat, 4, true) + ",fw=0x"@ + hex(c.fw_version as nat, 4, true) + ",cfg_ver="@ + dec(
        c.cfg_version as nat,
    )
}

/// All settings as text.
pub open spec fn config_text(c: CfgView) -> Seq<char> {
    identity_text(c) + ",ip="@ + ipv4_text(c.ip) + ",mask="@ + ipv4_text(c.mask) + ",gw="@ + ipv4_text(c.gateway)
        + ",dhcp="@ + dec(
        if c.dhcp {
            1
        } else {
            0
        },
    ) + ",eth_mac="@ + mac_text(c.eth_mac) + ",ble_mac="@ + mac_text(c.ble_mac) + ",ble_name="@ + shown(
        until_zero(c.ble_name),
    ) + ",ble_mesh="@ + dec(
        if c.ble_mesh_enable {
            1
        } else {
            0
        },
    ) + ",rs485_0=baud"@ + dec(c.rs485[0].baudrate as nat) + "/slave"@ + dec(c.rs485[0].slave_addr as nat)
        + ",rs485_1=baud"@ + dec(c.rs485[1].baudrate as nat) + "/slave"@ + dec(c.rs485[1].slave_addr as nat)
}

fn identity_info(c: &SystemConfig) -> (r: String)
    ensures
        r@ == identity_text(c@),
{
    let mut s = String::new();
    s.push_str("sn=");
    let sn = c.sn_str();
    s.push_str(sn.as_str());
    s.push_str(",name=");
    let name = c.name_str();
    s.push_str(name.as_str());
    s.push_str(",hw=0x");
    push_hex(&mut s, c.hw_version as u64, 4, true);
    s.push_str(",fw=0x");
    push_hex(&mut s, c.fw_version as u64, 4, true);
    s.push_str(",cfg_ver=");
    push_dec(&mut s, c.cfg_version as u64);
    s
}

/// AT+CFGINFO
pub fn handle_cfginfo(gw: &Gateway) -> (r: AtReply)
    ensures
        r@ == ReplyView::Text(ok_text(config_text(current_config(gw@)))),
{
    let cs = config_clone(gw);
    let c = &cs.cfg;
    let mut s = identity_info(c);
    s.push_str(",ip=");
    push_ipv4(&mut s, &c.ip);
    s.push_str(",mask=");
    push_ipv4(&mut s, &c.mask);
    s.push_str(",gw=");
    push_ipv4(&mut s, &c.gateway);
    s.push_str(",dhcp=");
    push_dec(
        &mut s,
        if c.dhcp {
            1
        } else {
            0
        },
    );
    s.push_str(",eth_mac=");
    push_mac(&mut s, &c.eth_mac);
    s.push_str(",ble_mac=");
    push_mac(&mut s, &c.ble_mac);
    s.push_str(",ble_name=");
    let ble_name = c.ble_name_str();
    s.push_str(ble_name.as_str());
    s.push_str(",ble_mesh=");
    push_dec(
        &mut s,
        if c.ble_mesh_enable {
            1
        } else {
            0
        },
    );
    s.push_str(",rs485_0=baud");
    push_dec(&mut s, c.rs485[0].baudrate as u64);
    s.push_str("/slave");
    push_dec(&mut s, c.rs485[0].slave_addr as u64);
    s.push_str(",rs485_1=baud");
    push_dec(&mut s, c.rs485[1].baudrate as u64);
    s.push_str("/slave");
    push_dec(&mut s, c.rs485[1].slave_addr as u64);
    text(ok_data(s.as_str()))
}

// ---- CFGREAD, CFGWRITE ----

/// The message for an address outside the configuration area.
pub open spec fn range_text() -> Seq<char> {
    "addr out of range [0x"@ + hex(regs::CFG_BASE as nat, 4, true) + "..0x"@ + hex(regs::CFG_END as nat, 4, true)
        + ")"@
}

/// Whether a word is an address of the configuration area.
pub open spec fn in_config_area(a: nat) -> bool {
    regs::CFG_BASE <= a < regs::CFG_END
}

/// AT+CFGREAD=<addr>
pub open spec fn cfgread_effect(g: GatewayView, args: Seq<char>) -> AtEffect {
    match word_value(args) {
        None => answer(g, err_text(10, "invalid addr"@)),
        Some(a) => if !in_config_area(a) {
            answer(g, err_text(11, range_text()))
        } else {
            answer(
                g,
                ok_text(
                    word_text(
                        match cfg_read(current_config(g), a as u16) {
                            Some(v) => v,
                            None => 0,
                        },
                    ),
                ),
            )
        },
    }
}

pub fn handle_cfgread(gw: &Gateway, args: &[char]) -> (r: AtReply)
    ensures
        r@ == cfgread_effect(gw@, args@).reply,
        cfgread_effect(gw@, args@).g == gw@,
{
    let addr: u16 = match parse_word(args) {
        Some(a) => a,
        None => {
            return text(err(10, "invalid addr"));
        },
    };
    if addr < regs::CFG_BASE || addr >= regs::CFG_END {
        let mut m = "addr out of range [0x".to_owned();
        push_hex(&mut m, regs::CFG_BASE as u64, 4, true);
        m.push_str("..0x");
        push_hex(&mut m, regs::CFG_END as u64, 4, true);
        m.push_str(")");
        return text(err(11, m.as_str()));
    }
    let v: u16 = match config_clone(gw).cfg.read_reg(addr) {
        Some(v) => v,
        None => 0,
    };
    text(ok_word(v))
}

/// AT+CFGWRITE=<addr>,<value>
pub open spec fn cfgwrite_effect(g: GatewayView, args: Seq<char>) -> AtEffect {
    if !has_comma(args) {
        answer(g, err_text(10, "usage: AT+CFGWRITE=<addr>,<value>"@))
    } else {
        match (word_value(before_comma(args)), word_value(after_comma(args))) {
            (None, _) => answer(g, err_text(10, "invalid addr"@)),
            (_, None) => answer(g, err_text(10, "invalid value"@)),
            (Some(a), Some(v)) => if !in_config_area(a) {
                answer(g, err_text(11, "addr out of range"@))
            } else {
                let n = with_config(g, cfg_write(current_config(g), a as u16, v as u16));
                match cfg_write_result(a as u16, v as u16) {
                    WriteResult::Written | WriteResult::Persist => answer(n, ok_line()),
                    WriteResult::Apply => answer(posted(n, DeviceCmd::ApplyConfig), ok_text("apply requested"@)),
                    WriteResult::Reset => answer(
                        posted(n, DeviceCmd::ApplyConfig),
                        ok_text("reset to defaults"@),
                    ),
                    WriteResult::NotFound => answer(n, err_text(12, "field not found"@)),
                }
            },
        }
    }
}

pub fn handle_cfgwrite(gw: &mut Gateway, args: &[char]) -> (r: AtReply)
    ensures
        r@ == cfgwrite_effect(old(gw)@, args@).reply,
        final(gw)@ == cfgwrite_effect(old(gw)@, args@).g,
{
    let (first, second, more) = cut(args);
    if !more {
        return text(err(10, "usage: AT+CFGWRITE=<addr>,<value>"));
    }
    let addr: u16 = match parse_word(first) {
        Some(a) => a,
        None => {
            return text(err(10, "invalid addr"));
        },
    };
    let value: u16 = match parse_word(second) {
        Some(v) => v,
        None => {
            return text(err(10, "invalid value"));
        },
    };
    if addr < regs::CFG_BASE || addr >= regs::CFG_END {
        return text(err(11, "addr out of range"));
    }
    let mut cs = config_clone(gw);
    let result = cs.cfg.write_reg(addr, value);
    publish_config(gw, cs);
    match result {
        WriteResult::Written => text(ok_none()),
        WriteResult::Persist => text(ok_none()),
        WriteResult::Apply => {
            request_apply_config(gw);
            text(ok_data("apply requested"))
        },
        WriteResult::Reset => {
            request_apply_config(gw);
            text(ok_data("reset to defaults"))
        },
        WriteResult::NotFound => text(err(12, "field not found")),
    }
}

} // verus!

//! Laws of the reports that text commands give.

use crate::ble_at::cfg_handlers::{config_text, identity_text, network_text, port_text};
use crate::ble_at::handlers::{info_text, list_text, status_text, words_text};
use crate::ble_at::ota_handlers::{ota_status_text, OtaInfo};
use crate::device::system_config::{ipv4_text, mac_text, CfgView, Rs485Config};
use crate::gateway::GatewayView;
use crate::text::{dec, hex, shown, until_zero};
use vstd::prelude::*;

verus! {

/// Parts with commas between them.
pub open spec fn joined(parts: Seq<Seq<char>>) -> Seq<char>
    decreases parts.len(),
{
    if parts.len() == 0 {
        Seq::empty()
    } else if parts.len() == 1 {
        parts[0]
    } else {
        joined(parts.drop_last()) + seq![','] + parts.last()
    }
}

/// One for yes, zero for no.
pub open spec fn flag(yes: bool) -> nat {
    if yes {
        1
    } else {
        0
    }
}

proof fn lemma_next(parts: Seq<Seq<char>>, l: Seq<char>, text: Seq<char>, name: Seq<char>, x: Seq<char>)
    requires
        parts.len() > 0,
        l == joined(parts),
        text == seq![','] + name,
    ensures
        l + text + x == joined(parts.push(name + x)),
{
    let all = parts.push(name + x);
    assert(all.drop_last() =~= parts);
    assert(l + text + x =~= joined(parts) + seq![','] + (name + x));
}

proof fn lemma_longer(parts: Seq<Seq<char>>, p: Seq<char>, y: Seq<char>, x: Seq<char>)
    requires
        parts.len() > 0,
    ensures
        joined(parts.push(p)) + y + x == joined(parts.push(p + y + x)),
{
    let (a, b) = (parts.push(p), parts.push(p + y + x));
    assert(a.drop_last() =~= parts && b.drop_last() =~= parts);
    assert(joined(parts) + seq![','] + p + y + x =~= joined(parts) + seq![','] + (p + y + x));
}

proof fn lemma_first(name: Seq<char>, x: Seq<char>)
    ensures
        Seq::<char>::empty() + name + x == joined(seq![name + x]),
{
    assert(Seq::<char>::empty() + name + x =~= name + x);
}

proof fn lemma_word_list(words: Seq<u16>, n: nat)
    requires
        n <= words.len(),
    ensures
        words_text(words, n) == list_text(words.subrange(0, n as int)),
    decreases n,
{
    reveal_strlit(",0x");
    reveal_strlit("0x");
    reveal_strlit(",");
    let s = words.subrange(0, n as int);
    if n > 0 {
        lemma_word_list(words, (n - 1) as nat);
        assert(s.drop_last() =~= words.subrange(0, n - 1));
        assert(",0x"@ =~= ","@ + "0x"@);
        assert(words_text(words, n) =~= list_text(s));
    } else {
        assert(s =~= Seq::<u16>::empty());
        assert(words_text(words, 0) =~= list_text(Seq::<u16>::empty()));
    }
}

/// AT+INFO reports the capacity, version and length of the protocol store, whether it waits
/// to be committed, its status, and where it is.
pub proof fn law_store_report(g: GatewayView)
    requires
        g.storage.snapshot is Some,
    ensures
        ({
            let p = g.storage.snapshot->0.proto;
            info_text(g) == joined(
                seq![
                    "cap="@ + dec(1500),
                    "ver="@ + dec(p.version as nat),
                    "len="@ + dec(p.length as nat),
                    "dirty="@ + dec(flag(p.dirty)),
                    "status="@ + dec(g.storage.status as nat),
                    "magic=0x"@ + hex(0x4757, 4, true),
                    "proto_base=0x"@ + hex(0x4000, 4, true),
                ],
            )
        }),
{
    let p = g.storage.snapshot->0.proto;
    lemma_first("cap="@, dec(1500));
    let p0 = seq!["cap="@ + dec(1500)];
    reveal_strlit(",ver=");
    reveal_strlit("ver=");
    assert(",ver="@ =~= seq![','] + "ver="@);
    lemma_next(p0, joined(p0), ",ver="@, "ver="@, dec(p.version as nat));
    let p1 = p0.push("ver="@ + dec(p.version as nat));
    reveal_strlit(",len=");
    reveal_strlit("len=");
    assert(",len="@ =~= seq![','] + "len="@);
    lemma_next(p1, joined(p1), ",len="@, "len="@, dec(p.length as nat));
    let p2 = p1.push("len="@ + dec(p.length as nat));
    reveal_strlit(",dirty=");
    reveal_strlit("dirty=");
    assert(",dirty="@ =~= seq![','] + "dirty="@);
    lemma_next(p2, joined(p2), ",dirty="@, "dirty="@, dec(flag(p.dirty)));
    let p3 = p2.push("dirty="@ + dec(flag(p.dirty)));
    reveal_strlit(",status=");
    reveal_strlit("status=");
    assert(",status="@ =~= seq![','] + "status="@);
    lemma_next(p3, joined(p3), ",status="@, "status="@, dec(g.storage.status as nat));
    let p4 = p3.push("status="@ + dec(g.storage.status as nat));
    reveal_strlit(",magic=0x");
    reveal_strlit("magic=0x");
    assert(",magic=0x"@ =~= seq![','] + "magic=0x"@);
    lemma_next(p4, joined(p4), ",magic=0x"@, "magic=0x"@, hex(0x4757, 4, true));
    let p5 = p4.push("magic=0x"@ + hex(0x4757, 4, true));
    reveal_strlit(",proto_base=0x");
    reveal_strlit("proto_base=0x");
    assert(",proto_base=0x"@ =~= seq![','] + "proto_base=0x"@);
    lemma_next(p5, joined(p5), ",proto_base=0x"@, "proto_base=0x"@, hex(0x4000, 4, true));
    let p6 = p5.push("proto_base=0x"@ + hex(0x4000, 4, true));
    assert(p6 =~= seq![
        "cap="@ + dec(1500),
        "ver="@ + dec(p.version as nat),
        "len="@ + dec(p.length as nat),
        "dirty="@ + dec(flag(p.dirty)),
        "status="@ + dec(g.storage.status as nat),
        "magic=0x"@ + hex(0x4757, 4, true),
        "proto_base=0x"@ + hex(0x4000, 4, true),
    ]);
}

/// AT+CFGIP reports the network settings.
pub proof fn law_network_report(c: CfgView)
    ensures
        ({
            network_text(c) == joined(
                seq![
                    "ip="@ + ipv4_text(c.ip),
                    "mask="@ + ipv4_text(c.mask),
                    "gw="@ + ipv4_text(c.gateway),
                    "dns="@ + ipv4_text(c.dns),
                    "dhcp="@ + dec(flag(c.dhcp)),
                ],
            )
        }),
{
    lemma_first("ip="@, ipv4_text(c.ip));
    let p0 = seq!["ip="@ + ipv4_text(c.ip)];
    reveal_strlit(",mask=");
    reveal_strlit("mask=");
    assert(",mask="@ =~= seq![','] + "mask="@);
    lemma_next(p0, joined(p0), ",mask="@, "mask="@, ipv4_text(c.mask));
    let p1 = p0.push("mask="@ + ipv4_text(c.mask));
    reveal_strlit(",gw=");
    reveal_strlit("gw=");
    assert(",gw="@ =~= seq![','] + "gw="@);
    lemma_next(p1, joined(p1), ",gw="@, "gw="@, ipv4_text(c.gateway));
    let p2 = p1.push("gw="@ + ipv4_text(c.gateway));
    reveal_strlit(",dns=");
    reveal_strlit("dns=");
    assert(",dns="@ =~= seq![','] + "dns="@);
    lemma_next(p2, joined(p2), ",dns="@, "dns="@, ipv4_text(c.dns));
    let p3 = p2.push("dns="@ + ipv4_text(c.dns));
    reveal_strlit(",dhcp=");
    reveal_strlit("dhcp=");
    assert(",dhcp="@ =~= seq![','] + "dhcp="@);
    lemma_next(p3, joined(p3), ",dhcp="@, "dhcp="@, dec(flag(c.dhcp)));
    let p4 = p3.push("dhcp="@ + dec(flag(c.dhcp)));
    assert(p4 =~= seq![
        "ip="@ + ipv4_text(c.ip),
        "mask="@ + ipv4_text(c.mask),
        "gw="@ + ipv4_text(c.gateway),
        "dns="@ + ipv4_text(c.dns),
        "dhcp="@ + dec(flag(c.dhcp)),
    ]);
}

/// AT+CFG485 reports the line of a port.
pub proof fn law_port_report(i: nat, p: Rs485Config)
    ensures
        ({
            port_text(i, p) == joined(
                seq![
                    "idx="@ + dec(i),
                    "baud="@ + dec(p.baudrate as nat),
                    "data="@ + dec(p.data_bits as nat),
                    "stop="@ + dec(p.stop_bits as nat),
                    "parity="@ + dec(p.parity as nat),
                    "slave="@ + dec(p.slave_addr as nat),
                    "mode="@ + dec(p.mode as nat),
                ],
            )
        }),
{
    lemma_first("idx="@, dec(i));
    let p0 = seq!["idx="@ + dec(i)];
    reveal_strlit(",baud=");
    reveal_strlit("baud=");
    assert(",baud="@ =~= seq![','] + "baud="@);
    lemma_next(p0, joined(p0), ",baud="@, "baud="@, dec(p.baudrate as nat));
    let p1 = p0.push("baud="@ + dec(p.baudrate as nat));
    reveal_strlit(",data=");
    reveal_strlit("data=");
    assert(",data="@ =~= seq![','] + "data="@);
    lemma_next(p1, joined(p1), ",data="@, "data="@, dec(p.data_bits as nat));
    let p2 = p1.push("data="@ + dec(p.data_bits as nat));
    reveal_strlit(",stop=");
    reveal_strlit("stop=");
    assert(",stop="@ =~= seq![','] + "stop="@);
    lemma_next(p2, joined(p2), ",stop="@, "stop="@, dec(p.stop_bits as nat));
    let p3 = p2.push("stop="@ + dec(p.stop_bits as nat));
    reveal_strlit(",parity=");
    reveal_strlit("parity=");
    assert(",parity="@ =~= seq![','] + "parity="@);
    lemma_next(p3, joined(p3), ",parity="@, "parity="@, dec(p.parity as nat));
    let p4 = p3.push("parity="@ + dec(p.parity as nat));
    reveal_strlit(",slave=");
    reveal_strlit("slave=");
    assert(",slave="@ =~= seq![','] + "slave="@);
    lemma_next(p4, joined(p4), ",slave="@, "slave="@, dec(p.slave_addr as nat));
    let p5 = p4.push("slave="@ + dec(p.slave_addr as nat));
    reveal_strlit(",mode=");
    reveal_strlit("mode=");
    assert(",mode="@ =~= seq![','] + "mode="@);
    lemma_next(p5, joined(p5), ",mode="@, "mode="@, dec(p.mode as nat));
    let p6 = p5.push("mode="@ + dec(p.mode as nat));
    assert(p6 =~= seq![
        "idx="@ + dec(i),
        "baud="@ + dec(p.baudrate as nat),
        "data="@ + dec(p.data_bits as nat),
        "stop="@ + dec(p.stop_bits as nat),
        "parity="@ + dec(p.parity as nat),
        "slave="@ + dec(p.slave_addr as nat),
        "mode="@ + dec(p.mode as nat),
    ]);
}

/// AT+OTA=STATUS reports how far an update is.
pub proof fn law_update_report(o: OtaInfo)
    ensures
        ({
            ota_status_text(o) == joined(
                seq![
                    "status="@ + dec(o.status as nat),
                    "written="@ + dec(o.written as nat),
                    "total="@ + dec(o.total as nat),
                ],
            )
        }),
{
    lemma_first("status="@, dec(o.status as nat));
    let p0 = seq!["status="@ + dec(o.status as nat)];
    reveal_strlit(",written=");
    reveal_strlit("written=");
    assert(",written="@ =~= seq![','] + "written="@);
    lemma_next(p0, joined(p0), ",written="@, "written="@, dec(o.written as nat));
    let p1 = p0.push("written="@ + dec(o.written as nat));
    reveal_strlit(",total=");
    reveal_strlit("total=");
    assert(",total="@ =~= seq![','] + "total="@);
    lemma_next(p1, joined(p1), ",total="@, "total="@, dec(o.total as nat));
    let p2 = p1.push("total="@ + dec(o.total as nat));
    assert(p2 =~= seq![
        "status="@ + dec(o.status as nat),
        "written="@ + dec(o.written as nat),
        "total="@ + dec(o.total as nat),
    ]);
}

/// AT+CFGINFO reports the identity of the device first.
pub proof fn law_identity_report(c: CfgView)
    ensures
        ({
            identity_text(c) == joined(
                seq![
                    "sn="@ + shown(until_zero(c.sn)),
                    "name="@ + shown(until_zero(c.name)),
                    "hw=0x"@ + hex(c.hw_version as nat, 4, true),
                    "fw=0x"@ + hex(c.fw_version as nat, 4, true),
                    "cfg_ver="@ + dec(c.cfg_version as nat),
                ],
            )
        }),
{
    lemma_first("sn="@, shown(until_zero(c.sn)));
    let p0 = seq!["sn="@ + shown(until_zero(c.sn))];
    reveal_strlit(",name=");
    reveal_strlit("name=");
    assert(",name="@ =~= seq![','] + "name="@);
    lemma_next(p0, joined(p0), ",name="@, "name="@, shown(until_zero(c.name)));
    let p1 = p0.push("name="@ + shown(until_zero(c.name)));
    reveal_strlit(",hw=0x");
    reveal_strlit("hw=0x");
    assert(",hw=0x"@ =~= seq![','] + "hw=0x"@);
    lemma_next(p1, joined(p1), ",hw=0x"@, "hw=0x"@, hex(c.hw_version as nat, 4, true));
    let p2 = p1.push("hw=0x"@ + hex(c.hw_version as nat, 4, true));
    reveal_strlit(",fw=0x");
    reveal_strlit("fw=0x");
    assert(",fw=0x"@ =~= seq![','] + "fw=0x"@);
    lemma_next(p2, joined(p2), ",fw=0x"@, "fw=0x"@, hex(c.fw_version as nat, 4, true));
    let p3 = p2.push("fw=0x"@ + hex(c.fw_version as nat, 4, true));
    reveal_strlit(",cfg_ver=");
    reveal_strlit("cfg_ver=");
    assert(",cfg_ver="@ =~= seq![','] + "cfg_ver="@);
    lemma_next(p3, joined(p3), ",cfg_ver="@, "cfg_ver="@, dec(c.cfg_version as nat));
    let p4 = p3.push("cfg_ver="@ + dec(c.cfg_version as nat));
    assert(p4 =~= seq![
        "sn="@ + shown(until_zero(c.sn)),
        "name="@ + shown(until_zero(c.name)),
        "hw=0x"@ + hex(c.hw_version as nat, 4, true),
        "fw=0x"@ + hex(c.fw_version as nat, 4, true),
        "cfg_ver="@ + dec(c.cfg_version as nat),
    ]);
}

/// AT+CFGINFO reports network, radio and serial settings behind the identity.
#[verifier::rlimit(60)]
pub proof fn law_settings_report(c: CfgView)
    ensures
        ({
            config_text(c) == joined(
                seq![
                    identity_text(c),
                    "ip="@ + ipv4_text(c.ip),
                    "mask="@ + ipv4_text(c.mask),
                    "gw="@ + ipv4_text(c.gateway),
                    "dhcp="@ + dec(flag(c.dhcp)),
                    "eth_mac="@ + mac_text(c.eth_mac),
                    "ble_mac="@ + mac_text(c.ble_mac),
                    "ble_name="@ + shown(until_zero(c.ble_name)),
                    "ble_mesh="@ + dec(flag(c.ble_mesh_enable)),
                    "rs485_0=baud"@ + dec(c.rs485[0].baudrate as nat) + "/slave"@ + dec(c.rs485[0].slave_addr as nat),
                    "rs485_1=baud"@ + dec(c.rs485[1].baudrate as nat) + "/slave"@ + dec(c.rs485[1].slave_addr as nat),
                ],
            )
        }),
{
    let p0 = seq![identity_text(c)];
    reveal_strlit(",ip=");
    reveal_strlit("ip=");
    assert(",ip="@ =~= seq![','] + "ip="@);
    lemma_next(p0, joined(p0), ",ip="@, "ip="@, ipv4_text(c.ip));
    let p1 = p0.push("ip="@ + ipv4_text(c.ip));
    reveal_strlit(",mask=");
    reveal_strlit("mask=");
    assert(",mask="@ =~= seq![','] + "mask="@);
    lemma_next(p1, joined(p1), ",mask="@, "mask="@, ipv4_text(c.mask));
    let p2 = p1.push("mask="@ + ipv4_text(c.mask));
    reveal_strlit(",gw=");
    reveal_strlit("gw=");
    assert(",gw="@ =~= seq![','] + "gw="@);
    lemma_next(p2, joined(p2), ",gw="@, "gw="@, ipv4_text(c.gateway));
    let p3 = p2.push("gw="@ + ipv4_text(c.gateway));
    reveal_strlit(",dhcp=");
    reveal_strlit("dhcp=");
    assert(",dhcp="@ =~= seq![','] + "dhcp="@);
    lemma_next(p3, joined(p3), ",dhcp="@, "dhcp="@, dec(flag(c.dhcp)));
    let p4 = p3.push("dhcp="@ + dec(flag(c.dhcp)));
    reveal_strlit(",eth_mac=");
    reveal_strlit("eth_mac=");
    assert(",eth_mac="@ =~= seq![','] + "eth_mac="@);
    lemma_next(p4, joined(p4), ",eth_mac="@, "eth_mac="@, mac_text(c.eth_mac));
    let p5 = p4.push("eth_mac="@ + mac_text(c.eth_mac));
    reveal_strlit(",ble_mac=");
    reveal_strlit("ble_mac=");
    assert(",ble_mac="@ =~= seq![','] + "ble_mac="@);
    lemma_next(p5, joined(p5), ",ble_mac="@, "ble_mac="@, mac_text(c.ble_mac));
    let p6 = p5.push("ble_mac="@ + mac_text(c.ble_mac));
    reveal_strlit(",ble_name=");
    reveal_strlit("ble_name=");
    assert(",ble_name="@ =~= seq![','] + "ble_name="@);
    lemma_next(p6, joined(p6), ",ble_name="@, "ble_name="@, shown(until_zero(c.ble_name)));
    let p7 = p6.push("ble_name="@ + shown(until_zero(c.ble_name)));
    reveal_strlit(",ble_mesh=");
    reveal_strlit("ble_mesh=");
    assert(",ble_mesh="@ =~= seq![','] + "ble_mesh="@);
    lemma_next(p7, joined(p7), ",ble_mesh="@, "ble_mesh="@, dec(flag(c.ble_mesh_enable)));
    let p8 = p7.push("ble_mesh="@ + dec(flag(c.ble_mesh_enable)));
    reveal_strlit(",rs485_0=baud");
    reveal_strlit("rs485_0=baud");
    assert(",rs485_0=baud"@ =~= seq![','] + "rs485_0=baud"@);
    lemma_next(p8, joined(p8), ",rs485_0=baud"@, "rs485_0=baud"@, dec(c.rs485[0].baudrate as nat));
    lemma_longer(p8, "rs485_0=baud"@ + dec(c.rs485[0].baudrate as nat), "/slave"@, dec(c.rs485[0].slave_addr as nat));
    let p9 = p8.push("rs485_0=baud"@ + dec(c.rs485[0].baudrate as nat) + "/slave"@ + dec(c.rs485[0].slave_addr as nat));
    reveal_strlit(",rs485_1=baud");
    reveal_strlit("rs485_1=baud");
    assert(",rs485_1=baud"@ =~= seq![','] + "rs485_1=baud"@);
    lemma_next(p9, joined(p9), ",rs485_1=baud"@, "rs485_1=baud"@, dec(c.rs485[1].baudrate as nat));
    lemma_longer(p9, "rs485_1=baud"@ + dec(c.rs485[1].baudrate as nat), "/slave"@, dec(c.rs485[1].slave_addr as nat));
    let p10 = p9.push("rs485_1=baud"@ + dec(c.rs485[1].baudrate as nat) + "/slave"@ + dec(c.rs485[1].slave_addr as nat));
    assert(p10 =~= seq![
        identity_text(c),
        "ip="@ + ipv4_text(c.ip),
        "mask="@ + ipv4_text(c.mask),
        "gw="@ + ipv4_text(c.gateway),
        "dhcp="@ + dec(flag(c.dhcp)),
        "eth_mac="@ + mac_text(c.eth_mac),
        "ble_mac="@ + mac_text(c.ble_mac),
        "ble_name="@ + shown(until_zero(c.ble_name)),
        "ble_mesh="@ + dec(flag(c.ble_mesh_enable)),
        "rs485_0=baud"@ + dec(c.rs485[0].baudrate as nat) + "/slave"@ + dec(c.rs485[0].slave_addr as nat),
        "rs485_1=baud"@ + dec(c.rs485[1].baudrate as nat) + "/slave"@ + dec(c.rs485[1].slave_addr as nat),
    ]);
}

/// AT+STATUS reports the time since start-up, version, restarts, board, inputs and outputs,
/// the converter values of six analogue inputs and the set values of four outputs.
pub proof fn law_status_report(g: GatewayView)
    requires
        g.io.ai.raw.len() >= 6,
        g.io.ao.scaled.len() >= 4,
    ensures
        ({
            status_text(g) == joined(
                seq![
                    "uptime="@ + dec(g.io.sys.uptime_s as nat) + "s"@,
                    "fw=0x"@ + hex(g.io.sys.firmware_version as nat, 4, true),
                    "rst="@ + dec(g.io.sys.reset_count as nat),
                    "ver="@ + "F16"@,
                    "di=0x"@ + hex(g.io.di as nat, 1, true),
                    "do=0x"@ + hex(g.io.do_ as nat, 1, true),
                    "ai="@ + list_text(g.io.ai.raw.subrange(0, 6)),
                    "ao="@ + list_text(g.io.ao.scaled.subrange(0, 4)),
                ],
            )
        }),
{
    lemma_word_list(g.io.ai.raw, 6);
    lemma_word_list(g.io.ao.scaled, 4);
    let seconds = dec(g.io.sys.uptime_s as nat);
    let version = hex(g.io.sys.firmware_version as nat, 4, true);
    reveal_strlit("s");
    reveal_strlit("s,fw=0x");
    reveal_strlit(",fw=0x");
    assert("s,fw=0x"@ =~= "s"@ + ",fw=0x"@);
    assert(Seq::<char>::empty() + "uptime="@ + seconds + "s,fw=0x"@ + version =~= ("uptime="@ + seconds + "s"@)
        + ",fw=0x"@ + version);
    assert("uptime="@ + seconds + "s"@ =~= "uptime="@ + (seconds + "s"@));
    let p0 = seq!["uptime="@ + dec(g.io.sys.uptime_s as nat) + "s"@];
    reveal_strlit(",fw=0x");
    reveal_strlit("fw=0x");
    assert(",fw=0x"@ =~= seq![','] + "fw=0x"@);
    lemma_next(p0, joined(p0), ",fw=0x"@, "fw=0x"@, hex(g.io.sys.firmware_version as nat, 4, true));
    let p1 = p0.push("fw=0x"@ + hex(g.io.sys.firmware_version as nat, 4, true));
    reveal_strlit(",rst=");
    reveal_strlit("rst=");
    assert(",rst="@ =~= seq![','] + "rst="@);
    lemma_next(p1, joined(p1), ",rst="@, "rst="@, dec(g.io.sys.reset_count as nat));
    let p2 = p1.push("rst="@ + dec(g.io.sys.reset_count as nat));
    reveal_strlit(",ver=");
    reveal_strlit("ver=");
    assert(",ver="@ =~= seq![','] + "ver="@);
    lemma_next(p2, joined(p2), ",ver="@, "ver="@, "F16"@);
    let p3 = p2.push("ver="@ + "F16"@);
    reveal_strlit(",di=0x");
    reveal_strlit("di=0x");
    assert(",di=0x"@ =~= seq![','] + "di=0x"@);
    lemma_next(p3, joined(p3), ",di=0x"@, "di=0x"@, hex(g.io.di as nat, 1, true));
    let p4 = p3.push("di=0x"@ + hex(g.io.di as nat, 1, true));
    reveal_strlit(",do=0x");
    reveal_strlit("do=0x");
    assert(",do=0x"@ =~= seq![','] + "do=0x"@);
    lemma_next(p4, joined(p4), ",do=0x"@, "do=0x"@, hex(g.io.do_ as nat, 1, true));
    let p5 = p4.push("do=0x"@ + hex(g.io.do_ as nat, 1, true));
    reveal_strlit(",ai=");
    reveal_strlit("ai=");
    assert(",ai="@ =~= seq![','] + "ai="@);
    lemma_next(p5, joined(p5), ",ai="@, "ai="@, list_text(g.io.ai.raw.subrange(0, 6)));
    let p6 = p5.push("ai="@ + list_text(g.io.ai.raw.subrange(0, 6)));
    reveal_strlit(",ao=");
    reveal_strlit("ao=");
    assert(",ao="@ =~= seq![','] + "ao="@);
    lemma_next(p6, joined(p6), ",ao="@, "ao="@, list_text(g.io.ao.scaled.subrange(0, 4)));
    let p7 = p6.push("ao="@ + list_text(g.io.ao.scaled.subrange(0, 4)));
    assert(p7 =~= seq![
        "uptime="@ + dec(g.io.sys.uptime_s as nat) + "s"@,
        "fw=0x"@ + hex(g.io.sys.firmware_version as nat, 4, true),
        "rst="@ + dec(g.io.sys.reset_count as nat),
        "ver="@ + "F16"@,
        "di=0x"@ + hex(g.io.di as nat, 1, true),
        "do=0x"@ + hex(g.io.do_ as nat, 1, true),
        "ai="@ + list_text(g.io.ai.raw.subrange(0, 6)),
        "ao="@ + list_text(g.io.ao.scaled.subrange(0, 4)),
    ]);
}

} // verus!

//! AT command lines.

use crate::ble_at::cfg_handlers::{
    cfg485_effect, cfgbtname_effect, cfgdhcp_effect, cfgip_effect, cfgmesh_effect, cfgname_effect,
    cfgread_effect, cfgsn_effect, cfgwrite_effect, config_text, handle_cfg485, handle_cfgapply,
    handle_cfgbtmac, handle_cfgbtname, handle_cfgdhcp, handle_cfginfo, handle_cfgip, handle_cfgmac,
    handle_cfgmesh, handle_cfgname, handle_cfgread, handle_cfgreset, handle_cfgsn, handle_cfgwrite,
};
use crate::ble_at::handlers::{
    bulkr_effect, bulkw_effect, failure_view, handle_bulkr, handle_bulkw, handle_commit, handle_info, handle_read,
    handle_reload, handle_reset, handle_status, handle_version, handle_write, info_text, outcome_reply,
    outcome_text, parse_words, read_effect, reset_requested, status_text, text, version_text, word_list_value,
    write_effect,
};
use crate::ble_at::ota_handlers::{
    handle_ota_abort, handle_ota_begin, handle_ota_end, handle_ota_reboot, handle_ota_status, handle_ota_write,
    ota_begin_reply, ota_reboot_effect, ota_status_text, ota_write_reply, OtaInfo,
};
use crate::ble_at::reply::{after_comma, answer, before_comma, cut, err_text, ok_line, ok_text, parse_word, word_value, AtEffect, AtReply, AtRequest, ReplyView, RequestView};
use crate::bounded::Items;
use crate::bus::io_state::ResetSource;
use crate::bus::writes::{current_config, with_config};
use crate::device::system_config::{cfg_default, mac_text, CfgView};
use crate::gateway::{Gateway, GatewayView};
use crate::text::{chars, dec, find, index_of, is_text, push_dec, same_text, trim, trimmed};
use vstd::prelude::*;
use vstd::slice::slice_subrange;

pub use crate::ble_at::reply::{err, ok_data, ok_none};

verus! {

/// A command that first needs something done outside.
pub open spec fn request(g: GatewayView, r: RequestView) -> AtEffect {
    AtEffect { g, reply: ReplyView::Request(r) }
}

// ---- Numbers ----

/// Parses a word: decimal, or hexadecimal with a prefix.
pub fn parse_u16(s: &str) -> (r: Option<u16>)
    ensures
        r is Some <==> word_value(s@) is Some,
        r is Some ==> r->0 == word_value(s@)->0,
{
    let v = chars(s);
    parse_word(v.as_slice())
}

/// Parses a comma-separated list of words, of which at most 128 are kept.
pub fn parse_u16_list(s: &str) -> (r: heapless::Vec<u16, 128>)
    ensures
        r.items() == word_list_value(s@),
{
    let v = chars(s);
    parse_words(v.as_slice())
}

// ---- OTA ----

/// AT+OTA=<sub>[,<args>]
pub open spec fn ota_effect(g: GatewayView, args: Seq<char>, ota: OtaInfo) -> AtEffect {
    let sub = trimmed(before_comma(args));
    let rest = after_comma(args);
    if same_text(sub, "BEGIN"@) {
        AtEffect { g, reply: ota_begin_reply(rest) }
    } else if same_text(sub, "WRITE"@) {
        AtEffect { g, reply: ota_write_reply(rest, ota.chunk_max) }
    } else if same_text(sub, "END"@) {
        request(g, RequestView::OtaEnd)
    } else if same_text(sub, "ABORT"@) {
        request(g, RequestView::OtaAbort)
    } else if same_text(sub, "STATUS"@) {
        answer(g, ok_text(ota_status_text(ota)))
    } else if same_text(sub, "REBOOT"@) {
        ota_reboot_effect(g, ota)
    } else {
        answer(g, err_text(2, "usage: AT+OTA=BEGIN/WRITE/END/ABORT/STATUS/REBOOT"@))
    }
}

fn handle_ota(gw: &mut Gateway, args: &[char], ota: &OtaInfo) -> (r: AtReply)
    ensures
        r@ == ota_effect(old(gw)@, args@, *ota).reply,
        final(gw)@ == ota_effect(old(gw)@, args@, *ota).g,
{
    let (first, rest, _more) = cut(args);
    let sub = trim(first);
    if is_text(sub, "BEGIN") {
        handle_ota_begin(rest)
    } else if is_text(sub, "WRITE") {
        handle_ota_write(rest, ota.chunk_max)
    } else if is_text(sub, "END") {
        handle_ota_end()
    } else if is_text(sub, "ABORT") {
        handle_ota_abort()
    } else if is_text(sub, "STATUS") {
        handle_ota_status(ota)
    } else if is_text(sub, "REBOOT") {
        handle_ota_reboot(gw, ota)
    } else {
        text(err(2, "usage: AT+OTA=BEGIN/WRITE/END/ABORT/STATUS/REBOOT"))
    }
}

// ---- Dispatch ----

/// Commands on the configuration, and the firmware update.
pub open spec fn cfg_command(g: GatewayView, cmd: Seq<char>, args: Seq<char>, ota: OtaInfo) -> AtEffect {
    if same_text(cmd, "CFGSN"@) {
        cfgsn_effect(g, args)
    } else if same_text(cmd, "CFGNAME"@) {
        cfgname_effect(g, args)
    } else if same_text(cmd, "CFGIP"@) {
        cfgip_effect(g, args)
    } else if same_text(cmd, "CFGDHCP"@) {
        cfgdhcp_effect(g, args)
    } else if same_text(cmd, "CFGMAC"@) {
        answer(g, ok_text(mac_text(current_config(g).eth_mac)))
    } else if same_text(cmd, "CFGBTMAC"@) {
        answer(g, ok_text(mac_text(current_config(g).ble_mac)))
    } else if same_text(cmd, "CFGBTNAME"@) {
        cfgbtname_effect(g, args)
    } else if same_text(cmd, "CFGMESH"@) {
        cfgmesh_effect(g, args)
    } else if same_text(cmd, "CFG485"@) {
        cfg485_effect(g, args)
    } else if same_text(cmd, "CFGAPPLY"@) {
        AtEffect {
            g: with_config(
                g,
                CfgView { cfg_version: current_config(g).cfg_version.wrapping_add(1), ..current_config(g) },
            ),
            reply: ReplyView::Request(RequestView::Apply),
        }
    } else if same_text(cmd, "CFGRESET"@) {
        AtEffect {
            g: with_config(g, cfg_default()),
            reply: ReplyView::Request(RequestView::ApplyDefaults),
        }
    } else if same_text(cmd, "CFGINFO"@) {
        answer(g, ok_text(config_text(current_config(g))))
    } else if same_text(cmd, "CFGREAD"@) {
        cfgread_effect(g, args)
    } else if same_text(cmd, "CFGWRITE"@) {
        cfgwrite_effect(g, args)
    } else if same_text(cmd, "OTA"@) {
        ota_effect(g, args, ota)
    } else {
        answer(g, err_text(2, "unknown command"@))
    }
}

/// Commands; letters count in either case.
pub open spec fn command(g: GatewayView, cmd: Seq<char>, args: Seq<char>, ota: OtaInfo) -> AtEffect {
    if same_text(cmd, "READ"@) {
        read_effect(g, args)
    } else if same_text(cmd, "WRITE"@) {
        write_effect(g, args)
    } else if same_text(cmd, "BULKR"@) {
        bulkr_effect(g, args)
    } else if same_text(cmd, "BULKW"@) {
        bulkw_effect(g, args)
    } else if same_text(cmd, "COMMIT"@) {
        request(g, RequestView::Commit)
    } else if same_text(cmd, "RELOAD"@) {
        request(g, RequestView::Reload)
    } else if same_text(cmd, "INFO"@) {
        answer(g, ok_text(info_text(g)))
    } else if same_text(cmd, "STATUS"@) {
        answer(g, ok_text(status_text(g)))
    } else if same_text(cmd, "RESET"@) {
        answer(reset_requested(g, ResetSource::BleAt), ok_text("resetting in 200ms"@))
    } else if same_text(cmd, "VERSION"@) {
        answer(g, ok_text(version_text()))
    } else {
        cfg_command(g, cmd, args, ota)
    }
}

fn run_cfg_command(gw: &mut Gateway, cmd: &[char], args: &[char], ota: &OtaInfo) -> (r: AtReply)
    ensures
        r@ == cfg_command(old(gw)@, cmd@, args@, *ota).reply,
        final(gw)@ == cfg_command(old(gw)@, cmd@, args@, *ota).g,
{
    if is_text(cmd, "CFGSN") {
        handle_cfgsn(gw, args)
    } else if is_text(cmd, "CFGNAME") {
        handle_cfgname(gw, args)
    } else if is_text(cmd, "CFGIP") {
        handle_cfgip(gw, args)
    } else if is_text(cmd, "CFGDHCP") {
        handle_cfgdhcp(gw, args)
    } else if is_text(cmd, "CFGMAC") {
        handle_cfgmac(gw)
    } else if is_text(cmd, "CFGBTMAC") {
        handle_cfgbtmac(gw)
    } else if is_text(cmd, "CFGBTNAME") {
        handle_cfgbtname(gw, args)
    } else if is_text(cmd, "CFGMESH") {
        handle_cfgmesh(gw, args)
    } else if is_text(cmd, "CFG485") {
        handle_cfg485(gw, args)
    } else if is_text(cmd, "CFGAPPLY") {
        handle_cfgapply(gw)
    } else if is_text(cmd, "CFGRESET") {
        handle_cfgreset(gw)
    } else if is_text(cmd, "CFGINFO") {
        handle_cfginfo(gw)
    } else if is_text(cmd, "CFGREAD") {
        handle_cfgread(gw, args)
    } else if is_text(cmd, "CFGWRITE") {
        handle_cfgwrite(gw, args)
    } else if is_text(cmd, "OTA") {
        handle_ota(gw, args, ota)
    } else {
        text(err(2, "unknown command"))
    }
}

fn run_command(gw: &mut Gateway, cmd: &[char], args: &[char], ota: &OtaInfo) -> (r: AtReply)
    ensures
        r@ == command(old(gw)@, cmd@, args@, *ota).reply,
        final(gw)@ == command(old(gw)@, cmd@, args@, *ota).g,
{
    if is_text(cmd, "READ") {
        handle_read(gw, args)
    } else if is_text(cmd, "WRITE") {
        handle_write(gw, args)
    } else if is_text(cmd, "BULKR") {
        handle_bulkr(gw, args)
    } else if is_text(cmd, "BULKW") {
        handle_bulkw(gw, args)
    } else if is_text(cmd, "COMMIT") {
        handle_commit()
    } else if is_text(cmd, "RELOAD") {
        handle_reload()
    } else if is_text(cmd, "INFO") {
        handle_info(gw)
    } else if is_text(cmd, "STATUS") {
        handle_status(gw)
    } else if is_text(cmd, "RESET") {
        handle_reset(gw)
    } else if is_text(cmd, "VERSION") {
        handle_version()
    } else {
        run_cfg_command(gw, cmd, args, ota)
    }
}

/// Whether a line starts as a command does.
pub open spec fn starts_at(t: Seq<char>) -> bool {
    t.len() >= 2 && same_text(t.take(2), "AT"@)
}

/// A command line without the "AT" and an optional plus sign.
pub open spec fn command_part(t: Seq<char>) -> Seq<char> {
    if t.len() > 2 && t[2] == '+' {
        t.skip(3)
    } else {
        t.skip(2)
    }
}

/// Place of the first equals sign or question mark, or the length.
pub open spec fn separator(s: Seq<char>) -> int {
    if index_of(s, '=') < index_of(s, '?') {
        index_of(s, '=')
    } else {
        index_of(s, '?')
    }
}

/// Arguments of a command: what follows an equals sign. A question mark takes none.
pub open spec fn arguments(s: Seq<char>) -> Seq<char> {
    let n = separator(s);
    if n < s.len() && s[n] == '=' {
        s.skip(n + 1)
    } else {
        Seq::empty()
    }
}

/// What a command line does.
pub open spec fn line_effect(g: GatewayView, line: Seq<char>, ota: OtaInfo) -> AtEffect {
    let t = trimmed(line);
    if t.len() == 0 {
        answer(g, ok_line())
    } else if !starts_at(t) {
        answer(g, err_text(1, "not AT command"@))
    } else if t.len() == 2 {
        answer(g, ok_line())
    } else {
        let c = command_part(t);
        command(g, c.take(separator(c)), arguments(c), ota)
    }
}

/// Carries out a command line given as characters.
pub fn process_line(gw: &mut Gateway, line: &[char], ota: &OtaInfo) -> (r: AtReply)
    ensures
        r@ == line_effect(old(gw)@, line@, *ota).reply,
        final(gw)@ == line_effect(old(gw)@, line@, *ota).g,
{
    let t = trim(line);
    if t.len() == 0 {
        return text(ok_none());
    }
    if t.len() < 2 {
        return text(err(1, "not AT command"));
    }
    let head = slice_subrange(t, 0, 2);
    assert(head@ =~= t@.take(2));
    if !is_text(head, "AT") {
        return text(err(1, "not AT command"));
    }
    if t.len() == 2 {
        return text(ok_none());
    }
    let from: usize = if t[2] == '+' {
        3
    } else {
        2
    };
    let c = slice_subrange(t, from, t.len());
    assert(c@ =~= command_part(t@));
    let equals: usize = find(c, '=');
    let question: usize = find(c, '?');
    let n: usize = if equals < question {
        equals
    } else {
        question
    };
    let cmd = slice_subrange(c, 0, n);
    assert(cmd@ =~= c@.take(separator(c@)));
    let args = if n < c.len() && c[n] == '=' {
        slice_subrange(c, n + 1, c.len())
    } else {
        slice_subrange(c, n, n)
    };
    assert(args@ =~= arguments(c@));
    run_command(gw, cmd, args, ota)
}

/// Carries out a command line.
pub fn process(gw: &mut Gateway, line: &str, ota: &OtaInfo) -> (r: AtReply)
    ensures
        r@ == line_effect(old(gw)@, line@, *ota).reply,
        final(gw)@ == line_effect(old(gw)@, line@, *ota).g,
{
    let v = chars(line);
    process_line(gw, v.as_slice(), ota)
}

// ---- Replies after something was done outside ----

/// The reply to a request, given how it ended. For a written chunk `count` is what
/// was written so far.
pub open spec fn request_reply(r: RequestView, count: nat, failure: Option<Seq<char>>) -> Seq<char> {
    match r {
        RequestView::Commit => outcome_text("committed"@, "commit: "@, failure),
        RequestView::Reload => outcome_text("reloaded"@, "reload: "@, failure),
        RequestView::Apply => outcome_text("applied (restart to take effect)"@, "apply: "@, failure),
        RequestView::ApplyDefaults => outcome_text("reset to defaults"@, "apply: "@, failure),
        RequestView::OtaBegin(n) => outcome_text("begin total="@ + dec(n as nat), "begin: "@, failure),
        RequestView::OtaWrite(b) => outcome_text(
            "written="@ + dec(count) + ",total="@ + dec(b.len()),
            "write: "@,
            failure,
        ),
        RequestView::OtaEnd => outcome_text("ended, send AT+OTA=REBOOT to apply"@, "end: "@, failure),
        RequestView::OtaAbort => outcome_text("aborted"@, "abort: "@, failure),
    }
}

/// Answers a request after it was carried out.
pub fn finish(request: &AtRequest, count: u32, failure: Option<&str>) -> (r: String)
    ensures
        r@ == request_reply(request@, count as nat, failure_view(failure)),
{
    match request {
        AtRequest::Commit => outcome_reply("committed", "commit: ", failure),
        AtRequest::Reload => outcome_reply("reloaded", "reload: ", failure),
        AtRequest::Apply => outcome_reply(
            "applied (restart to take effect)",
            "apply: ",
            failure,
        ),
        AtRequest::ApplyDefaults => outcome_reply("reset to defaults", "apply: ", failure),
        AtRequest::OtaBegin(n) => {
            let mut s = "begin total=".to_owned();
            push_dec(&mut s, *n as u64);
            outcome_reply(s.as_str(), "begin: ", failure)
        },
        AtRequest::OtaWrite(b) => {
            let mut s = "written=".to_owned();
            push_dec(&mut s, count as u64);
            s.push_str(",total=");
            push_dec(&mut s, b.len() as u64);
            outcome_reply(s.as_str(), "write: ", failure)
        },
        AtRequest::OtaEnd => outcome_reply(
            "ended, send AT+OTA=REBOOT to apply",
            "end: ",
            failure,
        ),
        AtRequest::OtaAbort => outcome_reply("aborted", "abort: ", failure),
    }
}

} // verus!

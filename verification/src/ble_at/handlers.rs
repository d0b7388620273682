//! AT commands on the protocol store and the system.

use crate::ble_at::reply::{
    after_comma, answer, before_comma, cut, err, err_text, ok_data, ok_line, ok_none, ok_text, parse_word,
    word_value, AtEffect, AtReply, AtRequest, ReplyView, RequestView,
};
use crate::bounded::{new_words, slice_of, try_push, Items};
use crate::bus::io_global::IoView;
use crate::bus::io_state::{channel, ResetSource, SysState};
use crate::config::{hw_version, regs, APP_NAME, APP_VERSION};
use crate::device::proto_store::{
    info_of, proto_info, proto_read, proto_read_bulk, proto_words, proto_words_written, proto_write,
    proto_write_bulk,
};
use crate::gateway::{Gateway, GatewayView};
use crate::text::{dec, hex, push_dec, push_hex, split, split_at_each};
use vstd::prelude::*;
use vstd::slice::slice_subrange;

verus! {

/// A word in decimal and in hexadecimal.
pub open spec fn word_text(v: u16) -> Seq<char> {
    dec(v as nat) + ",0x"@ + hex(v as nat, 4, true)
}

/// The reply with a word.
pub fn ok_word(v: u16) -> (r: String)
    ensures
        r@ == ok_text(word_text(v)),
{
    let mut s = String::new();
    push_dec(&mut s, v as u64);
    s.push_str(",0x");
    push_hex(&mut s, v as u64, 4, true);
    assert(s@ =~= word_text(v));
    ok_data(s.as_str())
}

/// A text reply.
pub fn text(s: String) -> (r: AtReply)
    ensures
        r@ == ReplyView::Text(s@),
{
    AtReply::Text(s)
}

// ---- READ ----

/// AT+READ=<addr>
pub open spec fn read_effect(g: GatewayView, args: Seq<char>) -> AtEffect {
    match word_value(args) {
        None => answer(g, err_text(10, "invalid addr"@)),
        Some(a) => if a < 1500 && g.storage.snapshot is Some {
            answer(g, ok_text(word_text(g.storage.snapshot->0.proto.data[a as int])))
        } else {
            answer(g, err_text(11, "addr out of range"@))
        },
    }
}

pub fn handle_read(gw: &Gateway, args: &[char]) -> (r: AtReply)
    ensures
        r@ == read_effect(gw@, args@).reply,
        read_effect(gw@, args@).g == gw@,
{
    let addr: u16 = match parse_word(args) {
        Some(a) => a,
        None => {
            return text(err(10, "invalid addr"));
        },
    };
    match proto_read(gw, addr) {
        Some(v) => text(ok_word(v)),
        None => text(err(11, "addr out of range")),
    }
}

// ---- WRITE ----

/// AT+WRITE=<addr>,<value>
pub open spec fn write_effect(g: GatewayView, args: Seq<char>) -> AtEffect {
    match (word_value(before_comma(args)), word_value(after_comma(args))) {
        (None, _) => answer(g, err_text(10, "usage: AT+WRITE=<addr>,<value>"@)),
        (_, None) => answer(g, err_text(10, "invalid value"@)),
        (Some(a), Some(v)) => if a < 1500 {
            answer(proto_words_written(g, a as u16, seq![v as u16]), ok_line())
        } else {
            answer(g, err_text(11, "addr out of range"@))
        },
    }
}

pub fn handle_write(gw: &mut Gateway, args: &[char]) -> (r: AtReply)
    ensures
        r@ == write_effect(old(gw)@, args@).reply,
        final(gw)@ == write_effect(old(gw)@, args@).g,
{
    let (first, second, _more) = cut(args);
    let addr: u16 = match parse_word(first) {
        Some(a) => a,
        None => {
            return text(err(10, "usage: AT+WRITE=<addr>,<value>"));
        },
    };
    let value: u16 = match parse_word(second) {
        Some(v) => v,
        None => {
            return text(err(10, "invalid value"));
        },
    };
    if proto_write(gw, addr, value) {
        text(ok_none())
    } else {
        text(err(11, "addr out of range"))
    }
}

// ---- BULKR ----

/// Words in hexadecimal, separated by commas.
pub open spec fn list_text(words: Seq<u16>) -> Seq<char>
    decreases words.len(),
{
    if words.len() == 0 {
        Seq::empty()
    } else {
        list_text(words.drop_last()) + (if words.len() > 1 {
            ","@
        } else {
            Seq::empty()
        }) + "0x"@ + hex(words.last() as nat, 4, true)
    }
}

/// AT+BULKR=<start>,<len>
pub open spec fn bulkr_effect(g: GatewayView, args: Seq<char>) -> AtEffect {
    match (word_value(before_comma(args)), word_value(after_comma(args))) {
        (None, _) => answer(g, err_text(10, "invalid start"@)),
        (_, None) => answer(g, err_text(10, "invalid len"@)),
        (Some(start), Some(len)) => if len == 0 || len > 1500 {
            answer(g, err_text(12, "len out of range (1..=1500)"@))
        } else {
            let words = proto_words(g, start as u16, len as u16);
            if words.len() == 0 {
                answer(g, err_text(11, "start out of range"@))
            } else {
                answer(g, ok_text(list_text(words)))
            }
        },
    }
}

fn word_list(words: &Vec<u16>) -> (r: String)
    ensures
        r@ == list_text(words@),
{
    let mut s = String::new();
    let mut i: usize = 0;
    assert(words@.take(0) =~= Seq::<u16>::empty());
    while i < words.len()
        invariant
            i <= words@.len(),
            s@ == list_text(words@.take(i as int)),
        decreases words@.len() - i,
    {
        proof {
            assert(words@.take(i + 1).drop_last() =~= words@.take(i as int));
            assert(words@.take(i + 1).last() == words@[i as int]);
        }
        if i > 0 {
            s.push_str(",");
        } else {
            assert(s@ + Seq::<char>::empty() =~= s@);
        }
        s.push_str("0x");
        push_hex(&mut s, words[i] as u64, 4, true);
        i += 1;
    }
    assert(words@.take(words@.len() as int) =~= words@);
    s
}

pub fn handle_bulkr(gw: &Gateway, args: &[char]) -> (r: AtReply)
    ensures
        r@ == bulkr_effect(gw@, args@).reply,
        bulkr_effect(gw@, args@).g == gw@,
{
    let (first, second, _more) = cut(args);
    let start: u16 = match parse_word(first) {
        Some(a) => a,
        None => {
            return text(err(10, "invalid start"));
        },
    };
    let len: u16 = match parse_word(second) {
        Some(l) => l,
        None => {
            return text(err(10, "invalid len"));
        },
    };
    if len == 0 || len > 1500 {
        return text(err(12, "len out of range (1..=1500)"));
    }
    let data = proto_read_bulk(gw, start, len);
    if data.len() == 0 {
        return text(err(11, "start out of range"));
    }
    let list = word_list(&data);
    text(ok_data(list.as_str()))
}

// ---- BULKW ----

/// The words of the first `n` parts that are words, at most 128.
pub open spec fn words_of(parts: Seq<Seq<char>>, n: nat) -> Seq<u16>
    decreases n,
{
    if n == 0 {
        Seq::empty()
    } else {
        let before = words_of(parts, (n - 1) as nat);
        match word_value(parts[n - 1]) {
            Some(v) => if before.len() < 128 {
                before.push(v as u16)
            } else {
                before
            },
            None => before,
        }
    }
}

/// The words of a comma-separated list.
pub open spec fn word_list_value(s: Seq<char>) -> Seq<u16> {
    words_of(split(s, ','), split(s, ',').len())
}

/// Parses a list of words; what is no word is skipped, and so is what does not fit.
pub fn parse_words(s: &[char]) -> (r: heapless::Vec<u16, 128>)
    ensures
        r.items() == word_list_value(s@),
{
    let parts = split_at_each(s, ',');
    let ghost all = split(s@, ',');
    let mut out = new_words();
    let mut i: usize = 0;
    while i < parts.len()
        invariant
            i <= parts@.len(),
            all == split(s@, ','),
            parts@.len() == all.len(),
            forall|j: int| 0 <= j < parts@.len() ==> (#[trigger] parts@[j])@ == all[j],
            out.items() == words_of(all, i as nat),
        decreases parts@.len() - i,
    {
        assert(parts@[i as int]@ == all[i as int]);
        match parse_word(parts[i]) {
            Some(v) => {
                let _ = try_push(&mut out, v);
            },
            None => {},
        }
        i += 1;
    }
    out
}

/// AT+BULKW=<start>,<v1>,<v2>,...
pub open spec fn bulkw_effect(g: GatewayView, args: Seq<char>) -> AtEffect {
    let words = word_list_value(args);
    if words.len() < 2 {
        answer(g, err_text(10, "usage: AT+BULKW=<start>,<v1>,<v2>,..."@))
    } else {
        answer(
            proto_words_written(g, words[0], words.skip(1)),
            ok_text(dec((words.len() - 1) as nat) + " words"@),
        )
    }
}

pub fn handle_bulkw(gw: &mut Gateway, args: &[char]) -> (r: AtReply)
    ensures
        r@ == bulkw_effect(old(gw)@, args@).reply,
        final(gw)@ == bulkw_effect(old(gw)@, args@).g,
{
    let values = parse_words(args);
    let words = slice_of(&values);
    if words.len() < 2 {
        return text(err(10, "usage: AT+BULKW=<start>,<v1>,<v2>,..."));
    }
    let rest = slice_subrange(words, 1, words.len());
    assert(rest@ =~= words@.skip(1));
    if !proto_write_bulk(gw, words[0], rest) {
        return text(err(11, "write failed"));
    }
    let mut s = String::new();
    push_dec(&mut s, rest.len() as u64);
    s.push_str(" words");
    assert(s@ =~= dec((words@.len() - 1) as nat) + " words"@);
    text(ok_data(s.as_str()))
}

// ---- COMMIT and RELOAD ----

/// AT+COMMIT
pub fn handle_commit() -> (r: AtReply)
    ensures
        r@ == ReplyView::Request(RequestView::Commit),
{
    AtReply::Request(AtRequest::Commit)
}

/// AT+RELOAD
pub fn handle_reload() -> (r: AtReply)
    ensures
        r@ == ReplyView::Request(RequestView::Reload),
{
    AtReply::Request(AtRequest::Reload)
}

/// The reply after something was done outside: what it reports, or that it failed.
pub open spec fn outcome_text(done: Seq<char>, what: Seq<char>, failure: Option<Seq<char>>) -> Seq<char> {
    match failure {
        None => ok_text(done),
        Some(e) => err_text(20, what + e),
    }
}

pub open spec fn failure_view(failure: Option<&str>) -> Option<Seq<char>> {
    match failure {
        Some(s) => Some(s@),
        None => None,
    }
}

/// The reply after something was done outside.
pub fn outcome_reply(done: &str, what: &str, failure: Option<&str>) -> (r: String)
    ensures
        r@ == outcome_text(done@, what@, failure_view(failure)),
{
    match failure {
        None => ok_data(done),
        Some(e) => {
            let mut m = what.to_owned();
            m.push_str(e);
            err(20, m.as_str())
        },
    }
}

// ---- INFO ----

/// AT+INFO
pub open spec fn info_text(g: GatewayView) -> Seq<char> {
    let i = info_of(g);
    Seq::<char>::empty() + "cap="@ + dec(i.capacity as nat) + ",ver="@ + dec(i.version as nat) + ",len="@ + dec(
        i.length as nat,
    ) + ",dirty="@ + dec(
        if i.dirty {
            1
        } else {
            0
        },
    ) + ",status="@ + dec(i.status as nat) + ",magic=0x"@ + hex(i.magic as nat, 4, true) + ",proto_base=0x"@ + hex(
        regs::PROTO_BASE as nat,
        4,
        true,
    )
}

pub fn handle_info(gw: &Gateway) -> (r: AtReply)
    ensures
        r@ == ReplyView::Text(ok_text(info_text(gw@))),
{
    let i = proto_info(gw);
    let mut s = String::new();
    s.push_str("cap=");
    push_dec(&mut s, i.capacity as u64);
    s.push_str(",ver=");
    push_dec(&mut s, i.version as u64);
    s.push_str(",len=");
    push_dec(&mut s, i.length as u64);
    s.push_str(",dirty=");
    push_dec(
        &mut s,
        if i.dirty {
            1
        } else {
            0
        },
    );
    s.push_str(",status=");
    push_dec(&mut s, i.status as u64);
    s.push_str(",magic=0x");
    push_hex(&mut s, i.magic as u64, 4, true);
    s.push_str(",proto_base=0x");
    push_hex(&mut s, regs::PROTO_BASE as u64, 4, true);
    text(ok_data(s.as_str()))
}

// ---- STATUS ----

/// Words in hexadecimal with a prefix each, separated by commas.
pub open spec fn words_text(words: Seq<u16>, n: nat) -> Seq<char>
    decreases n,
{
    if n == 0 {
        Seq::empty()
    } else {
        words_text(words, (n - 1) as nat) + (if n > 1 {
            ",0x"@
        } else {
            "0x"@
        }) + hex(channel(words, n - 1) as nat, 4, true)
    }
}

/// AT+STATUS
pub open spec fn status_text(g: GatewayView) -> Seq<char> {
    let s = g.io.sys;
    Seq::<char>::empty() + "uptime="@ + dec(s.uptime_s as nat) + "s,fw=0x"@ + hex(
        s.firmware_version as nat,
        4,
        true,
    ) + ",rst="@ + dec(s.reset_count as nat) + ",ver="@ + hw_version::NAME@ + ",di=0x"@ + hex(
        g.io.di as nat,
        1,
        true,
    ) + ",do=0x"@ + hex(g.io.do_ as nat, 1, true) + ",ai="@ + words_text(g.io.ai.raw, 6) + ",ao="@ + words_text(
        g.io.ao.scaled,
        4,
    )
}

pub fn handle_status(gw: &Gateway) -> (r: AtReply)
    ensures
        r@ == ReplyView::Text(ok_text(status_text(gw@))),
{
    let mut s = String::new();
    s.push_str("uptime=");
    push_dec(&mut s, gw.io.sys.get_uptime() as u64);
    s.push_str("s,fw=0x");
    push_hex(&mut s, gw.io.sys.get_fw_version() as u64, 4, true);
    s.push_str(",rst=");
    push_dec(&mut s, gw.io.sys.get_reset_count() as u64);
    s.push_str(",ver=");
    s.push_str(hw_version::NAME);
    s.push_str(",di=0x");
    push_hex(&mut s, gw.io.di.load_bits(), 1, true);
    s.push_str(",do=0x");
    push_hex(&mut s, gw.io.do_.load_bits(), 1, true);
    s.push_str(",ai=");
    let ghost before_ai = s@;
    let mut i: usize = 0;
    assert(before_ai + Seq::<char>::empty() =~= before_ai);
    while i < 6
        invariant
            i <= 6,
            s@ == before_ai + words_text(gw@.io.ai.raw, i as nat),
        decreases 6 - i,
    {
        let ghost so_far = s@;
        if i > 0 {
            s.push_str(",0x");
        } else {
            s.push_str("0x");
        }
        push_hex(&mut s, gw.io.ai.get_raw(i) as u64, 4, true);
        i += 1;
        assert(s@ =~= before_ai + words_text(gw@.io.ai.raw, i as nat));
    }
    s.push_str(",ao=");
    let ghost before_ao = s@;
    let mut j: usize = 0;
    assert(before_ao + Seq::<char>::empty() =~= before_ao);
    while j < 4
        invariant
            j <= 4,
            s@ == before_ao + words_text(gw@.io.ao.scaled, j as nat),
        decreases 4 - j,
    {
        if j > 0 {
            s.push_str(",0x");
        } else {
            s.push_str("0x");
        }
        push_hex(&mut s, gw.io.ao.get_scaled(j) as u64, 4, true);
        j += 1;
        assert(s@ =~= before_ao + words_text(gw@.io.ao.scaled, j as nat));
    }
    text(ok_data(s.as_str()))
}

// ---- RESET and VERSION ----

/// The state with a reset asked for.
pub open spec fn reset_requested(g: GatewayView, source: ResetSource) -> GatewayView {
    GatewayView {
        io: IoView { sys: SysState { reset_request: source.spec_code(), ..g.io.sys }, ..g.io },
        ..g
    }
}

/// AT+RESET
pub fn handle_reset(gw: &mut Gateway) -> (r: AtReply)
    ensures
        r@ == ReplyView::Text(ok_text("resetting in 200ms"@)),
        final(gw)@ == reset_requested(old(gw)@, ResetSource::BleAt),
{
    gw.io.sys.request_reset(ResetSource::BleAt);
    text(ok_data("resetting in 200ms"))
}

/// AT+VERSION
pub open spec fn version_text() -> Seq<char> {
    Seq::<char>::empty() + APP_NAME@ + " v"@ + APP_VERSION@ + " (HW: "@ + hw_version::NAME@ + ")"@
}

pub fn handle_version() -> (r: AtReply)
    ensures
        r@ == ReplyView::Text(ok_text(version_text())),
{
    let mut s = String::new();
    s.push_str(APP_NAME);
    s.push_str(" v");
    s.push_str(APP_VERSION);
    s.push_str(" (HW: ");
    s.push_str(hw_version::NAME);
    s.push_str(")");
    text(ok_data(s.as_str()))
}

} // verus!

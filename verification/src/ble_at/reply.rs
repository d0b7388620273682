//! Replies to AT commands.
//!
//! A command is answered with text at once, or it first needs something done
//! outside: storage or a firmware update. The reply then follows from how that
//! ended.

use crate::gateway::GatewayView;
use crate::text::{dec, index_of, number, parse_number, push_dec, trim, trimmed};
use vstd::prelude::*;
use vstd::slice::slice_subrange;
use vstd::utf8::encode_utf8;

verus! {

/// Something to be done outside before the command can be answered.
#[derive(Debug, PartialEq, Eq)]
pub enum AtRequest {
    /// Persist the protocol store.
    Commit,
    /// Load the protocol store again.
    Reload,
    /// Persist the configuration.
    Apply,
    /// Persist the factory settings.
    ApplyDefaults,
    OtaBegin(u32),
    OtaWrite(Vec<u8>),
    OtaEnd,
    OtaAbort,
}

/// Reply to a command.
#[derive(Debug, PartialEq, Eq)]
pub enum AtReply {
    Text(String),
    Request(AtRequest),
}

/// A request as plain values.
pub enum RequestView {
    Commit,
    Reload,
    Apply,
    ApplyDefaults,
    OtaBegin(u32),
    OtaWrite(Seq<u8>),
    OtaEnd,
    OtaAbort,
}

/// A reply as plain values.
pub enum ReplyView {
    Text(Seq<char>),
    Request(RequestView),
}

impl View for AtRequest {
    type V = RequestView;

    open spec fn view(&self) -> RequestView {
        match self {
            AtRequest::Commit => RequestView::Commit,
            AtRequest::Reload => RequestView::Reload,
            AtRequest::Apply => RequestView::Apply,
            AtRequest::ApplyDefaults => RequestView::ApplyDefaults,
            AtRequest::OtaBegin(n) => RequestView::OtaBegin(*n),
            AtRequest::OtaWrite(v) => RequestView::OtaWrite(v@),
            AtRequest::OtaEnd => RequestView::OtaEnd,
            AtRequest::OtaAbort => RequestView::OtaAbort,
        }
    }
}

impl View for AtReply {
    type V = ReplyView;

    open spec fn view(&self) -> ReplyView {
        match self {
            AtReply::Text(s) => ReplyView::Text(s@),
            AtReply::Request(r) => ReplyView::Request(r@),
        }
    }
}

/// What a command does: the state after it, and the reply.
pub struct AtEffect {
    pub g: GatewayView,
    pub reply: ReplyView,
}

/// A command that only answers.
pub open spec fn answer(g: GatewayView, text: Seq<char>) -> AtEffect {
    AtEffect { g, reply: ReplyView::Text(text) }
}

// ---- Response texts ----

pub open spec fn ok_line() -> Seq<char> {
    "OK\r\n"@
}

pub open spec fn ok_text(data: Seq<char>) -> Seq<char> {
    "OK "@ + data + "\r\n"@
}

pub open spec fn err_text(code: nat, msg: Seq<char>) -> Seq<char> {
    "ERROR "@ + dec(code) + ": "@ + msg + "\r\n"@
}

/// Success without data.
pub fn ok_none() -> (r: String)
    ensures
        r@ == ok_line(),
{
    "OK\r\n".to_owned()
}

/// Success with data.
pub fn ok_data(data: &str) -> (r: String)
    ensures
        r@ == ok_text(data@),
{
    let mut s = "OK ".to_owned();
    s.push_str(data);
    s.push_str("\r\n");
    s
}

/// Failure with a code and a message.
pub fn err(code: u32, msg: &str) -> (r: String)
    ensures
        r@ == err_text(code as nat, msg@),
{
    let mut s = "ERROR ".to_owned();
    push_dec(&mut s, code as u64);
    s.push_str(": ");
    s.push_str(msg);
    s.push_str("\r\n");
    s
}

// ---- Arguments ----

/// Whether text starts with a hexadecimal prefix.
pub open spec fn hex_prefixed(t: Seq<char>) -> bool {
    t.len() >= 2 && t[0] == '0' && (t[1] == 'x' || t[1] == 'X')
}

/// Value of a word argument: decimal, or hexadecimal with a prefix, with white
/// space round it.
pub open spec fn word_value(s: Seq<char>) -> Option<nat> {
    let t = trimmed(s);
    if t.len() == 0 {
        None
    } else if hex_prefixed(t) {
        number(t.skip(2), 16, 0xFFFF)
    } else {
        number(t, 10, 0xFFFF)
    }
}

/// Parses a word argument out of characters.
pub fn parse_word(s: &[char]) -> (r: Option<u16>)
    ensures
        r is Some <==> word_value(s@) is Some,
        r is Some ==> r->0 == word_value(s@)->0,
{
    let t = trim(s);
    if t.len() == 0 {
        return None;
    }
    let value: Option<u64> = if t.len() >= 2 && t[0] == '0' && (t[1] == 'x' || t[1] == 'X') {
        let digits = slice_subrange(t, 2, t.len());
        assert(digits@ =~= t@.skip(2));
        parse_number(digits, 16, 0xFFFF)
    } else {
        parse_number(t, 10, 0xFFFF)
    };
    match value {
        Some(v) => Some(v as u16),
        None => None,
    }
}

/// Text before the first comma.
pub open spec fn before_comma(s: Seq<char>) -> Seq<char> {
    s.take(index_of(s, ','))
}

/// Text after the first comma; empty without one.
pub open spec fn after_comma(s: Seq<char>) -> Seq<char> {
    if index_of(s, ',') < s.len() {
        s.skip(index_of(s, ',') + 1)
    } else {
        Seq::empty()
    }
}

/// Whether text holds a comma.
pub open spec fn has_comma(s: Seq<char>) -> bool {
    index_of(s, ',') < s.len()
}

/// Splits text at the first comma.
pub fn cut(s: &[char]) -> (r: (&[char], &[char], bool))
    ensures
        r.0@ == before_comma(s@),
        r.1@ == after_comma(s@),
        r.2 == has_comma(s@),
{
    let n: usize = crate::text::find(s, ',');
    let first = slice_subrange(s, 0, n);
    assert(first@ =~= before_comma(s@));
    if n < s.len() {
        let second = slice_subrange(s, n + 1, s.len());
        assert(second@ =~= after_comma(s@));
        (first, second, true)
    } else {
        let second = slice_subrange(s, n, n);
        assert(second@ =~= after_comma(s@));
        (first, second, false)
    }
}

/// The UTF-8 form of text.
pub fn utf8(s: &[char]) -> (r: Vec<u8>)
    ensures
        r@ == encode_utf8(s@),
{
    let mut t = String::new();
    crate::text::push_chars(&mut t, s);
    assert(t@ =~= s@);
    let bytes = t.as_str().as_bytes();
    vstd::slice::slice_to_vec(bytes)
}

} // verus!

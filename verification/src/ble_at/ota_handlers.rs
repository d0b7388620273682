//! AT commands of the firmware update.

use crate::ble_at::handlers::{reset_requested, text};
use crate::ble_at::reply::{
    answer, err, err_text, ok_data, ok_line, ok_none, ok_text, utf8, AtEffect, AtReply, AtRequest, ReplyView,
    RequestView,
};
use crate::bus::io_state::ResetSource;
use crate::gateway::{Gateway, GatewayView};
use crate::text::{dec, digit_value, number, parse_number, push_dec, trim, trimmed};
use vstd::prelude::*;
use vstd::utf8::encode_utf8;

verus! {

/// State of the firmware update.
#[derive(Debug, Clone, Copy, PartialEq, Eq, Structural)]
pub struct OtaInfo {
    /// Status code, as it is reported.
    pub status: u16,
    /// The update is complete and waits for a restart.
    pub done_pending_reboot: bool,
    pub written: u32,
    pub total: u32,
    /// Most bytes that one command may carry.
    pub chunk_max: usize,
}

/// AT+OTA=BEGIN,<total_size>
pub open spec fn ota_begin_reply(args: Seq<char>) -> ReplyView {
    match number(trimmed(args), 10, 0xFFFF_FFFF) {
        Some(n) => ReplyView::Request(RequestView::OtaBegin(n as u32)),
        None => ReplyView::Text(err_text(10, "usage: AT+OTA=BEGIN,<total_size>"@)),
    }
}

pub fn handle_ota_begin(args: &[char]) -> (r: AtReply)
    ensures
        r@ == ota_begin_reply(args@),
{
    match parse_number(trim(args), 10, 0xFFFF_FFFF) {
        Some(n) => AtReply::Request(AtRequest::OtaBegin(n as u32)),
        None => text(err(10, "usage: AT+OTA=BEGIN,<total_size>")),
    }
}

/// Value of a hexadecimal byte digit.
pub open spec fn hex_value(b: u8) -> Option<nat> {
    digit_value(b as char, 16)
}

fn hex_digit_value(b: u8) -> (r: Option<u8>)
    ensures
        r is Some <==> hex_value(b) is Some,
        r is Some ==> r->0 == hex_value(b)->0 && r->0 < 16,
{
    if 0x30 <= b && b <= 0x39 {
        Some(b - 0x30)
    } else if 0x61 <= b && b <= 0x66 {
        Some(b - 0x61 + 10)
    } else if 0x41 <= b && b <= 0x46 {
        Some(b - 0x41 + 10)
    } else {
        None
    }
}

/// Place of the first byte from `i` on that is no hexadecimal digit, or the length.
pub open spec fn bad_digit(s: Seq<u8>, i: int) -> int
    decreases s.len() - i,
{
    if i >= s.len() || hex_value(s[i]) is None {
        i
    } else {
        bad_digit(s, i + 1)
    }
}

/// The bytes that hexadecimal digits stand for.
pub open spec fn hex_bytes(s: Seq<u8>) -> Seq<u8> {
    Seq::new(s.len() / 2, |i: int| (hex_value(s[2 * i])->0 * 16 + hex_value(s[2 * i + 1])->0) as u8)
}

/// AT+OTA=WRITE,<hex_chunk>
pub open spec fn ota_write_reply(args: Seq<char>, chunk_max: usize) -> ReplyView {
    let s = encode_utf8(trimmed(args));
    if trimmed(args).len() == 0 {
        ReplyView::Text(err_text(10, "empty data"@))
    } else if s.len() % 2 != 0 {
        ReplyView::Text(err_text(11, "odd hex length"@))
    } else if s.len() / 2 > chunk_max {
        ReplyView::Text(err_text(12, "chunk too large (max "@ + dec(chunk_max as nat) + " bytes)"@))
    } else if bad_digit(s, 0) < s.len() {
        ReplyView::Text(err_text(13, "invalid hex at "@ + dec(bad_digit(s, 0) as nat)))
    } else {
        ReplyView::Request(RequestView::OtaWrite(hex_bytes(s)))
    }
}

proof fn lemma_bad_digit(s: Seq<u8>, i: int, n: int)
    requires
        0 <= i <= n <= s.len(),
        forall|j: int| i <= j < n ==> hex_value(#[trigger] s[j]) is Some,
        n == s.len() || hex_value(s[n]) is None,
    ensures
        bad_digit(s, i) == n,
    decreases n - i,
{
    if i < n {
        assert(hex_value(s[i]) is Some);
        lemma_bad_digit(s, i + 1, n);
    }
}

fn invalid_hex(at: usize) -> (r: AtReply)
    ensures
        r@ == ReplyView::Text(err_text(13, "invalid hex at "@ + dec(at as nat))),
{
    let mut m = "invalid hex at ".to_owned();
    push_dec(&mut m, at as u64);
    text(err(13, m.as_str()))
}

pub fn handle_ota_write(args: &[char], chunk_max: usize) -> (r: AtReply)
    ensures
        r@ == ota_write_reply(args@, chunk_max),
{
    let value = trim(args);
    if value.len() == 0 {
        return text(err(10, "empty data"));
    }
    let s = utf8(value);
    if s.len() % 2 != 0 {
        return text(err(11, "odd hex length"));
    }
    if s.len() / 2 > chunk_max {
        let mut m = "chunk too large (max ".to_owned();
        push_dec(&mut m, chunk_max as u64);
        m.push_str(" bytes)");
        return text(err(12, m.as_str()));
    }
    let mut out: Vec<u8> = Vec::new();
    let mut i: usize = 0;
    while i < s.len()
        invariant
            i <= s@.len(),
            i % 2 == 0,
            s@.len() % 2 == 0,
            s@ == encode_utf8(trimmed(args@)),
            trimmed(args@).len() != 0,
            s@.len() / 2 <= chunk_max,
            out@.len() == i / 2,
            forall|j: int| 0 <= j < i ==> hex_value(#[trigger] s@[j]) is Some,
            forall|j: int| 0 <= j < i / 2 ==> out@[j] == #[trigger] hex_bytes(s@)[j],
        decreases s@.len() - i,
    {
        let first: u8 = match hex_digit_value(s[i]) {
            Some(v) => v,
            None => {
                proof {
                    lemma_bad_digit(s@, 0, i as int);
                }
                return invalid_hex(i);
            },
        };
        let second: u8 = match hex_digit_value(s[i + 1]) {
            Some(v) => v,
            None => {
                proof {
                    lemma_bad_digit(s@, 0, i + 1);
                }
                return invalid_hex(i + 1);
            },
        };
        assert(hex_bytes(s@)[i as int / 2] == (first * 16 + second) as u8);
        out.push(first * 16 + second);
        i += 2;
    }
    proof {
        lemma_bad_digit(s@, 0, s@.len() as int);
    }
    assert(out@ =~= hex_bytes(s@));
    AtReply::Request(AtRequest::OtaWrite(out))
}

/// AT+OTA=END
pub fn handle_ota_end() -> (r: AtReply)
    ensures
        r@ == ReplyView::Request(RequestView::OtaEnd),
{
    AtReply::Request(AtRequest::OtaEnd)
}

/// AT+OTA=ABORT
pub fn handle_ota_abort() -> (r: AtReply)
    ensures
        r@ == ReplyView::Request(RequestView::OtaAbort),
{
    AtReply::Request(AtRequest::OtaAbort)
}

/// AT+OTA=STATUS
pub open spec fn ota_status_text(o: OtaInfo) -> Seq<char> {
    Seq::<char>::empty() + "status="@ + dec(o.status as nat) + ",written="@ + dec(o.written as nat) + ",total="@
        + dec(o.total as nat)
}

pub fn handle_ota_status(ota: &OtaInfo) -> (r: AtReply)
    ensures
        r@ == ReplyView::Text(ok_text(ota_status_text(*ota))),
{
    let mut s = String::new();
    s.push_str("status=");
    push_dec(&mut s, ota.status as u64);
    s.push_str(",written=");
    push_dec(&mut s, ota.written as u64);
    s.push_str(",total=");
    push_dec(&mut s, ota.total as u64);
    text(ok_data(s.as_str()))
}

/// AT+OTA=REBOOT
pub open spec fn ota_reboot_effect(g: GatewayView, ota: OtaInfo) -> AtEffect {
    if ota.done_pending_reboot {
        answer(reset_requested(g, ResetSource::BleOta), ok_line())
    } else {
        answer(g, err_text(30, "cannot reboot: status="@ + dec(ota.status as nat)))
    }
}

pub fn handle_ota_reboot(gw: &mut Gateway, ota: &OtaInfo) -> (r: AtReply)
    ensures
        r@ == ota_reboot_effect(old(gw)@, *ota).reply,
        final(gw)@ == ota_reboot_effect(old(gw)@, *ota).g,
{
    if !ota.done_pending_reboot {
        let mut m = "cannot reboot: status=".to_owned();
        push_dec(&mut m, ota.status as u64);
        return text(err(30, m.as_str()));
    }
    gw.io.sys.request_reset(ResetSource::BleOta);
    text(ok_none())
}

} // verus!

//! Laws of the text commands.

use crate::ble_at::cfg_handlers::{cfgbtname_effect, cfgname_effect, cfgsn_effect};
use crate::ble_at::handlers::{read_effect, word_text, write_effect};
use crate::ble_at::ota_handlers::OtaInfo;
use crate::ble_at::parser::{line_effect, request_reply, starts_at};
use crate::ble_at::reply::{
    after_comma, answer, before_comma, err_text, ok_line, ok_text, word_value, ReplyView, RequestView,
};
use crate::ble_at::tick::gap_name;
use crate::bus::writes::current_storage;
use crate::device::system_config::padded;
use crate::gateway::GatewayView;
use crate::text::{law_stored_text_is_shown, trimmed};
use vstd::prelude::*;
use vstd::utf8::encode_utf8;

verus! {

/// Whether a text opens with another one.
pub open spec fn opens_with(t: Seq<char>, head: Seq<char>) -> bool {
    t.len() >= head.len() && t.take(head.len() as int) == head
}

/// Whether a text is an answer: "OK" or "ERROR " in front, a line end behind.
pub open spec fn is_answer(t: Seq<char>) -> bool {
    &&& opens_with(t, "OK"@) || opens_with(t, "ERROR "@)
    &&& t.len() >= 2
    &&& t[t.len() - 2] == '\r'
    &&& t[t.len() - 1] == '\n'
}

proof fn lemma_ok_line()
    ensures
        is_answer(ok_line()),
{
    reveal_strlit("OK\r\n");
    reveal_strlit("OK");
    assert(ok_line().take(2) =~= "OK"@);
}

proof fn lemma_ok_text(data: Seq<char>)
    ensures
        is_answer(ok_text(data)),
{
    reveal_strlit("OK ");
    reveal_strlit("OK");
    reveal_strlit("\r\n");
    assert(ok_text(data).take(2) =~= "OK"@);
}

proof fn lemma_err_text(code: nat, msg: Seq<char>)
    ensures
        is_answer(err_text(code, msg)),
{
    reveal_strlit("ERROR ");
    reveal_strlit(": ");
    reveal_strlit("\r\n");
    assert(err_text(code, msg).take(6) =~= "ERROR "@);
}

/// Every command that is answered at once is answered in the form of an answer.
pub proof fn law_answers_have_the_answer_form(g: GatewayView, line: Seq<char>, ota: OtaInfo)
    ensures
        line_effect(g, line, ota).reply matches ReplyView::Text(t) ==> is_answer(t),
{
    assert forall|d: Seq<char>| is_answer(#[trigger] ok_text(d)) by {
        lemma_ok_text(d);
    }
    assert forall|c: nat, m: Seq<char>| is_answer(#[trigger] err_text(c, m)) by {
        lemma_err_text(c, m);
    }
    lemma_ok_line();
}

/// Every request of a command is answered in the form of an answer, however it ended.
pub proof fn law_request_answers_have_the_answer_form(r: RequestView, count: nat, failure: Option<Seq<char>>)
    ensures
        is_answer(request_reply(r, count, failure)),
{
    assert forall|d: Seq<char>| is_answer(#[trigger] ok_text(d)) by {
        lemma_ok_text(d);
    }
    assert forall|c: nat, m: Seq<char>| is_answer(#[trigger] err_text(c, m)) by {
        lemma_err_text(c, m);
    }
}

/// A line that is no command is refused and changes nothing.
pub proof fn law_other_lines_change_nothing(g: GatewayView, line: Seq<char>, ota: OtaInfo)
    requires
        trimmed(line).len() > 0,
        !starts_at(trimmed(line)),
    ensures
        line_effect(g, line, ota) == answer(g, err_text(1, "not AT command"@)),
{
}

/// A word that AT+WRITE accepted is what AT+READ of the same address gives.
pub proof fn law_written_word_is_read(g: GatewayView, args: Seq<char>)
    requires
        write_effect(g, args).reply == ReplyView::Text(ok_line()),
        current_storage(g).proto.data.len() == 1500,
    ensures
        word_value(after_comma(args)) matches Some(v) && read_effect(write_effect(g, args).g, before_comma(args)).reply
            == ReplyView::Text(ok_text(word_text(v as u16))),
{
    lemma_ok_is_no_error();
}

proof fn lemma_ok_is_no_error()
    ensures
        forall|c: nat, m: Seq<char>| ok_line() != #[trigger] err_text(c, m),
{
    reveal_strlit("OK\r\n");
    reveal_strlit("ERROR ");
    assert forall|c: nat, m: Seq<char>| ok_line() != #[trigger] err_text(c, m) by {
        assert(err_text(c, m)[0] == 'E');
        assert(ok_line()[0] == 'O');
    }
}

/// A serial number that AT+CFGSN set is what it shows afterwards.
pub proof fn law_serial_number_is_shown(g: GatewayView, args: Seq<char>)
    requires
        trimmed(args).len() > 0,
        !trimmed(args).contains('\0'),
        encode_utf8(trimmed(args)).len() <= 32,
    ensures
        cfgsn_effect(cfgsn_effect(g, args).g, Seq::empty()).reply == ReplyView::Text(ok_text(trimmed(args))),
{
    law_stored_text_is_shown(trimmed(args), padded(encode_utf8(trimmed(args)), 32));
}

/// A place name that AT+CFGNAME set is what it shows afterwards.
pub proof fn law_place_name_is_shown(g: GatewayView, args: Seq<char>)
    requires
        trimmed(args).len() > 0,
        !trimmed(args).contains('\0'),
        encode_utf8(trimmed(args)).len() <= 16,
    ensures
        cfgname_effect(cfgname_effect(g, args).g, Seq::empty()).reply == ReplyView::Text(ok_text(trimmed(args))),
{
    law_stored_text_is_shown(trimmed(args), padded(encode_utf8(trimmed(args)), 16));
}

/// A BLE name that AT+CFGBTNAME set is what it shows afterwards, and what is
/// advertised.
pub proof fn law_ble_name_is_shown(g: GatewayView, args: Seq<char>)
    requires
        trimmed(args).len() > 0,
        !trimmed(args).contains('\0'),
        encode_utf8(trimmed(args)).len() <= 8,
    ensures
        cfgbtname_effect(cfgbtname_effect(g, args).g, Seq::empty()).reply == ReplyView::Text(ok_text(trimmed(args))),
        gap_name(cfgbtname_effect(g, args).g) == trimmed(args),
{
    law_stored_text_is_shown(trimmed(args), padded(encode_utf8(trimmed(args)), 8));
}

/// A refused AT+WRITE changes nothing.
pub proof fn law_refused_write_changes_nothing(g: GatewayView, args: Seq<char>)
    requires
        write_effect(g, args).reply != ReplyView::Text(ok_line()),
    ensures
        write_effect(g, args).g == g,
{
}

} // verus!

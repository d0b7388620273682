//! Laws of what text commands do.

use crate::ble_at::cfg_handlers::{
    cfg485_effect, cfgdhcp_effect, cfgip_effect, cfgmesh_effect, cfgread_effect, cfgwrite_effect,
};
use crate::ble_at::handlers::{
    bulkr_effect, bulkw_effect, list_text, outcome_text, read_effect, reset_requested, word_list_value, words_of,
    write_effect,
};
use crate::ble_at::logic_handlers::{ack, load_reply, logic_outcome, points_reply, LogicView};
use crate::ble_at::ota_handlers::{bad_digit, hex_bytes, hex_value, ota_begin_reply, ota_reboot_effect, OtaInfo};
use crate::ble_at::parser::{arguments, command_part, separator, starts_at};
use crate::ble_at::reply::{
    after_comma, before_comma, err_text, has_comma, ok_line, ok_text, word_value, ReplyView, RequestView,
};
use crate::bus::io_state::ResetSource;
use crate::bus::laws::started;
use crate::device::system_config::{cfg_read, cfg_write, cfg_write_result, ipv4_text, CfgView, Rs485Config};
use crate::device::DeviceCmd;
use crate::gateway::GatewayView;
use crate::text::{dec, hex, is_space, lemma_index_of, split, trimmed};
use crate::text_laws::{
    is_digit, is_hex_digit, law_address_reads_back, law_decimal_form, law_decimal_reads_back, law_hexadecimal_form,
    law_split_at_the_first_separator, law_trimmed_text_stays, law_word_arguments_read_back,
};
use vstd::prelude::*;

verus! {

// ---- Lines ----

/// What a line says: the command and its arguments.
pub open spec fn says(line: Seq<char>, cmd: Seq<char>, args: Seq<char>) -> bool {
    let t = trimmed(line);
    let c = command_part(t);
    &&& t.len() > 2
    &&& starts_at(t)
    &&& c.take(separator(c)) == cmd
    &&& arguments(c) == args
}

/// A line is "AT" in either case, an optional plus sign, the command, and behind an
/// equals sign its arguments; a question mark takes none.
pub proof fn law_line_is_a_command_and_its_arguments(cmd: Seq<char>, args: Seq<char>, head: Seq<char>)
    requires
        head == seq!['A', 'T', '+'] || head == seq!['A', 'T'] || head == seq!['a', 't', '+'] || head == seq!['a', 't'],
        cmd.len() > 0,
        cmd[0] != '+',
        !is_space(cmd.last()),
        forall|i: int| 0 <= i < cmd.len() ==> #[trigger] cmd[i] != '=' && cmd[i] != '?',
        args.len() > 0 ==> !is_space(args.last()),
    ensures
        says(head + (cmd + seq!['='] + args), cmd, args),
        says(head + cmd, cmd, Seq::empty()),
        says(head + (cmd + seq!['?']), cmd, Seq::empty()),
{
    lemma_arguments(cmd, args);
    let a = cmd + seq!['='] + args;
    assert(args.len() > 0 ==> a.last() == args.last());
    assert(args.len() == 0 ==> a.last() == '=');
    lemma_line(head, a);
    lemma_line(head, cmd);
    lemma_line(head, cmd + seq!['?']);
}

proof fn lemma_line(head: Seq<char>, c: Seq<char>)
    requires
        head == seq!['A', 'T', '+'] || head == seq!['A', 'T'] || head == seq!['a', 't', '+'] || head == seq!['a', 't'],
        c.len() > 0,
        c[0] != '+',
        !is_space(c.last()),
    ensures
        trimmed(head + c) == head + c,
        starts_at(head + c),
        command_part(head + c) == c,
        (head + c).len() > 2,
{
    reveal_strlit("AT");
    let t = head + c;
    assert(t.last() == c.last());
    assert(t[0] == head[0] && t[1] == head[1]);
    assert(t[head.len() as int] == c[0]);
    law_trimmed_text_stays(t);
    let first = t.take(2);
    assert(first.len() == 2 && first[0] == head[0] && first[1] == head[1]);
    assert("AT"@.len() == 2 && "AT"@[0] == 'A' && "AT"@[1] == 'T');
    assert forall|i: int| 0 <= i < 2 implies crate::text::upper(#[trigger] first[i]) == crate::text::upper("AT"@[i]) by {
        assert(i == 0 || i == 1);
    }
    assert(command_part(t) =~= c);
}

proof fn lemma_arguments(cmd: Seq<char>, args: Seq<char>)
    requires
        forall|i: int| 0 <= i < cmd.len() ==> #[trigger] cmd[i] != '=' && cmd[i] != '?',
    ensures
        ({
            let (a, b) = (cmd + seq!['='] + args, cmd + seq!['?']);
            &&& a.take(separator(a)) == cmd
            &&& arguments(a) == args
            &&& b.take(separator(b)) == cmd
            &&& arguments(b) == Seq::<char>::empty()
            &&& cmd.take(separator(cmd)) == cmd
            &&& arguments(cmd) == Seq::<char>::empty()
        }),
{
    let n = cmd.len() as int;
    let (a, b) = (cmd + seq!['='] + args, cmd + seq!['?']);
    assert forall|i: int| 0 <= i < n implies a[i] != '=' && a[i] != '?' && b[i] != '=' && b[i] != '?' by {
        assert(a[i] == cmd[i] && b[i] == cmd[i]);
    }
    assert(a[n] == '=' && b[n] == '?');
    lemma_index_of(a, '=', n);
    lemma_index_of(b, '?', n);
    lemma_index_of(b, '=', n + 1);
    lemma_index_of(cmd, '=', n);
    lemma_index_of(cmd, '?', n);
    lemma_index_behind(a, '?', n);
    assert(a.take(n) =~= cmd && b.take(n) =~= cmd && cmd.take(n) =~= cmd);
    assert(a.skip(n + 1) =~= args);
}

proof fn lemma_index_behind(s: Seq<char>, c: char, n: int)
    requires
        0 <= n < s.len(),
        forall|i: int| 0 <= i <= n ==> s[i] != c,
    ensures
        crate::text::index_of(s, c) > n,
    decreases n,
{
    assert(s[0] != c);
    if n > 0 {
        assert forall|i: int| 0 <= i <= n - 1 implies s.drop_first()[i] != c by {
            assert(s[i + 1] != c);
        }
        lemma_index_behind(s.drop_first(), c, n - 1);
    } else {
        lemma_index_is_no_less(s.drop_first(), c);
    }
}

proof fn lemma_index_is_no_less(s: Seq<char>, c: char)
    ensures
        crate::text::index_of(s, c) >= 0,
    decreases s.len(),
{
    if s.len() > 0 && s[0] != c {
        lemma_index_is_no_less(s.drop_first(), c);
    }
}

// ---- Arguments ----

/// Two texts with a comma between them.
pub open spec fn pair(a: Seq<char>, b: Seq<char>) -> Seq<char> {
    a + seq![','] + b
}

proof fn lemma_dec_chars(n: nat)
    ensures
        dec(n).len() >= 1,
        is_digit(dec(n)[0]),
        is_digit(dec(n).last()),
        forall|i: int| 0 <= i < dec(n).len() ==> #[trigger] dec(n)[i] != ',' && dec(n)[i] != '.',
{
    law_decimal_form(n);
    assert forall|i: int| 0 <= i < dec(n).len() implies #[trigger] dec(n)[i] != ',' && dec(n)[i] != '.' by {
        assert(is_digit(dec(n)[i]));
    }
}

proof fn lemma_pair(a: Seq<char>, b: Seq<char>)
    requires
        forall|i: int| 0 <= i < a.len() ==> #[trigger] a[i] != ',',
    ensures
        before_comma(pair(a, b)) == a,
        after_comma(pair(a, b)) == b,
        has_comma(pair(a, b)),
{
    let s = pair(a, b);
    let n = a.len() as int;
    assert forall|i: int| 0 <= i < n implies s[i] != ',' by {
        assert(s[i] == a[i]);
    }
    assert(s[n] == ',');
    lemma_index_of(s, ',', n);
    assert(s.take(n) =~= a);
    assert(s.skip(n + 1) =~= b);
}

proof fn lemma_number_pair(a: u16, b: u16)
    ensures
        word_value(before_comma(pair(dec(a as nat), dec(b as nat)))) == Some(a as nat),
        word_value(after_comma(pair(dec(a as nat), dec(b as nat)))) == Some(b as nat),
        has_comma(pair(dec(a as nat), dec(b as nat))),
{
    lemma_dec_chars(a as nat);
    lemma_pair(dec(a as nat), dec(b as nat));
    law_word_arguments_read_back(a, true);
    law_word_arguments_read_back(b, true);
}

// ---- The protocol store ----

/// AT+READ shows a word of the protocol store in decimal and with four hexadecimal
/// digits; an address past the store is refused with code 11.
pub proof fn law_read_shows_the_word(g: GatewayView, a: u16)
    requires
        started(g),
    ensures
        ({
            let e = read_effect(g, dec(a as nat));
            let w = g.storage.snapshot->0.proto.data[a as int];
            &&& e.g == g
            &&& a < 1500 ==> e.reply == ReplyView::Text(
                ok_text(dec(w as nat) + ",0x"@ + hex(w as nat, 4, true)),
            )
            &&& a >= 1500 ==> e.reply == ReplyView::Text(err_text(11, "addr out of range"@))
        }),
{
    law_word_arguments_read_back(a, true);
}

/// AT+WRITE writes a word of the protocol store, which then waits to be committed.
pub proof fn law_write_stores_the_word(g: GatewayView, a: u16, v: u16)
    requires
        started(g),
    ensures
        ({
            let e = write_effect(g, pair(dec(a as nat), dec(v as nat)));
            let before = g.storage.snapshot->0.proto;
            let after = e.g.storage.snapshot->0.proto;
            &&& a < 1500 ==> e.reply == ReplyView::Text(ok_line()) && after.data == before.data.update(a as int, v)
                && after.dirty && after.version == before.version && after.length == before.length
            &&& a >= 1500 ==> e.g == g && e.reply == ReplyView::Text(err_text(11, "addr out of range"@))
        }),
{
    lemma_number_pair(a, v);
    let e = write_effect(g, pair(dec(a as nat), dec(v as nat)));
    if a < 1500 {
        assert(e.g.storage.snapshot->0.proto.data =~= g.storage.snapshot->0.proto.data.update(a as int, v));
    }
}

proof fn lemma_word_form(v: u16)
    ensures
        ({
            let t = "0x"@ + hex(v as nat, 4, true);
            &&& t.len() == 6
            &&& word_value(t) == Some(v as nat)
            &&& forall|i: int| 0 <= i < t.len() ==> #[trigger] t[i] != ','
        }),
{
    reveal_strlit("0x");
    let h = hex(v as nat, 4, true);
    let t = "0x"@ + h;
    assert("0x"@ =~= seq!['0', 'x']);
    law_word_arguments_read_back(v, true);
    law_hexadecimal_form(v as nat, 4, true);
    assert forall|i: int| 0 <= i < t.len() implies #[trigger] t[i] != ',' by {
        if i >= 2 {
            assert(t[i] == h[i - 2]);
            assert(is_hex_digit(h[i - 2]));
        }
    }
}

proof fn lemma_list_front(words: Seq<u16>)
    requires
        words.len() > 1,
    ensures
        list_text(words) == ("0x"@ + hex(words[0] as nat, 4, true)) + seq![','] + list_text(words.drop_first()),
    decreases words.len(),
{
    reveal_strlit(",");
    assert(","@ =~= seq![',']);
    let front = words.drop_last();
    let rest = words.drop_first();
    let tail = "0x"@ + hex(words.last() as nat, 4, true);
    let first = "0x"@ + hex(words[0] as nat, 4, true);
    if words.len() == 2 {
        assert(front.drop_last() =~= Seq::<u16>::empty());
        assert(rest.drop_last() =~= Seq::<u16>::empty());
        assert(list_text(Seq::<u16>::empty()) =~= Seq::<char>::empty());
        assert(list_text(front) =~= first);
        assert(list_text(rest) =~= tail);
        assert(list_text(words) =~= first + seq![','] + tail);
    } else {
        lemma_list_front(front);
        assert(front.drop_first() =~= rest.drop_last());
        assert(list_text(rest) =~= list_text(rest.drop_last()) + seq![','] + tail);
        assert(list_text(words) =~= list_text(front) + seq![','] + tail);
        assert(list_text(words) =~= first + seq![','] + list_text(rest));
    }
}

proof fn lemma_list_parts(words: Seq<u16>)
    requires
        words.len() > 0,
    ensures
        split(list_text(words), ',').len() == words.len(),
        forall|k: int|
            0 <= k < words.len() ==> #[trigger] split(list_text(words), ',')[k] == "0x"@ + hex(words[k] as nat, 4, true),
    decreases words.len(),
{
    let first = "0x"@ + hex(words[0] as nat, 4, true);
    lemma_word_form(words[0]);
    let rest = words.drop_first();
    if words.len() == 1 {
        assert(words.drop_last() =~= Seq::<u16>::empty());
        assert(list_text(Seq::<u16>::empty()) =~= Seq::<char>::empty());
        assert(list_text(words) =~= first);
        law_split_at_the_first_separator(first, ',', Seq::empty());
    } else {
        lemma_list_front(words);
        law_split_at_the_first_separator(first, ',', list_text(rest));
        lemma_list_parts(rest);
        assert forall|k: int| 0 <= k < words.len() implies #[trigger] split(list_text(words), ',')[k] == "0x"@ + hex(
            words[k] as nat,
            4,
            true,
        ) by {
            if k > 0 {
                assert(split(list_text(rest), ',')[k - 1] == "0x"@ + hex(rest[k - 1] as nat, 4, true));
            }
        }
    }
}

proof fn lemma_words_of_list(words: Seq<u16>, n: nat)
    requires
        n <= words.len() <= 128,
        words.len() > 0,
    ensures
        words_of(split(list_text(words), ','), n) == words.take(n as int),
    decreases n,
{
    lemma_list_parts(words);
    if n > 0 {
        lemma_words_of_list(words, (n - 1) as nat);
        lemma_word_form(words[n - 1]);
        assert(words.take(n - 1).push(words[n - 1]) =~= words.take(n as int));
    } else {
        assert(words.take(0) =~= Seq::<u16>::empty());
    }
}

/// A list of up to 128 words that is written reads back.
pub proof fn law_word_list_reads_back(words: Seq<u16>)
    requires
        0 < words.len() <= 128,
    ensures
        word_list_value(list_text(words)) == words,
{
    lemma_list_parts(words);
    lemma_words_of_list(words, words.len());
    assert(words.take(words.len() as int) =~= words);
}

/// AT+BULKR shows as many words as were asked for, or as there are, and they read back.
pub proof fn law_bulk_read_shows_the_words(g: GatewayView, start: u16, len: u16)
    requires
        started(g),
        start < 1500,
        1 <= len <= 1500,
    ensures
        ({
            let e = bulkr_effect(g, pair(dec(start as nat), dec(len as nat)));
            let end = if start + len < 1500 {
                start + len
            } else {
                1500
            };
            &&& e.g == g
            &&& e.reply == ReplyView::Text(
                ok_text(list_text(g.storage.snapshot->0.proto.data.subrange(start as int, end))),
            )
        }),
{
    lemma_number_pair(start, len);
}

/// AT+BULKR refuses other lengths with code 12 and other places with code 11.
pub proof fn law_bulk_read_refuses(g: GatewayView, start: u16, len: u16)
    requires
        started(g),
        start >= 1500 || len == 0 || len > 1500,
    ensures
        ({
            let e = bulkr_effect(g, pair(dec(start as nat), dec(len as nat)));
            &&& e.g == g
            &&& len == 0 || len > 1500 ==> e.reply == ReplyView::Text(err_text(12, "len out of range (1..=1500)"@))
            &&& 1 <= len <= 1500 ==> e.reply == ReplyView::Text(err_text(11, "start out of range"@))
        }),
{
    lemma_number_pair(start, len);
}

/// AT+BULKW writes the words behind the first one from the place that the first one
/// gives.
pub proof fn law_bulk_write_stores_the_words(g: GatewayView, start: u16, values: Seq<u16>, k: int)
    requires
        started(g),
        1 <= values.len() < 128,
        0 <= k < 1500,
    ensures
        ({
            let e = bulkw_effect(g, list_text(seq![start] + values));
            let before = g.storage.snapshot->0.proto.data;
            let after = e.g.storage.snapshot->0.proto;
            &&& e.reply == ReplyView::Text(ok_text(dec(values.len()) + " words"@))
            &&& after.dirty
            &&& after.data[k] == if start <= k < start + values.len() {
                values[k - start]
            } else {
                before[k]
            }
        }),
{
    let all = seq![start] + values;
    law_word_list_reads_back(all);
    assert(all.skip(1) =~= values);
}

// ---- Settings ----

proof fn lemma_address_text(b: Seq<u8>)
    requires
        b.len() == 4,
    ensures
        ({
            let t = ipv4_text(b);
            &&& t.len() >= 7
            &&& is_digit(t[0])
            &&& is_digit(t.last())
            &&& forall|i: int| 0 <= i < t.len() ==> #[trigger] t[i] != ','
        }),
{
    reveal_strlit(".");
    let (d0, d1, d2, d3) = (dec(b[0] as nat), dec(b[1] as nat), dec(b[2] as nat), dec(b[3] as nat));
    lemma_dec_chars(b[0] as nat);
    lemma_dec_chars(b[1] as nat);
    lemma_dec_chars(b[2] as nat);
    lemma_dec_chars(b[3] as nat);
    assert("."@ =~= seq!['.']);
    let t = ipv4_text(b);
    assert(t =~= d0 + seq!['.'] + d1 + seq!['.'] + d2 + seq!['.'] + d3);
    assert(t[0] == d0[0]);
    assert(t.last() == d3.last());
    let (a, c, e) = (
        d0 + seq!['.'],
        d0 + seq!['.'] + d1 + seq!['.'],
        d0 + seq!['.'] + d1 + seq!['.'] + d2 + seq!['.'],
    );
    assert forall|i: int| 0 <= i < t.len() implies #[trigger] t[i] != ',' by {
        if i < d0.len() {
            assert(t[i] == d0[i]);
        } else if i < a.len() {
            assert(t[i] == '.');
        } else if i < a.len() + d1.len() {
            assert(t[i] == d1[i - a.len()]);
        } else if i < c.len() {
            assert(t[i] == '.');
        } else if i < c.len() + d2.len() {
            assert(t[i] == d2[i - c.len()]);
        } else if i < e.len() {
            assert(t[i] == '.');
        } else {
            assert(t[i] == d3[i - e.len()]);
        }
    }
}

/// AT+CFGIP sets address, mask, gateway and name server and switches DHCP off; without a
/// name server the gateway is it.
pub proof fn law_network_settings_are_set(
    g: GatewayView,
    ip: Seq<u8>,
    mask: Seq<u8>,
    gateway: Seq<u8>,
    dns: Seq<u8>,
)
    requires
        g.config is Some,
        ip.len() == 4,
        mask.len() == 4,
        gateway.len() == 4,
        dns.len() == 4,
    ensures
        ({
            let c = g.config->0;
            let three = pair(ipv4_text(ip), pair(ipv4_text(mask), ipv4_text(gateway)));
            let four = pair(ipv4_text(ip), pair(ipv4_text(mask), pair(ipv4_text(gateway), ipv4_text(dns))));
            let (e, f) = (cfgip_effect(g, three), cfgip_effect(g, four));
            &&& e.reply == ReplyView::Text(ok_line())
            &&& e.g.config == Some(CfgView { ip, mask, gateway, dns: gateway, dhcp: false, ..c })
            &&& f.reply == ReplyView::Text(ok_line())
            &&& f.g.config == Some(CfgView { ip, mask, gateway, dns, dhcp: false, ..c })
        }),
{
    lemma_three_addresses(ip, mask, gateway);
    lemma_four_addresses(ip, mask, gateway, dns);
    law_address_reads_back(ip);
    law_address_reads_back(mask);
    law_address_reads_back(gateway);
    law_address_reads_back(dns);
}

proof fn lemma_more_addresses(b: Seq<u8>, rest: Seq<char>)
    requires
        b.len() == 4,
        rest.len() > 0,
        is_digit(rest.last()),
    ensures
        ({
            let t = pair(ipv4_text(b), rest);
            &&& split(t, ',') == seq![ipv4_text(b)] + split(rest, ',')
            &&& t.len() > 0
            &&& is_digit(t[0])
            &&& is_digit(t.last())
            &&& trimmed(t) == t
        }),
{
    lemma_address_text(b);
    law_split_at_the_first_separator(ipv4_text(b), ',', rest);
    let t = pair(ipv4_text(b), rest);
    assert(t[0] == ipv4_text(b)[0]);
    assert(t.last() == rest.last());
    law_trimmed_text_stays(t);
}

proof fn lemma_three_addresses(ip: Seq<u8>, mask: Seq<u8>, gateway: Seq<u8>)
    requires
        ip.len() == 4,
        mask.len() == 4,
        gateway.len() == 4,
    ensures
        ({
            let t = pair(ipv4_text(ip), pair(ipv4_text(mask), ipv4_text(gateway)));
            &&& split(t, ',') == seq![ipv4_text(ip), ipv4_text(mask), ipv4_text(gateway)]
            &&& trimmed(t) == t
            &&& t.len() > 0
        }),
{
    let (a, b, c) = (ipv4_text(ip), ipv4_text(mask), ipv4_text(gateway));
    lemma_address_text(gateway);
    law_split_at_the_first_separator(c, ',', Seq::empty());
    lemma_more_addresses(mask, c);
    lemma_more_addresses(ip, pair(b, c));
    assert(split(pair(a, pair(b, c)), ',') =~= seq![a, b, c]);
}

proof fn lemma_four_addresses(ip: Seq<u8>, mask: Seq<u8>, gateway: Seq<u8>, dns: Seq<u8>)
    requires
        ip.len() == 4,
        mask.len() == 4,
        gateway.len() == 4,
        dns.len() == 4,
    ensures
        ({
            let t = pair(ipv4_text(ip), pair(ipv4_text(mask), pair(ipv4_text(gateway), ipv4_text(dns))));
            &&& split(t, ',') == seq![ipv4_text(ip), ipv4_text(mask), ipv4_text(gateway), ipv4_text(dns)]
            &&& trimmed(t) == t
            &&& t.len() > 0
        }),
{
    let (a, b, c, d) = (ipv4_text(ip), ipv4_text(mask), ipv4_text(gateway), ipv4_text(dns));
    lemma_address_text(dns);
    law_split_at_the_first_separator(d, ',', Seq::empty());
    lemma_more_addresses(gateway, d);
    lemma_more_addresses(mask, pair(c, d));
    lemma_more_addresses(ip, pair(b, pair(c, d)));
    assert(split(pair(a, pair(b, pair(c, d))), ',') =~= seq![a, b, c, d]);
}

/// Seven numbers with commas between them.
pub open spec fn seven(a: u16, b: u16, c: u16, d: u16, e: u16, f: u16, h: u16) -> Seq<char> {
    pair(
        dec(a as nat),
        pair(
            dec(b as nat),
            pair(
                dec(c as nat),
                pair(dec(d as nat), pair(dec(e as nat), pair(dec(f as nat), dec(h as nat)))),
            ),
        ),
    )
}

proof fn lemma_seven(a: u16, b: u16, c: u16, d: u16, e: u16, f: u16, h: u16)
    ensures
        ({
            let parts = split(seven(a, b, c, d, e, f, h), ',');
            &&& parts.len() == 7
            &&& word_value(parts[0]) == Some(a as nat)
            &&& word_value(parts[1]) == Some(b as nat)
            &&& word_value(parts[2]) == Some(c as nat)
            &&& word_value(parts[3]) == Some(d as nat)
            &&& word_value(parts[4]) == Some(e as nat)
            &&& word_value(parts[5]) == Some(f as nat)
            &&& word_value(parts[6]) == Some(h as nat)
        }),
{
    let s5 = pair(dec(f as nat), dec(h as nat));
    let s4 = pair(dec(e as nat), s5);
    let s3 = pair(dec(d as nat), s4);
    let s2 = pair(dec(c as nat), s3);
    let s1 = pair(dec(b as nat), s2);
    lemma_last_number(h);
    lemma_more_numbers(f, dec(h as nat));
    lemma_more_numbers(e, s5);
    lemma_more_numbers(d, s4);
    lemma_more_numbers(c, s3);
    lemma_more_numbers(b, s2);
    lemma_more_numbers(a, s1);
}

proof fn lemma_last_number(n: u16)
    ensures
        split(dec(n as nat), ',') == seq![dec(n as nat)],
        word_value(dec(n as nat)) == Some(n as nat),
{
    lemma_dec_chars(n as nat);
    law_split_at_the_first_separator(dec(n as nat), ',', Seq::empty());
    law_word_arguments_read_back(n, true);
}

proof fn lemma_more_numbers(n: u16, rest: Seq<char>)
    ensures
        split(pair(dec(n as nat), rest), ',') == seq![dec(n as nat)] + split(rest, ','),
        word_value(dec(n as nat)) == Some(n as nat),
{
    lemma_dec_chars(n as nat);
    law_split_at_the_first_separator(dec(n as nat), ',', rest);
    law_word_arguments_read_back(n, true);
}

/// AT+CFG485 sets the line of one of the first two ports: rate in hundreds, data bits,
/// stop bits, parity, address and mode. What is out of range is refused with code 11 and
/// changes nothing.
pub proof fn law_port_settings_are_set(
    g: GatewayView,
    i: u16,
    baud: u16,
    data: u16,
    stop: u16,
    parity: u16,
    slave: u16,
    mode: u16,
)
    requires
        g.config is Some,
        g.config->0.shaped(),
    ensures
        ({
            let c = g.config->0;
            let e = cfg485_effect(g, seven(i, baud, data, stop, parity, slave, mode));
            let right = i <= 1 && 7 <= data <= 8 && 1 <= stop <= 2 && parity <= 2 && mode <= 2;
            &&& right ==> e.reply == ReplyView::Text(ok_line()) && e.g.config == Some(
                CfgView {
                    rs485: c.rs485.update(
                        i as int,
                        Rs485Config {
                            baudrate: (100 * baud) as u32,
                            data_bits: data as u8,
                            stop_bits: stop as u8,
                            parity: parity as u8,
                            slave_addr: (slave % 256) as u8,
                            mode: mode as u8,
                            ..c.rs485[i as int]
                        },
                    ),
                    ..c
                },
            )
            &&& !right ==> e.g == g && exists|m: Seq<char>| e.reply == ReplyView::Text(#[trigger] err_text(11, m))
        }),
{
    lemma_seven(i, baud, data, stop, parity, slave, mode);
    let e = cfg485_effect(g, seven(i, baud, data, stop, parity, slave, mode));
    let right = i <= 1 && 7 <= data <= 8 && 1 <= stop <= 2 && parity <= 2 && mode <= 2;
    if !right {
        let m = if i > 1 {
            "invalid idx (0..1)"@
        } else if !(7 <= data <= 8) {
            "data_bits must be 7 or 8"@
        } else if !(1 <= stop <= 2) {
            "stop_bits must be 1 or 2"@
        } else if parity > 2 {
            "parity must be 0/1/2"@
        } else {
            "mode must be 0/1/2"@
        };
        assert(e.reply == ReplyView::Text(err_text(11, m)));
    }
}

/// AT+CFGDHCP and AT+CFGMESH switch on with any number but zero.
pub proof fn law_switches_are_set(g: GatewayView, v: u16)
    requires
        g.config is Some,
    ensures
        ({
            let c = g.config->0;
            let (e, f) = (cfgdhcp_effect(g, dec(v as nat)), cfgmesh_effect(g, dec(v as nat)));
            &&& e.g.config == Some(CfgView { dhcp: v > 0, ..c })
            &&& f.g.config == Some(CfgView { ble_mesh_enable: v > 0, ..c })
            &&& e.reply == ReplyView::Text(ok_text("dhcp="@ + dec(v as nat)))
            &&& f.reply == ReplyView::Text(ok_text("ble_mesh="@ + dec(v as nat)))
        }),
{
    law_word_arguments_read_back(v, true);
}

/// AT+CFGREAD shows a configuration register from 2176 to 4223, zero where there is no
/// setting; other addresses are refused.
pub proof fn law_setting_is_shown(g: GatewayView, a: u16)
    requires
        g.config is Some,
    ensures
        ({
            let e = cfgread_effect(g, dec(a as nat));
            let v = match cfg_read(g.config->0, a) {
                Some(v) => v,
                None => 0,
            };
            &&& e.g == g
            &&& 2176 <= a < 4224 ==> e.reply == ReplyView::Text(
                ok_text(dec(v as nat) + ",0x"@ + hex(v as nat, 4, true)),
            )
            &&& a < 2176 || a >= 4224 ==> exists|m: Seq<char>| e.reply == ReplyView::Text(#[trigger] err_text(11, m))
        }),
{
    law_word_arguments_read_back(a, true);
    if a < 2176 || a >= 4224 {
        assert(cfgread_effect(g, dec(a as nat)).reply == ReplyView::Text(
            err_text(11, crate::ble_at::cfg_handlers::range_text()),
        ));
    }
}

/// AT+CFGWRITE writes a configuration register from 2176 to 4223. A setting that is
/// applied is asked of the storage task; a register without a setting is refused with
/// code 12 and changes nothing.
pub proof fn law_setting_is_written(g: GatewayView, a: u16, v: u16)
    requires
        g.config is Some,
        g.mailbox.len() < 32,
    ensures
        ({
            let e = cfgwrite_effect(g, pair(dec(a as nat), dec(v as nat)));
            let inside = 2176 <= a < 4224;
            let r = cfg_write_result(a, v);
            &&& inside ==> e.g.config == Some(cfg_write(g.config->0, a, v))
            &&& inside && (r is Written || r is Persist) ==> e.reply == ReplyView::Text(ok_line()) && e.g.mailbox
                == g.mailbox
            &&& inside && r is Apply ==> e.reply == ReplyView::Text(ok_text("apply requested"@)) && e.g.mailbox
                == g.mailbox.push(DeviceCmd::ApplyConfig)
            &&& inside && r is NotFound ==> e.reply == ReplyView::Text(err_text(12, "field not found"@)) && e.g.mailbox
                == g.mailbox
            &&& !inside ==> e.g == g && e.reply == ReplyView::Text(err_text(11, "addr out of range"@))
        }),
{
    lemma_number_pair(a, v);
}

// ---- Resets and updates ----

/// A reset that was asked for over text has the number 2, one after an update 3, and one
/// over Modbus 1.
pub proof fn law_resets_have_their_source(g: GatewayView)
    ensures
        reset_requested(g, ResetSource::BleAt).io.sys.reset_request == 2,
        reset_requested(g, ResetSource::BleOta).io.sys.reset_request == 3,
        ResetSource::Modbus.spec_code() == 1,
        reset_requested(g, ResetSource::BleAt).io.do_ == g.io.do_,
        reset_requested(g, ResetSource::BleAt).storage == g.storage,
{
}

/// An update is begun with its size.
pub proof fn law_update_begins_with_its_size(n: u32)
    ensures
        ota_begin_reply(dec(n as nat)) == ReplyView::Request(RequestView::OtaBegin(n)),
{
    lemma_dec_chars(n as nat);
    law_trimmed_text_stays(dec(n as nat));
    law_decimal_reads_back(n as nat, 0xFFFF_FFFF);
}

/// The device restarts after an update only where the update is complete.
pub proof fn law_restart_after_a_complete_update(g: GatewayView, ota: OtaInfo)
    ensures
        ota.done_pending_reboot ==> ota_reboot_effect(g, ota).g.io.sys.reset_request == 3,
        !ota.done_pending_reboot ==> ota_reboot_effect(g, ota).g == g,
{
}

/// A piece of an update is an even number of hexadecimal digits, within the limit; each
/// two of them are a byte, the first one high.
pub proof fn law_update_piece_is_hexadecimal(s: Seq<u8>, k: int)
    requires
        0 <= k < s.len() / 2,
        forall|i: int| 0 <= i < s.len() ==> hex_value(#[trigger] s[i]) is Some,
    ensures
        hex_bytes(s).len() == s.len() / 2,
        hex_bytes(s)[k] == 16 * hex_value(s[2 * k])->0 + hex_value(s[2 * k + 1])->0,
        bad_digit(s, 0) == s.len(),
        forall|i: int| 0 <= i < s.len() ==> hex_value(#[trigger] s[i])->0 < 16,
{
    lemma_no_bad_digit(s, 0);
    assert(hex_value(s[2 * k]) is Some && hex_value(s[2 * k + 1]) is Some);
}

proof fn lemma_no_bad_digit(s: Seq<u8>, i: int)
    requires
        0 <= i <= s.len(),
        forall|j: int| 0 <= j < s.len() ==> hex_value(#[trigger] s[j]) is Some,
    ensures
        bad_digit(s, i) == s.len(),
    decreases s.len() - i,
{
    if i < s.len() {
        assert(hex_value(s[i]) is Some);
        lemma_no_bad_digit(s, i + 1);
    }
}

/// The value of a hexadecimal digit.
pub proof fn law_hexadecimal_digit_values(b: u8)
    ensures
        0x30 <= b <= 0x39 ==> hex_value(b) == Some((b - 0x30) as nat),
        0x41 <= b <= 0x46 ==> hex_value(b) == Some((b - 0x41 + 10) as nat),
        0x61 <= b <= 0x66 ==> hex_value(b) == Some((b - 0x61 + 10) as nat),
        b < 0x30 || 0x39 < b < 0x41 || 0x46 < b < 0x61 || 0x66 < b ==> hex_value(b) is None,
{
}

/// What was done outside is reported as done, or with code 20 and why it failed.
pub proof fn law_outcome_is_reported(done: Seq<char>, what: Seq<char>, failure: Seq<char>)
    ensures
        outcome_text(done, what, None) == ok_text(done),
        outcome_text(done, what, Some(failure)) == err_text(20, what + failure),
{
}

// ---- Stored settings of the handheld ----

/// 0xD0 stores settings of up to 254 bytes under a number up to 0x24 or 0x26, behind a
/// mark and their length; others are refused with 0x84.
pub proof fn law_settings_are_stored(g: GatewayView, data: Seq<u8>)
    requires
        data.len() >= 2,
    ensures
        ({
            let o = logic_outcome(g, 0xD0, data);
            let sub = data[0];
            let fits = (sub <= 0x24 || sub == 0x26) && data.len() <= 255;
            &&& fits ==> o == LogicView::Store(
                sub,
                seq![0x55u8, (data.len() - 1) as u8] + data.subrange(1, data.len() as int),
            )
            &&& !fits ==> o == LogicView::Reply(seq![0xD0u8, sub, 0x84])
        }),
{
    assert(data.skip(1) =~= data.subrange(1, data.len() as int));
    assert(ack(0xD0, data[0], false) =~= seq![0xD0u8, data[0], 0x84]);
}

/// 0xD1 loads settings, 0xD2 removes them all, and 0xD3 gives the state of the points:
/// sixteen inputs, then sixteen outputs, the first in the lowest bit.
pub proof fn law_other_setting_commands(g: GatewayView, data: Seq<u8>)
    ensures
        data.len() > 0 ==> logic_outcome(g, 0xD1, data) == LogicView::Load(data[0]),
        logic_outcome(g, 0xD2, data) == LogicView::Erase,
        logic_outcome(g, 0xD3, data) matches LogicView::Reply(r) && r.len() == 8 && r[0] == 0xD3 && r[1] == 0x27 && r[4]
            == 0xD3 && r[5] == 0x28 && r[2] + 256 * r[3] == g.io.di % 65536 && r[6] + 256 * r[7] == g.io.do_ % 65536,
{
    let r = points_reply(g);
    assert(r[2] == g.io.di % 256 && r[3] == (g.io.di / 256) % 256);
    assert(r[6] == g.io.do_ % 256 && r[7] == (g.io.do_ / 256) % 256);
}

/// Settings that are not there, or not as they were stored, are refused with 0x84.
pub proof fn law_missing_settings_are_refused(sub: u8, blob: Seq<u8>)
    ensures
        load_reply(sub, None) == seq![0xD1u8, sub, 0x84],
        blob.len() < 2 || blob[0] != 0x55 || blob.len() < 2 + blob[1] ==> load_reply(sub, Some(blob)) == seq![
            0xD1u8,
            sub,
            0x84,
        ],
{
    assert(ack(0xD1, sub, false) =~= seq![0xD1u8, sub, 0x84]);
}

} // verus!

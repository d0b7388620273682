//! Laws of numbers, lists and addresses as text.

use crate::ble_at::reply::word_value;
use crate::device::system_config::{address_value, ipv4_text, mac_text, mac_text_from, version_code};
use crate::text::{
    dec, dec_digit, digit_value, digits_value, hex, hex_digit, index_of, is_space, lemma_index_of, number, same_text,
    split, trim_end, trim_start, trimmed, unsigned_part, upper,
};
use vstd::prelude::*;

verus! {

// ---- Numbers ----

/// Whether a character is a decimal digit.
pub open spec fn is_digit(c: char) -> bool {
    '0' <= c <= '9'
}

/// Whether a character is a hexadecimal digit.
pub open spec fn is_hex_digit(c: char) -> bool {
    '0' <= c <= '9' || 'A' <= c <= 'F' || 'a' <= c <= 'f'
}

proof fn lemma_dec_digit(d: int)
    requires
        0 <= d < 10,
    ensures
        is_digit(dec_digit(d)),
        digit_value(dec_digit(d), 10) == Some(d as nat),
        dec_digit(d) as int == 48 + d,
{
}

proof fn lemma_hex_digit(d: int, caps: bool)
    requires
        0 <= d < 16,
    ensures
        is_hex_digit(hex_digit(d, caps)),
        digit_value(hex_digit(d, caps), 16) == Some(d as nat),
{
}

/// The decimal form of a number has digits only, no leading zero, and the number as its
/// value.
pub proof fn law_decimal_form(n: nat)
    ensures
        dec(n).len() >= 1,
        forall|i: int| 0 <= i < dec(n).len() ==> is_digit(#[trigger] dec(n)[i]),
        digits_value(dec(n), 10) == Some(n),
        n > 0 ==> dec(n)[0] != '0',
        n == 0 ==> dec(n) == seq!['0'],
    decreases n,
{
    lemma_dec_digit((n % 10) as int);
    if n < 10 {
        assert(dec(n).drop_last() =~= Seq::<char>::empty());
        assert(digits_value(Seq::<char>::empty(), 10) == Some(0nat));
        lemma_dec_digit(n as int);
    } else {
        law_decimal_form(n / 10);
        assert(dec(n).drop_last() =~= dec(n / 10));
        assert(dec(n)[0] == dec(n / 10)[0]);
        assert((n / 10) * 10 + n % 10 == n);
    }
}

/// A number that is written in decimal reads back, where it is within the limit.
pub proof fn law_decimal_reads_back(n: nat, max: nat)
    ensures
        number(dec(n), 10, max) == if n <= max {
            Some(n)
        } else {
            None
        },
{
    law_decimal_form(n);
    assert(is_digit(dec(n)[0]));
    assert(unsigned_part(dec(n)) == dec(n));
}

/// The hexadecimal form of a number has digits only, as many as are asked for at least,
/// and the number as its value.
pub proof fn law_hexadecimal_form(n: nat, width: nat, caps: bool)
    ensures
        hex(n, width, caps).len() >= 1,
        hex(n, width, caps).len() >= width,
        forall|i: int| 0 <= i < hex(n, width, caps).len() ==> is_hex_digit(#[trigger] hex(n, width, caps)[i]),
        digits_value(hex(n, width, caps), 16) == Some(n),
        n < 0x1_0000 && width == 4 ==> hex(n, width, caps).len() == 4,
        n < 0x100 && width == 2 ==> hex(n, width, caps).len() == 2,
    decreases n + width,
{
    let h = hex(n, width, caps);
    lemma_hex_digit((n % 16) as int, caps);
    if n >= 16 || width > 1 {
        let w: nat = if width > 0 {
            (width - 1) as nat
        } else {
            0
        };
        law_hexadecimal_form(n / 16, w, caps);
        assert(h.drop_last() =~= hex(n / 16, w, caps));
        assert((n / 16) * 16 + n % 16 == n);
        if width == 4 && n < 0x1_0000 {
            lemma_hex_len(n / 16, 3, caps);
        }
        if width == 2 && n < 0x100 {
            lemma_hex_len(n / 16, 1, caps);
        }
    } else {
        lemma_hex_digit(n as int, caps);
        assert(h.drop_last() =~= Seq::<char>::empty());
        assert(digits_value(Seq::<char>::empty(), 16) == Some(0nat));
    }
}

proof fn lemma_hex_len(n: nat, width: nat, caps: bool)
    requires
        width == 1 && n < 16 || width == 2 && n < 256 || width == 3 && n < 4096,
    ensures
        hex(n, width, caps).len() == width,
    decreases width,
{
    if width > 1 {
        lemma_hex_len(n / 16, (width - 1) as nat, caps);
    }
}

/// A number that is written in hexadecimal reads back, where it is within the limit.
pub proof fn law_hexadecimal_reads_back(n: nat, width: nat, caps: bool, max: nat)
    ensures
        number(hex(n, width, caps), 16, max) == if n <= max {
            Some(n)
        } else {
            None
        },
{
    law_hexadecimal_form(n, width, caps);
    let h = hex(n, width, caps);
    assert(is_hex_digit(h[0]));
    assert(unsigned_part(h) == h);
}

// ---- Trimming ----

proof fn lemma_trim_start(s: Seq<char>)
    ensures
        trim_start(s).len() <= s.len(),
        trim_start(s) == s.skip(s.len() - trim_start(s).len()),
        forall|i: int| 0 <= i < s.len() - trim_start(s).len() ==> is_space(#[trigger] s[i]),
        trim_start(s).len() > 0 ==> !is_space(trim_start(s)[0]),
    decreases s.len(),
{
    if s.len() > 0 && is_space(s[0]) {
        let t = s.drop_first();
        lemma_trim_start(t);
        let k = s.len() - trim_start(s).len();
        assert(t.skip(k - 1) =~= s.skip(k));
        assert forall|i: int| 0 <= i < k implies is_space(#[trigger] s[i]) by {
            if i > 0 {
                assert(t[i - 1] == s[i]);
            }
        }
    } else {
        assert(s.skip(0) =~= s);
    }
}

proof fn lemma_trim_end(s: Seq<char>)
    ensures
        trim_end(s).len() <= s.len(),
        trim_end(s) == s.take(trim_end(s).len() as int),
        forall|i: int| trim_end(s).len() <= i < s.len() ==> is_space(#[trigger] s[i]),
        trim_end(s).len() > 0 ==> !is_space(trim_end(s).last()),
    decreases s.len(),
{
    if s.len() > 0 && is_space(s.last()) {
        let t = s.drop_last();
        lemma_trim_end(t);
        let k = trim_end(s).len() as int;
        assert(t.take(k) =~= s.take(k));
        assert forall|i: int| k <= i < s.len() implies is_space(#[trigger] s[i]) by {
            if i < s.len() - 1 {
                assert(t[i] == s[i]);
            }
        }
    } else {
        assert(s.take(s.len() as int) =~= s);
    }
}

/// Trimming takes away the white space at both ends and nothing else.
pub proof fn law_trimming_takes_the_ends(s: Seq<char>)
    ensures
        trimmed(s).len() > 0 ==> !is_space(trimmed(s)[0]) && !is_space(trimmed(s).last()),
        exists|a: int, b: int|
            0 <= a <= b <= s.len() && trimmed(s) == #[trigger] s.subrange(a, b) && (forall|i: int|
                0 <= i < a || b <= i < s.len() ==> is_space(#[trigger] s[i])),
{
    lemma_trim_start(s);
    let t = trim_start(s);
    lemma_trim_end(t);
    let a = s.len() - t.len();
    let b = a + trimmed(s).len();
    assert(s.subrange(a, b) =~= trimmed(s));
    assert forall|i: int| 0 <= i < a || b <= i < s.len() implies is_space(#[trigger] s[i]) by {
        if i >= b {
            assert(t[i - a] == s[i]);
        }
    }
}

/// Text without white space at its ends is left as it is.
pub proof fn law_trimmed_text_stays(s: Seq<char>)
    requires
        s.len() > 0 ==> !is_space(s[0]) && !is_space(s.last()),
    ensures
        trimmed(s) == s,
{
}

// ---- Words ----

proof fn lemma_digits_are_no_space(c: char)
    requires
        is_digit(c) || is_hex_digit(c),
    ensures
        !is_space(c),
{
}

/// A word argument reads as it is written, in decimal and in hexadecimal with a prefix.
pub proof fn law_word_arguments_read_back(v: u16, caps: bool)
    ensures
        word_value(dec(v as nat)) == Some(v as nat),
        word_value(seq!['0', 'x'] + hex(v as nat, 4, caps)) == Some(v as nat),
        word_value(seq!['0', 'X'] + hex(v as nat, 4, caps)) == Some(v as nat),
{
    let d = dec(v as nat);
    law_decimal_form(v as nat);
    law_decimal_reads_back(v as nat, 0xFFFF);
    assert(is_digit(d[0]) && is_digit(d[d.len() - 1]));
    law_trimmed_text_stays(d);
    assert(d.len() >= 2 ==> is_digit(d[1]));
    let h = hex(v as nat, 4, caps);
    law_hexadecimal_form(v as nat, 4, caps);
    law_hexadecimal_reads_back(v as nat, 4, caps, 0xFFFF);
    assert(is_hex_digit(h[h.len() - 1]));
    let (a, b) = (seq!['0', 'x'] + h, seq!['0', 'X'] + h);
    assert(a.last() == h.last() && b.last() == h.last());
    law_trimmed_text_stays(a);
    law_trimmed_text_stays(b);
    assert(a.skip(2) =~= h);
    assert(b.skip(2) =~= h);
}

/// A number above 65535 is no word argument.
pub proof fn law_word_arguments_are_words(n: nat)
    requires
        n > 0xFFFF,
    ensures
        word_value(dec(n)) is None,
{
    let d = dec(n);
    law_decimal_form(n);
    law_decimal_reads_back(n, 0xFFFF);
    assert(is_digit(d[0]) && is_digit(d[d.len() - 1]));
    assert(d.len() >= 2 ==> is_digit(d[1]));
    law_trimmed_text_stays(d);
}

// ---- Lists ----

/// Text up to a separator is the first part, and what is behind it is split further.
pub proof fn law_split_at_the_first_separator(a: Seq<char>, sep: char, rest: Seq<char>)
    requires
        forall|i: int| 0 <= i < a.len() ==> #[trigger] a[i] != sep,
    ensures
        split(a + seq![sep] + rest, sep) == seq![a] + split(rest, sep),
        split(a, sep) == seq![a],
{
    let s = a + seq![sep] + rest;
    let n = a.len() as int;
    assert forall|i: int| 0 <= i < n implies s[i] != sep by {
        assert(s[i] == a[i]);
    }
    assert(s[n] == sep);
    lemma_index_of(s, sep, n);
    lemma_index_of(a, sep, n);
    assert(s.take(n) =~= a);
    assert(s.skip(n + 1) =~= rest);
}

/// No part of a list has a separator in it.
pub proof fn law_parts_have_no_separator(s: Seq<char>, sep: char, k: int, i: int)
    requires
        0 <= k < split(s, sep).len(),
        0 <= i < split(s, sep)[k].len(),
    ensures
        split(s, sep)[k][i] != sep,
    decreases s.len(),
{
    lemma_index_bounds(s, sep);
    let n = index_of(s, sep);
    if n < s.len() {
        let rest = s.skip(n + 1);
        if k == 0 {
            assert(split(s, sep)[0] == s.take(n));
        } else {
            assert(split(s, sep)[k] == split(rest, sep)[k - 1]);
            law_parts_have_no_separator(rest, sep, k - 1, i);
        }
    }
}

proof fn lemma_index_bounds(s: Seq<char>, sep: char)
    ensures
        0 <= index_of(s, sep) <= s.len(),
        forall|i: int| 0 <= i < index_of(s, sep) ==> #[trigger] s[i] != sep,
        index_of(s, sep) < s.len() ==> s[index_of(s, sep)] == sep,
    decreases s.len(),
{
    if s.len() > 0 && s[0] != sep {
        lemma_index_bounds(s.drop_first(), sep);
        assert forall|i: int| 0 <= i < index_of(s, sep) implies #[trigger] s[i] != sep by {
            if i > 0 {
                assert(s.drop_first()[i - 1] == s[i]);
            }
        }
    }
}

// ---- Addresses ----

proof fn lemma_dec_has_no(n: nat, sep: char)
    requires
        !is_digit(sep),
    ensures
        forall|i: int| 0 <= i < dec(n).len() ==> #[trigger] dec(n)[i] != sep,
{
    law_decimal_form(n);
    assert forall|i: int| 0 <= i < dec(n).len() implies #[trigger] dec(n)[i] != sep by {
        assert(is_digit(dec(n)[i]));
    }
}

proof fn lemma_hex_has_no(n: nat, sep: char)
    requires
        !is_hex_digit(sep),
    ensures
        forall|i: int| 0 <= i < hex(n, 2, true).len() ==> #[trigger] hex(n, 2, true)[i] != sep,
{
    law_hexadecimal_form(n, 2, true);
    assert forall|i: int| 0 <= i < hex(n, 2, true).len() implies #[trigger] hex(n, 2, true)[i] != sep by {
        assert(is_hex_digit(hex(n, 2, true)[i]));
    }
}

/// A dotted address reads back as its four bytes.
pub proof fn law_address_reads_back(b: Seq<u8>)
    requires
        b.len() == 4,
    ensures
        address_value(ipv4_text(b), '.', 10, 4) == Some(b),
{
    reveal_strlit(".");
    let (d0, d1, d2, d3) = (dec(b[0] as nat), dec(b[1] as nat), dec(b[2] as nat), dec(b[3] as nat));
    lemma_dec_has_no(b[0] as nat, '.');
    lemma_dec_has_no(b[1] as nat, '.');
    lemma_dec_has_no(b[2] as nat, '.');
    lemma_dec_has_no(b[3] as nat, '.');
    assert("."@ =~= seq!['.']);
    let r2 = d2 + seq!['.'] + d3;
    let r1 = d1 + seq!['.'] + r2;
    let s = d0 + seq!['.'] + r1;
    assert(ipv4_text(b) =~= s);
    law_split_at_the_first_separator(d3, '.', Seq::empty());
    law_split_at_the_first_separator(d2, '.', d3);
    law_split_at_the_first_separator(d1, '.', r2);
    law_split_at_the_first_separator(d0, '.', r1);
    let parts = split(s, '.');
    assert(parts =~= seq![d0, d1, d2, d3]);
    law_decimal_reads_back(b[0] as nat, 255);
    law_decimal_reads_back(b[1] as nat, 255);
    law_decimal_reads_back(b[2] as nat, 255);
    law_decimal_reads_back(b[3] as nat, 255);
    assert forall|i: int| 0 <= i < 4 implies number(#[trigger] parts[i], 10, 255) == Some(b[i] as nat) by {
        assert(i == 0 || i == 1 || i == 2 || i == 3);
    }
    assert(address_value(s, '.', 10, 4)->0 =~= b);
}

proof fn lemma_mac_parts(b: Seq<u8>, i: int)
    requires
        b.len() == 6,
        0 <= i < 6,
    ensures
        ({
            let t = hex(b[i] as nat, 2, true) + mac_text_from(b, i + 1);
            &&& split(t, ':').len() == 6 - i
            &&& forall|k: int|
                0 <= k < 6 - i ==> #[trigger] split(t, ':')[k] == hex(b[i + k] as nat, 2, true)
        }),
    decreases 6 - i,
{
    reveal_strlit(":");
    assert(":"@ =~= seq![':']);
    let h = hex(b[i] as nat, 2, true);
    let t = h + mac_text_from(b, i + 1);
    lemma_hex_has_no(b[i] as nat, ':');
    if i == 5 {
        assert(t =~= h);
        law_split_at_the_first_separator(h, ':', Seq::empty());
    } else {
        lemma_mac_parts(b, i + 1);
        let rest = hex(b[i + 1] as nat, 2, true) + mac_text_from(b, i + 2);
        assert(t =~= h + seq![':'] + rest);
        law_split_at_the_first_separator(h, ':', rest);
        assert forall|k: int| 0 <= k < 6 - i implies #[trigger] split(t, ':')[k] == hex(b[i + k] as nat, 2, true) by {
            if k > 0 {
                assert(split(rest, ':')[k - 1] == hex(b[i + 1 + (k - 1)] as nat, 2, true));
            }
        }
    }
}

/// A MAC address reads back as its six bytes.
pub proof fn law_mac_address_reads_back(b: Seq<u8>)
    requires
        b.len() == 6,
    ensures
        address_value(mac_text(b), ':', 16, 6) == Some(b),
{
    let t = hex(b[0] as nat, 2, true) + mac_text_from(b, 1);
    assert(mac_text(b) =~= t);
    lemma_mac_parts(b, 0);
    let parts = split(t, ':');
    assert forall|i: int| 0 <= i < 6 implies number(#[trigger] parts[i], 16, 255) == Some(b[i] as nat) by {
        assert(parts[i] == hex(b[0 + i] as nat, 2, true));
        law_hexadecimal_reads_back(b[i] as nat, 2, true, 255);
    }
    assert(address_value(t, ':', 16, 6)->0 =~= b);
}

// ---- Versions ----

/// The register of a version has its hundreds for the major, its tens for the minor
/// version and the patch level added, and no more than 65535.
pub proof fn law_version_register(major: nat, minor: nat, patch: nat)
    requires
        major <= 0xFFFF,
        minor <= 0xFFFF,
        patch <= 0xFFFF,
    ensures
        version_code(dec(major) + seq!['.'] + (dec(minor) + seq!['.'] + dec(patch))) == (if 100 * major + 10 * minor
            + patch < 0xFFFF {
            100 * major + 10 * minor + patch
        } else {
            0xFFFF
        }),
{
    let (a, b, c) = (dec(major), dec(minor), dec(patch));
    lemma_dec_has_no(major, '.');
    lemma_dec_has_no(minor, '.');
    lemma_dec_has_no(patch, '.');
    let r = b + seq!['.'] + c;
    let s = a + seq!['.'] + r;
    law_split_at_the_first_separator(c, '.', Seq::empty());
    law_split_at_the_first_separator(b, '.', c);
    law_split_at_the_first_separator(a, '.', r);
    assert(split(s, '.') =~= seq![a, b, c]);
    law_decimal_reads_back(major, 0xFFFF_FFFF);
    law_decimal_reads_back(minor, 0xFFFF_FFFF);
    law_decimal_reads_back(patch, 0xFFFF_FFFF);
}

// ---- Letters ----

/// Text is the same in either case of its ASCII letters, and only then.
pub proof fn law_same_text_up_to_case(a: Seq<char>, b: Seq<char>)
    ensures
        same_text(a, b) == same_text(b, a),
        same_text(a, a),
        same_text(a, b) ==> a.len() == b.len(),
        forall|i: int|
            same_text(a, b) && 0 <= i < a.len() && !('a' <= #[trigger] a[i] <= 'z') && !('A' <= a[i] <= 'Z') ==> b[i]
                == a[i],
{
    assert forall|i: int|
        same_text(a, b) && 0 <= i < a.len() && !('a' <= #[trigger] a[i] <= 'z') && !('A' <= a[i] <= 'Z') implies b[i]
        == a[i] by {
        assert(upper(a[i]) == upper(b[i]));
    }
}

/// A lower-case letter counts as the upper-case letter 32 places before it.
pub proof fn law_letters_have_two_cases(c: char)
    ensures
        'a' <= c <= 'z' ==> upper(c) as int == c as int - 32,
        !('a' <= c <= 'z') ==> upper(c) == c,
{
}

} // verus!

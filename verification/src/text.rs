//! Text as sequences of characters: splitting, trimming, numbers.

use vstd::prelude::*;
use vstd::slice::slice_subrange;
use vstd::utf8::{
    char_is_scalar, char_u32_cast, decode_utf8, encode_scalar, encode_utf8, encode_utf8_decode_utf8, encode_utf8_valid_utf8, is_scalar,
    valid_utf8,
};

verus! {

/// `String::push` appends one character.
pub assume_specification[ String::push ](s: &mut String, c: char)
    ensures
        final(s)@ == old(s)@.push(c),
;

/// `String::push_str` appends a string slice.
pub assume_specification[ String::push_str ](s: &mut String, t: &str)
    ensures
        final(s)@ == old(s)@ + t@,
;

/// What `String::from_utf8_lossy` makes of bytes that are not valid UTF-8.
pub uninterp spec fn lossy(b: Seq<u8>) -> Seq<char>;

/// The text that a byte string shows.
pub open spec fn shown(b: Seq<u8>) -> Seq<char> {
    if valid_utf8(b) {
        decode_utf8(b)
    } else {
        lossy(b)
    }
}

/// Calls `String::from_utf8_lossy`: bytes that are valid UTF-8 are decoded as they
/// are; of others the text depends on the bytes alone. What stands in for invalid
/// bytes is left open.
#[verifier::external_body]
fn from_utf8_lossy(b: &[u8]) -> (r: String)
    ensures
        valid_utf8(b@) ==> r@ == decode_utf8(b@),
        !valid_utf8(b@) ==> r@ == lossy(b@),
{
    String::from_utf8_lossy(b).into_owned()
}

// ---- Characters ----

/// Unicode white space.
pub open spec fn is_space(c: char) -> bool {
    ||| '\u{9}' <= c <= '\u{d}'
    ||| c == ' '
    ||| c == '\u{85}'
    ||| c == '\u{a0}'
    ||| c == '\u{1680}'
    ||| '\u{2000}' <= c <= '\u{200a}'
    ||| c == '\u{2028}'
    ||| c == '\u{2029}'
    ||| c == '\u{202f}'
    ||| c == '\u{205f}'
    ||| c == '\u{3000}'
}

pub fn space(c: char) -> (r: bool)
    ensures
        r == is_space(c),
{
    ('\u{9}' <= c && c <= '\u{d}') || c == ' ' || c == '\u{85}' || c == '\u{a0}' || c == '\u{1680}' || (
    '\u{2000}' <= c && c <= '\u{200a}') || c == '\u{2028}' || c == '\u{2029}' || c == '\u{202f}' || c
        == '\u{205f}' || c == '\u{3000}'
}

/// The upper-case form of an ASCII letter; other characters are unchanged.
pub open spec fn upper(c: char) -> char {
    if 'a' <= c <= 'z' {
        ((c as u8 - 32) as u8) as char
    } else {
        c
    }
}

fn to_upper(c: char) -> (r: char)
    ensures
        r == upper(c),
{
    if 'a' <= c && c <= 'z' {
        ((c as u8) - 32) as char
    } else {
        c
    }
}

/// Equality up to the case of ASCII letters.
pub open spec fn same_text(a: Seq<char>, b: Seq<char>) -> bool {
    a.len() == b.len() && forall|i: int| 0 <= i < a.len() ==> upper(#[trigger] a[i]) == upper(b[i])
}

// ---- Conversion ----

/// The characters of a string.
pub fn chars(s: &str) -> (r: Vec<char>)
    ensures
        r@ == s@,
{
    let mut out: Vec<char> = Vec::new();
    for c in it: s.chars()
        invariant
            it.seq() == s@,
            out@ == s@.take(it.index()),
    {
        proof {
            assert(s@.take(it.index() + 1) =~= s@.take(it.index()).push(s@[it.index()]));
        }
        out.push(c);
    }
    proof {
        assert(s@.take(s@.len() as int) =~= s@);
    }
    out
}

/// Appends characters to a string.
pub fn push_chars(out: &mut String, v: &[char])
    ensures
        final(out)@ == old(out)@ + v@,
{
    let mut i: usize = 0;
    while i < v.len()
        invariant
            i <= v@.len(),
            out@ == old(out)@ + v@.take(i as int),
        decreases v@.len() - i,
    {
        out.push(v[i]);
        i += 1;
        proof {
            assert(old(out)@ + v@.take(i as int) =~= (old(out)@ + v@.take(i - 1)).push(v@[i - 1]));
        }
    }
    proof {
        assert(v@.take(v@.len() as int) =~= v@);
    }
}

/// Bytes up to the first zero byte.
pub open spec fn until_zero(b: Seq<u8>) -> Seq<u8>
    decreases b.len(),
{
    if b.len() == 0 || b[0] == 0 {
        Seq::empty()
    } else {
        seq![b[0]] + until_zero(b.drop_first())
    }
}

proof fn lemma_until_zero(b: Seq<u8>, n: int)
    requires
        0 <= n <= b.len(),
        forall|i: int| 0 <= i < n ==> b[i] != 0,
        n == b.len() || b[n] == 0,
    ensures
        until_zero(b) == b.take(n),
    decreases n,
{
    if n == 0 {
        assert(b.take(0) =~= Seq::<u8>::empty());
    } else {
        lemma_until_zero(b.drop_first(), n - 1);
        assert(seq![b[0]] + b.drop_first().take(n - 1) =~= b.take(n));
    }
}

/// Number of bytes before the first zero byte.
pub fn zero_position(b: &[u8]) -> (r: usize)
    ensures
        r == until_zero(b@).len(),
        r <= b@.len(),
        until_zero(b@) == b@.take(r as int),
{
    let mut i: usize = 0;
    while i < b.len() && b[i] != 0
        invariant
            i <= b@.len(),
            forall|j: int| 0 <= j < i ==> b@[j] != 0,
        decreases b@.len() - i,
    {
        i += 1;
    }
    proof {
        lemma_until_zero(b@, i as int);
    }
    i
}

/// Text of a zero-padded field.
pub fn field_text(b: &[u8]) -> (r: String)
    ensures
        r@ == shown(until_zero(b@)),
{
    let n: usize = zero_position(b);
    let head = slice_subrange(b, 0, n);
    proof {
        assert(head@ =~= b@.take(n as int));
    }
    from_utf8_lossy(head)
}

proof fn lemma_scalar_is_nonzero(v: u32)
    requires
        v != 0,
        is_scalar(v),
    ensures
        forall|i: int| 0 <= i < encode_scalar(v).len() ==> #[trigger] encode_scalar(v)[i] != 0,
{
    assert(v <= 0x7F ==> (v & 0x7F) as u8 == v) by (bit_vector);
    assert(forall|x: u8| #[trigger] (0xC0 | x) != 0) by (bit_vector);
    assert(forall|x: u8| #[trigger] (0xE0 | x) != 0) by (bit_vector);
    assert(forall|x: u8| #[trigger] (0xF0 | x) != 0) by (bit_vector);
    assert(forall|x: u8| #[trigger] (0x80 | x) != 0) by (bit_vector);
}

/// Text without a zero character has no zero byte.
pub proof fn lemma_utf8_is_nonzero(s: Seq<char>)
    requires
        !s.contains('\0'),
    ensures
        forall|i: int| 0 <= i < encode_utf8(s).len() ==> #[trigger] encode_utf8(s)[i] != 0,
    decreases s.len(),
{
    if s.len() > 0 {
        let c = s[0];
        assert(s.contains(c));
        char_is_scalar(c);
        assert(c as u32 != 0) by {
            if c as u32 == 0 {
                char_u32_cast(c, 0);
                char_u32_cast('\0', 0);
            }
        }
        lemma_scalar_is_nonzero(c as u32);
        assert forall|d: char| s.drop_first().contains(d) implies s.contains(d) by {
            let i = choose|i: int| 0 <= i < s.drop_first().len() && s.drop_first()[i] == d;
            assert(s[i + 1] == d);
        }
        lemma_utf8_is_nonzero(s.drop_first());
        let head = encode_scalar(c as u32);
        let rest = encode_utf8(s.drop_first());
        assert(encode_utf8(s) == head + rest);
        assert forall|i: int| 0 <= i < (head + rest).len() implies #[trigger] (head + rest)[i] != 0 by {
            if i < head.len() {
                assert((head + rest)[i] == head[i]);
            } else {
                assert((head + rest)[i] == rest[i - head.len()]);
            }
        }
    }
}

/// Text that is stored in a field that it fits in, padded with zeros, is shown as it
/// was.
pub proof fn law_stored_text_is_shown(s: Seq<char>, field: Seq<u8>)
    requires
        !s.contains('\0'),
        encode_utf8(s).len() <= field.len(),
        forall|i: int|
            0 <= i < field.len() ==> #[trigger] field[i] == if i < encode_utf8(s).len() {
                encode_utf8(s)[i]
            } else {
                0
            },
    ensures
        shown(until_zero(field)) == s,
{
    let b = encode_utf8(s);
    lemma_utf8_is_nonzero(s);
    lemma_until_zero(field, b.len() as int);
    assert(field.take(b.len() as int) =~= b);
    encode_utf8_valid_utf8(s);
    encode_utf8_decode_utf8(s);
}

// ---- Trimming and splitting ----

pub open spec fn trim_start(s: Seq<char>) -> Seq<char>
    decreases s.len(),
{
    if s.len() > 0 && is_space(s[0]) {
        trim_start(s.drop_first())
    } else {
        s
    }
}

pub open spec fn trim_end(s: Seq<char>) -> Seq<char>
    decreases s.len(),
{
    if s.len() > 0 && is_space(s.last()) {
        trim_end(s.drop_last())
    } else {
        s
    }
}

/// Text without the white space at its ends.
pub open spec fn trimmed(s: Seq<char>) -> Seq<char> {
    trim_end(trim_start(s))
}

pub fn trim(s: &[char]) -> (r: &[char])
    ensures
        r@ == trimmed(s@),
{
    let mut a: usize = 0;
    let n: usize = s.len();
    proof {
        assert(s@.subrange(0, n as int) =~= s@);
    }
    while a < n && space(s[a])
        invariant
            a <= n == s@.len(),
            trim_start(s@) == trim_start(s@.subrange(a as int, n as int)),
        decreases n - a,
    {
        proof {
            assert(s@.subrange(a as int, n as int).drop_first() =~= s@.subrange(a + 1, n as int));
        }
        a += 1;
    }
    let ghost mid = s@.subrange(a as int, n as int);
    assert(trim_start(s@) == mid);
    let mut b: usize = n;
    while a < b && space(s[b - 1])
        invariant
            a <= b <= n == s@.len(),
            trim_end(mid) == trim_end(s@.subrange(a as int, b as int)),
        decreases b,
    {
        proof {
            assert(s@.subrange(a as int, b as int).drop_last() =~= s@.subrange(a as int, b - 1));
        }
        b -= 1;
    }
    slice_subrange(s, a, b)
}

/// Position of the first `c`, or the length.
pub open spec fn index_of(s: Seq<char>, c: char) -> int
    decreases s.len(),
{
    if s.len() == 0 || s[0] == c {
        0
    } else {
        1 + index_of(s.drop_first(), c)
    }
}

pub proof fn lemma_index_of(s: Seq<char>, c: char, n: int)
    requires
        0 <= n <= s.len(),
        forall|i: int| 0 <= i < n ==> s[i] != c,
        n == s.len() || s[n] == c,
    ensures
        index_of(s, c) == n,
    decreases n,
{
    if n > 0 {
        lemma_index_of(s.drop_first(), c, n - 1);
    }
}

/// Position of the first `c`, or the length.
pub fn find(s: &[char], c: char) -> (r: usize)
    ensures
        r == index_of(s@, c),
        r <= s@.len(),
        r < s@.len() ==> s@[r as int] == c,
        forall|j: int| 0 <= j < r ==> s@[j] != c,
{
    let mut i: usize = 0;
    while i < s.len() && s[i] != c
        invariant
            i <= s@.len(),
            forall|j: int| 0 <= j < i ==> s@[j] != c,
        decreases s@.len() - i,
    {
        i += 1;
    }
    proof {
        lemma_index_of(s@, c, i as int);
    }
    i
}

/// The parts between the separators; there is always at least one.
pub open spec fn split(s: Seq<char>, sep: char) -> Seq<Seq<char>>
    decreases s.len(),
{
    let n = index_of(s, sep);
    if 0 <= n < s.len() {
        seq![s.take(n)] + split(s.skip(n + 1), sep)
    } else {
        seq![s]
    }
}

/// Splits text at every separator.
pub fn split_at_each<'a>(s: &'a [char], sep: char) -> (r: Vec<&'a [char]>)
    ensures
        r@.len() == split(s@, sep).len(),
        forall|i: int| 0 <= i < r@.len() ==> (#[trigger] r@[i])@ == split(s@, sep)[i],
        r@.len() >= 1,
{
    let mut out: Vec<&'a [char]> = Vec::new();
    let mut rest: &'a [char] = s;
    let mut n: usize = find(rest, sep);
    while n < rest.len()
        invariant
            n == index_of(rest@, sep),
            n <= rest@.len(),
            out@.len() + split(rest@, sep).len() == split(s@, sep).len(),
            forall|i: int| 0 <= i < out@.len() ==> (#[trigger] out@[i])@ == split(s@, sep)[i],
            forall|i: int|
                0 <= i < split(rest@, sep).len() ==> #[trigger] split(rest@, sep)[i] == split(s@, sep)[out@.len()
                    + i],
        decreases rest@.len(),
    {
        let ghost before = out@;
        let ghost tail = split(rest@.skip(n + 1), sep);
        let head = slice_subrange(rest, 0, n);
        assert(head@ =~= rest@.take(n as int));
        assert(split(rest@, sep)[0] == head@);
        out.push(head);
        let next = slice_subrange(rest, n + 1, rest.len());
        assert(next@ =~= rest@.skip(n + 1));
        assert(split(rest@, sep) == seq![head@] + tail);
        assert forall|i: int| 0 <= i < tail.len() implies #[trigger] tail[i] == split(s@, sep)[before.len() + 1 + i] by {
            assert(split(rest@, sep)[i + 1] == tail[i]);
        }
        rest = next;
        n = find(rest, sep);
    }
    assert(split(rest@, sep)[0] == rest@);
    out.push(rest);
    out
}

pub proof fn lemma_split_nonempty(s: Seq<char>, sep: char)
    ensures
        split(s, sep).len() >= 1,
    decreases s.len(),
{
    let n = index_of(s, sep);
    if 0 <= n < s.len() {
        lemma_split_nonempty(s.skip(n + 1), sep);
    }
}

/// Whether text equals a string up to the case of ASCII letters.
pub fn is_text(s: &[char], word: &str) -> (r: bool)
    ensures
        r == same_text(s@, word@),
{
    let w = chars(word);
    if s.len() != w.len() {
        return false;
    }
    let mut i: usize = 0;
    while i < s.len()
        invariant
            i <= s@.len(),
            s@.len() == w@.len(),
            w@ == word@,
            forall|j: int| 0 <= j < i ==> upper(#[trigger] s@[j]) == upper(word@[j]),
        decreases s@.len() - i,
    {
        if to_upper(s[i]) != to_upper(w[i]) {
            assert(upper(s@[i as int]) != upper(word@[i as int]));
            return false;
        }
        i += 1;
    }
    true
}

// ---- Numbers ----

/// Value of a digit in the given radix.
pub open spec fn digit_value(c: char, radix: nat) -> Option<nat> {
    let v: int = if '0' <= c <= '9' {
        c as int - '0' as int
    } else if 'a' <= c <= 'z' {
        c as int - 'a' as int + 10
    } else if 'A' <= c <= 'Z' {
        c as int - 'A' as int + 10
    } else {
        1000
    };
    if v < radix {
        Some(v as nat)
    } else {
        None
    }
}

/// Value of a run of digits.
pub open spec fn digits_value(s: Seq<char>, radix: nat) -> Option<nat>
    decreases s.len(),
{
    if s.len() == 0 {
        Some(0)
    } else {
        match (digits_value(s.drop_last(), radix), digit_value(s.last(), radix)) {
            (Some(v), Some(d)) => Some(v * radix + d),
            _ => None,
        }
    }
}

/// Text without a leading plus sign.
pub open spec fn unsigned_part(s: Seq<char>) -> Seq<char> {
    if s.len() > 0 && s[0] == '+' {
        s.drop_first()
    } else {
        s
    }
}

/// Value of an unsigned number: an optional plus sign and at least one digit, at
/// most `max`.
pub open spec fn number(s: Seq<char>, radix: nat, max: nat) -> Option<nat> {
    let body = unsigned_part(s);
    if body.len() == 0 {
        None
    } else {
        match digits_value(body, radix) {
            Some(v) => if v <= max {
                Some(v)
            } else {
                None
            },
            None => None,
        }
    }
}

/// Value of a digit, at most 36.
fn digit(c: char, radix: u64) -> (r: Option<u64>)
    requires
        2 <= radix <= 36,
    ensures
        r is Some <==> digit_value(c, radix as nat) is Some,
        r is Some ==> r->0 == digit_value(c, radix as nat)->0 && r->0 < radix,
{
    let v: u64 = if '0' <= c && c <= '9' {
        (c as u64) - ('0' as u64)
    } else if 'a' <= c && c <= 'z' {
        (c as u64) - ('a' as u64) + 10
    } else if 'A' <= c && c <= 'Z' {
        (c as u64) - ('A' as u64) + 10
    } else {
        1000
    };
    if v < radix {
        Some(v)
    } else {
        None
    }
}

/// Parses an unsigned number of at most `max`.
pub fn parse_number(s: &[char], radix: u64, max: u64) -> (r: Option<u64>)
    requires
        2 <= radix <= 36,
        max <= 0xFFFF_FFFF,
    ensures
        r is Some <==> number(s@, radix as nat, max as nat) is Some,
        r is Some ==> r->0 == number(s@, radix as nat, max as nat)->0 && r->0 <= max,
{
    let from: usize = if s.len() > 0 && s[0] == '+' {
        1
    } else {
        0
    };
    let ghost body = unsigned_part(s@);
    assert(body =~= s@.subrange(from as int, s@.len() as int));
    if s.len() == from {
        return None;
    }
    let mut i: usize = from;
    let mut v: u64 = 0;
    let mut over: bool = false;
    assert(body.take(0) =~= Seq::<char>::empty());
    while i < s.len()
        invariant
            2 <= radix <= 36,
            max <= 0xFFFF_FFFF,
            from <= i <= s@.len(),
            from <= 1,
            body == s@.subrange(from as int, s@.len() as int),
            body == unsigned_part(s@),
            digits_value(body.take(i - from), radix as nat) is Some,
            over ==> digits_value(body.take(i - from), radix as nat)->0 > max,
            !over ==> digits_value(body.take(i - from), radix as nat)->0 == v && v <= max,
        decreases s@.len() - i,
    {
        let ghost k = i - from;
        proof {
            assert(body.take(k + 1).drop_last() =~= body.take(k));
            assert(body.take(k + 1).last() == s@[i as int]);
        }
        match digit(s[i], radix) {
            None => {
                proof {
                    lemma_bad_digit(body, k, radix as nat);
                }
                return None;
            },
            Some(d) => {
                let ghost pv = digits_value(body.take(k), radix as nat)->0;
                proof {
                    assert(pv * radix >= pv) by (nonlinear_arith)
                        requires
                            radix >= 2,
                            pv >= 0,
                    ;
                }
                if !over {
                    proof {
                        assert(v * radix <= 0xFFFF_FFFF * 36) by (nonlinear_arith)
                            requires
                                v <= 0xFFFF_FFFF,
                                radix <= 36,
                        ;
                    }
                    let next: u64 = v * radix + d;
                    if next > max {
                        over = true;
                    } else {
                        v = next;
                    }
                }
            },
        }
        i += 1;
    }
    proof {
        assert(body.take(body.len() as int) =~= body);
    }
    if over {
        None
    } else {
        Some(v)
    }
}

proof fn lemma_bad_digit(s: Seq<char>, k: int, radix: nat)
    requires
        0 <= k < s.len(),
        digit_value(s[k], radix) is None,
    ensures
        digits_value(s, radix) is None,
    decreases s.len(),
{
    if k < s.len() - 1 {
        lemma_bad_digit(s.drop_last(), k, radix);
    }
}

/// Decimal digit.
pub open spec fn dec_digit(d: int) -> char {
    ('0' as u8 + d) as u8 as char
}

/// Decimal form of a number.
pub open spec fn dec(n: nat) -> Seq<char>
    decreases n,
{
    if n < 10 {
        seq![dec_digit(n as int)]
    } else {
        dec(n / 10).push(dec_digit((n % 10) as int))
    }
}

/// Appends a number in decimal.
pub fn push_dec(out: &mut String, n: u64)
    ensures
        final(out)@ == old(out)@ + dec(n as nat),
    decreases n,
{
    if n >= 10 {
        push_dec(out, n / 10);
    }
    out.push((('0' as u8) + ((n % 10) as u8)) as char);
    proof {
        if n < 10 {
            assert(old(out)@ + dec(n as nat) =~= old(out)@.push(dec_digit(n as int)));
        } else {
            assert(old(out)@ + dec(n as nat) =~= (old(out)@ + dec(n as nat / 10)).push(dec_digit((n % 10) as int)));
        }
    }
}

/// Hexadecimal digit.
pub open spec fn hex_digit(d: int, caps: bool) -> char {
    if d < 10 {
        ('0' as u8 + d) as u8 as char
    } else if caps {
        ('A' as u8 + d - 10) as u8 as char
    } else {
        ('a' as u8 + d - 10) as u8 as char
    }
}

/// Hexadecimal form of a number with at least `width` digits.
pub open spec fn hex(n: nat, width: nat, caps: bool) -> Seq<char>
    decreases n + width,
{
    if n >= 16 || width > 1 {
        hex(
            n / 16,
            if width > 0 {
                (width - 1) as nat
            } else {
                0
            },
            caps,
        ).push(hex_digit((n % 16) as int, caps))
    } else {
        seq![hex_digit(n as int, caps)]
    }
}

/// Appends a number in hexadecimal with at least `width` digits.
pub fn push_hex(out: &mut String, n: u64, width: usize, caps: bool)
    ensures
        final(out)@ == old(out)@ + hex(n as nat, width as nat, caps),
    decreases n + width,
{
    let ghost before = out@;
    let more: bool = n >= 16 || width > 1;
    if more {
        let w: usize = if width > 0 {
            width - 1
        } else {
            0
        };
        push_hex(out, n / 16, w, caps);
    }
    let d: u8 = (n % 16) as u8;
    let c: char = if d < 10 {
        (('0' as u8) + d) as char
    } else if caps {
        (('A' as u8) + (d - 10)) as char
    } else {
        (('a' as u8) + (d - 10)) as char
    };
    out.push(c);
    proof {
        assert(c == hex_digit((n % 16) as int, caps));
        if more {
            let w: nat = if width > 0 {
                (width - 1) as nat
            } else {
                0
            };
            assert(before + hex(n as nat, width as nat, caps) =~= (before + hex(n as nat / 16, w, caps)).push(c));
        } else {
            assert(before + hex(n as nat, width as nat, caps) =~= before.push(c));
        }
    }
}

} // verus!

//! Byte order of words.

use vstd::prelude::*;

verus! {

/// The word with the given high and low byte.
pub open spec fn word(hi: u8, lo: u8) -> u16 {
    (hi * 256 + lo) as u16
}

/// High byte of a word.
pub open spec fn hi(v: u16) -> u8 {
    (v / 256) as u8
}

/// Low byte of a word.
pub open spec fn lo(v: u16) -> u8 {
    (v % 256) as u8
}

/// Byte `k` of a double word, least significant first.
pub open spec fn dbyte(v: u32, k: int) -> u8 {
    if k == 0 {
        (v % 256) as u8
    } else if k == 1 {
        ((v / 256) % 256) as u8
    } else if k == 2 {
        ((v / 65536) % 256) as u8
    } else {
        (v / 16777216) as u8
    }
}

/// The double word with the given bytes, least significant first.
pub open spec fn dword(b0: u8, b1: u8, b2: u8, b3: u8) -> u32 {
    (b0 + b1 * 256 + b2 * 65536 + b3 * 16777216) as u32
}

/// Little-endian word at `i`.
pub open spec fn le16_at(s: Seq<u8>, i: int) -> u16 {
    word(s[i + 1], s[i])
}

/// Little-endian double word at `i`.
pub open spec fn le32_at(s: Seq<u8>, i: int) -> u32 {
    dword(s[i], s[i + 1], s[i + 2], s[i + 3])
}

/// Big-endian word at `i`.
pub open spec fn be16_at(s: Seq<u8>, i: int) -> u16 {
    word(s[i], s[i + 1])
}

/// Words as little-endian bytes.
pub open spec fn le_bytes(words: Seq<u16>) -> Seq<u8> {
    Seq::new(
        2 * words.len(),
        |i: int|
            if i % 2 == 0 {
                lo(words[i / 2])
            } else {
                hi(words[i / 2])
            },
    )
}

/// Words as big-endian bytes.
pub open spec fn be_bytes(words: Seq<u16>) -> Seq<u8> {
    Seq::new(
        2 * words.len(),
        |i: int|
            if i % 2 == 0 {
                hi(words[i / 2])
            } else {
                lo(words[i / 2])
            },
    )
}

/// The first `n` little-endian words from offset `at` on.
pub open spec fn le_words(s: Seq<u8>, at: int, n: nat) -> Seq<u16> {
    Seq::new(n, |i: int| le16_at(s, at + 2 * i))
}

pub fn make_word(hi: u8, lo: u8) -> (r: u16)
    ensures
        r == word(hi, lo),
{
    (hi as u16) * 256 + (lo as u16)
}

pub fn high(v: u16) -> (r: u8)
    ensures
        r == hi(v),
{
    (v / 256) as u8
}

pub fn low(v: u16) -> (r: u8)
    ensures
        r == lo(v),
{
    (v % 256) as u8
}

pub fn make_dword(b0: u8, b1: u8, b2: u8, b3: u8) -> (r: u32)
    ensures
        r == dword(b0, b1, b2, b3),
{
    (b0 as u32) + (b1 as u32) * 256 + (b2 as u32) * 65536 + (b3 as u32) * 16777216
}

pub fn byte_of(v: u32, k: usize) -> (r: u8)
    ensures
        r == dbyte(v, k as int),
{
    if k == 0 {
        (v % 256) as u8
    } else if k == 1 {
        ((v / 256) % 256) as u8
    } else if k == 2 {
        ((v / 65536) % 256) as u8
    } else {
        (v / 16777216) as u8
    }
}

/// Reads the little-endian word at `i`.
pub fn get_le16(s: &[u8], i: usize) -> (r: u16)
    requires
        i + 1 < s@.len(),
    ensures
        r == le16_at(s@, i as int),
{
    let low_byte: u8 = s[i];
    make_word(s[i + 1], low_byte)
}

/// Reads the big-endian word at `i`.
pub fn get_be16(s: &[u8], i: usize) -> (r: u16)
    requires
        i + 1 < s@.len(),
    ensures
        r == be16_at(s@, i as int),
{
    make_word(s[i], s[i + 1])
}

/// Reads the little-endian double word at `i`.
pub fn get_le32(s: &[u8], i: usize) -> (r: u32)
    requires
        i + 3 < s@.len(),
    ensures
        r == le32_at(s@, i as int),
{
    make_dword(s[i], s[i + 1], s[i + 2], s[i + 3])
}

/// Appends a word, low byte first.
pub fn push_le16(out: &mut Vec<u8>, v: u16)
    ensures
        final(out)@ == old(out)@.push(lo(v)).push(hi(v)),
{
    out.push(low(v));
    out.push(high(v));
}

/// Appends a double word, low byte first.
pub fn push_le32(out: &mut Vec<u8>, v: u32)
    ensures
        final(out)@ == old(out)@ + le32_bytes(v),
{
    out.push(byte_of(v, 0));
    out.push(byte_of(v, 1));
    out.push(byte_of(v, 2));
    out.push(byte_of(v, 3));
}

/// A double word as bytes, low byte first.
pub open spec fn le32_bytes(v: u32) -> Seq<u8> {
    seq![dbyte(v, 0), dbyte(v, 1), dbyte(v, 2), dbyte(v, 3)]
}

/// A word is made of its two bytes.
pub broadcast proof fn law_word_of_bytes(v: u16)
    ensures
        #[trigger] word(hi(v), lo(v)) == v,
{
}

/// The bytes of a word are the bytes it was made of.
pub broadcast proof fn law_bytes_of_word(h: u8, l: u8)
    ensures
        #![trigger word(h, l)]
        hi(word(h, l)) == h,
        lo(word(h, l)) == l,
{
}

/// A double word is made of its four bytes.
pub proof fn law_dword_of_bytes(v: u32)
    ensures
        dword(dbyte(v, 0), dbyte(v, 1), dbyte(v, 2), dbyte(v, 3)) == v,
{
}

/// Words written low byte first read back.
pub proof fn law_le_words_roundtrip(words: Seq<u16>)
    ensures
        le_words(le_bytes(words), 0, words.len()) == words,
{
    assert forall|i: int| 0 <= i < words.len() implies #[trigger] le_words(
        le_bytes(words),
        0,
        words.len(),
    )[i] == words[i] by {
        assert((2 * i) % 2 == 0 && (2 * i) / 2 == i && (2 * i + 1) % 2 == 1 && (2 * i + 1) / 2 == i);
    }
    assert(le_words(le_bytes(words), 0, words.len()) =~= words);
}

} // verus!

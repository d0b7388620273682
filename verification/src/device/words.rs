//! Word areas as bytes.

use crate::bytes::{get_le16, le16_at, le_bytes, le_words, push_le16};
use vstd::prelude::*;

verus! {

/// Appends words, low byte first.
pub fn push_words(out: &mut Vec<u8>, words: &[u16])
    ensures
        final(out)@ == old(out)@ + le_bytes(words@),
{
    let mut i: usize = 0;
    assert(le_bytes(words@.take(0)) =~= Seq::<u8>::empty());
    while i < words.len()
        invariant
            i <= words@.len(),
            out@ == old(out)@ + le_bytes(words@.take(i as int)),
        decreases words@.len() - i,
    {
        push_le16(out, words[i]);
        i += 1;
        assert(out@ =~= old(out)@ + le_bytes(words@.take(i as int)));
    }
    assert(words@.take(words@.len() as int) =~= words@);
}

/// Appends bytes.
pub fn push_bytes(out: &mut Vec<u8>, bytes: &[u8])
    ensures
        final(out)@ == old(out)@ + bytes@,
{
    let mut i: usize = 0;
    while i < bytes.len()
        invariant
            i <= bytes@.len(),
            out@ == old(out)@ + bytes@.take(i as int),
        decreases bytes@.len() - i,
    {
        out.push(bytes[i]);
        i += 1;
        assert(out@ =~= old(out)@ + bytes@.take(i as int));
    }
    assert(bytes@.take(bytes@.len() as int) =~= bytes@);
}

/// Reads `n` little-endian words from offset `at` on.
pub fn read_words(b: &[u8], at: usize, n: usize) -> (r: Vec<u16>)
    requires
        at + 2 * n <= b@.len(),
    ensures
        r@ == le_words(b@, at as int, n as nat),
{
    let size: usize = b.len();
    let mut out: Vec<u16> = Vec::new();
    let mut i: usize = 0;
    while i < n
        invariant
            i <= n,
            at + 2 * n <= b@.len() == size,
            out@.len() == i,
            forall|j: int| 0 <= j < i ==> out@[j] == le16_at(b@, at + 2 * j),
        decreases n - i,
    {
        out.push(get_le16(b, at + 2 * i));
        i += 1;
    }
    assert(out@ =~= le_words(b@, at as int, n as nat));
    out
}

/// Reads bytes from offset `at` on.
pub fn read_bytes(b: &[u8], at: usize, n: usize) -> (r: Vec<u8>)
    requires
        at + n <= b@.len(),
    ensures
        r@ == b@.subrange(at as int, at + n),
{
    let size: usize = b.len();
    let mut out: Vec<u8> = Vec::new();
    let mut i: usize = 0;
    while i < n
        invariant
            i <= n,
            at + n <= b@.len() == size,
            out@ == b@.subrange(at as int, at + i),
        decreases n - i,
    {
        out.push(b[at + i]);
        i += 1;
        assert(out@ =~= b@.subrange(at as int, at + i));
    }
    out
}

/// Bytes of words that stand at an offset of a longer byte string read back.
pub proof fn lemma_words_inside(pre: Seq<u8>, words: Seq<u16>, post: Seq<u8>)
    ensures
        le_words(pre + le_bytes(words) + post, pre.len() as int, words.len()) == words,
{
    let s = pre + le_bytes(words) + post;
    assert forall|i: int| 0 <= i < words.len() implies #[trigger] le_words(s, pre.len() as int, words.len())[i]
        == words[i] by {
        assert(s[pre.len() + 2 * i] == le_bytes(words)[2 * i]);
        assert(s[pre.len() + 2 * i + 1] == le_bytes(words)[2 * i + 1]);
        assert((2 * i) % 2 == 0 && (2 * i) / 2 == i && (2 * i + 1) % 2 == 1 && (2 * i + 1) / 2 == i);
    }
    assert(le_words(s, pre.len() as int, words.len()) =~= words);
}

} // verus!

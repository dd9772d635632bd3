//! Byte-level layout of the packed meshlet buffer: little-endian 32-bit words
//! followed by a zero-padded byte region.
use vstd::prelude::*;

verus! {

/// The four bytes of `x`, least significant first.
pub open spec fn le_bytes(x: u32) -> Seq<u8> {
    seq![
        (x & 0xff) as u8,
        ((x >> 8u32) & 0xff) as u8,
        ((x >> 16u32) & 0xff) as u8,
        ((x >> 24u32) & 0xff) as u8,
    ]
}

/// The little-endian 32-bit word whose first byte is `bytes[at]`.
pub open spec fn read_u32(bytes: Seq<u8>, at: int) -> u32 {
    (bytes[at] as u32) | ((bytes[at + 1] as u32) << 8u32) | ((bytes[at + 2] as u32) << 16u32) | (
    (bytes[at + 3] as u32) << 24u32)
}

/// Words laid out one after another, each as its little-endian bytes.
pub open spec fn words_bytes(words: Seq<u32>) -> Seq<u8>
    decreases words.len(),
{
    if words.len() == 0 {
        Seq::empty()
    } else {
        words_bytes(words.drop_last()) + le_bytes(words.last())
    }
}

/// Reading back the bytes of a word gives the word.
pub proof fn lemma_read_le_bytes(x: u32)
    ensures
        read_u32(le_bytes(x), 0) == x,
{
    let b0 = (x & 0xff) as u8;
    let b1 = ((x >> 8u32) & 0xff) as u8;
    let b2 = ((x >> 16u32) & 0xff) as u8;
    let b3 = ((x >> 24u32) & 0xff) as u8;
    assert((b0 as u32) | ((b1 as u32) << 8u32) | ((b2 as u32) << 16u32) | ((b3 as u32) << 24u32)
        == x) by (bit_vector)
        requires
            b0 == (x & 0xff) as u8,
            b1 == ((x >> 8u32) & 0xff) as u8,
            b2 == ((x >> 16u32) & 0xff) as u8,
            b3 == ((x >> 24u32) & 0xff) as u8,
    ;
}

/// A word read inside the first part of a concatenation is read from that part.
pub proof fn lemma_read_prefix(a: Seq<u8>, b: Seq<u8>, at: int)
    requires
        0 <= at,
        at + 4 <= a.len(),
    ensures
        read_u32(a + b, at) == read_u32(a, at),
{
    assert((a + b)[at] == a[at]);
    assert((a + b)[at + 1] == a[at + 1]);
    assert((a + b)[at + 2] == a[at + 2]);
    assert((a + b)[at + 3] == a[at + 3]);
}

/// A word read inside the second part of a concatenation is read from that part.
pub proof fn lemma_read_suffix(a: Seq<u8>, b: Seq<u8>, at: int)
    requires
        0 <= at,
        at + 4 <= b.len(),
    ensures
        read_u32(a + b, a.len() + at) == read_u32(b, at),
{
    assert((a + b)[a.len() + at] == b[at]);
    assert((a + b)[a.len() + at + 1] == b[at + 1]);
    assert((a + b)[a.len() + at + 2] == b[at + 2]);
    assert((a + b)[a.len() + at + 3] == b[at + 3]);
}

/// The bytes of a word sequence hold four bytes per word, and word `i` reads
/// back from offset `4 * i`.
pub proof fn lemma_words_bytes(words: Seq<u32>)
    ensures
        words_bytes(words).len() == 4 * words.len(),
        forall|i: int|
            0 <= i < words.len() ==> #[trigger] read_u32(words_bytes(words), 4 * i) == words[i],
    decreases words.len(),
{
    if words.len() > 0 {
        let init = words.drop_last();
        lemma_words_bytes(init);
        let last = words.last();
        assert forall|i: int| 0 <= i < words.len() implies #[trigger] read_u32(
            words_bytes(words),
            4 * i,
        ) == words[i] by {
            if i < init.len() {
                lemma_read_prefix(words_bytes(init), le_bytes(last), 4 * i);
                assert(read_u32(words_bytes(init), 4 * i) == init[i]);
            } else {
                lemma_read_suffix(words_bytes(init), le_bytes(last), 0);
                lemma_read_le_bytes(last);
            }
        }
    }
}

/// Appending a word appends its bytes.
pub proof fn lemma_words_bytes_push(words: Seq<u32>, x: u32)
    ensures
        words_bytes(words.push(x)) == words_bytes(words) + le_bytes(x),
{
    assert(words.push(x).drop_last() =~= words);
}

/// `n` rounded up to a multiple of four.
pub open spec fn round_up4(n: int) -> int {
    (n + 3) / 4 * 4
}

/// `bytes` followed by zero bytes up to the next multiple of four.
pub open spec fn padded(bytes: Seq<u8>) -> Seq<u8> {
    bytes + Seq::new((round_up4(bytes.len() as int) - bytes.len()) as nat, |i: int| 0u8)
}

/// Appends the little-endian bytes of `x` to `buf`.
pub fn push_u32(buf: &mut Vec<u8>, x: u32)
    ensures
        final(buf)@ == old(buf)@ + le_bytes(x),
{
    buf.push((x & 0xff) as u8);
    buf.push(((x >> 8u32) & 0xff) as u8);
    buf.push(((x >> 16u32) & 0xff) as u8);
    buf.push(((x >> 24u32) & 0xff) as u8);
    assert(buf@ =~= old(buf)@ + le_bytes(x));
}

} // verus!

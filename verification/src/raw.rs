//! Reading a byte buffer as 16-bit words and a word buffer as bytes.
//!
//! A raw image file holds its pixels as 16-bit words in the byte order of the
//! machine that wrote it. The conversions here copy: each pair of bytes makes
//! one word, and a trailing odd byte is dropped.

use vstd::prelude::*;

verus! {

/// The order of the two bytes of a 16-bit word in memory.
#[derive(Copy, Clone, Debug, PartialEq, Eq, Structural)]
pub enum ByteOrder {
    /// The low byte comes first.
    Little,
    /// The high byte comes first.
    Big,
}

/// The word whose two bytes in memory are `first` and `second`.
pub open spec fn word_of(first: u8, second: u8, order: ByteOrder) -> u16 {
    match order {
        ByteOrder::Little => (first + 256 * second) as u16,
        ByteOrder::Big => (256 * first + second) as u16,
    }
}

/// Byte `k` (0 or 1) of a word in memory.
pub open spec fn byte_of(word: u16, k: int, order: ByteOrder) -> u8 {
    if (k == 0) == (order == ByteOrder::Little) {
        (word % 256) as u8
    } else {
        (word / 256) as u8
    }
}

/// The words that a byte buffer holds: one for each complete pair of bytes.
pub open spec fn words_of(bytes: Seq<u8>, order: ByteOrder) -> Seq<u16> {
    Seq::new(bytes.len() / 2, |i: int| word_of(bytes[2 * i], bytes[2 * i + 1], order))
}

/// The bytes that a word buffer occupies: two for each word.
pub open spec fn bytes_of(words: Seq<u16>, order: ByteOrder) -> Seq<u8> {
    Seq::new(2 * words.len(), |k: int| byte_of(words[k / 2], k % 2, order))
}

/// `u16::from_ne_bytes`.
///
/// Trusted: the word that the two bytes make in this machine's byte order is
/// the one they make low byte first or the one they make high byte first.
#[verifier::external_body]
fn native_word(first: u8, second: u8) -> (word: u16)
    ensures
        word == word_of(first, second, ByteOrder::Little) || word == word_of(
            first,
            second,
            ByteOrder::Big,
        ),
{
    u16::from_ne_bytes([first, second])
}

/// The byte order of this machine, found by reading the bytes 1, 0 as a word.
pub fn native_byte_order() -> (order: ByteOrder) {
    let first: u8 = 1;
    let second: u8 = 0;
    let probe: u16 = native_word(first, second);
    let order: ByteOrder = byte_order_of_probe(probe);
    order
}

/// The byte order that a probe shows: `probe` is the word that a machine made
/// of the bytes 1, 0. Low byte first they make 1, high byte first they make
/// 256; any word but 1 counts as high byte first.
pub fn byte_order_of_probe(probe: u16) -> (order: ByteOrder)
    ensures
        order == (if probe == word_of(1, 0, ByteOrder::Little) {
            ByteOrder::Little
        } else {
            ByteOrder::Big
        }),
        probe == word_of(1, 0, ByteOrder::Little) || probe == word_of(1, 0, ByteOrder::Big)
            ==> word_of(1, 0, order) == probe,
{
    if probe == 1 {
        ByteOrder::Little
    } else {
        ByteOrder::Big
    }
}

/// Copy a byte buffer into words, each pair of bytes read in the given order.
/// A trailing odd byte is dropped.
pub fn words_from_bytes(bytes: &[u8], order: ByteOrder) -> (words: Vec<u16>)
    ensures
        words@ == words_of(bytes@, order),
{
    let count: usize = bytes.len() / 2;
    let mut words: Vec<u16> = Vec::with_capacity(count);
    let mut i: usize = 0;
    while i < count
        invariant
            count == bytes@.len() / 2,
            bytes@.len() <= usize::MAX,
            i <= count,
            words@.len() == i,
            forall|j: int|
                0 <= j < i ==> words@[j] == word_of(bytes@[2 * j], bytes@[2 * j + 1], order),
        decreases count - i,
    {
        let first: u8 = bytes[2 * i];
        let second: u8 = bytes[2 * i + 1];
        let word: u16 = match order {
            ByteOrder::Little => first as u16 + 256 * (second as u16),
            ByteOrder::Big => 256 * (first as u16) + second as u16,
        };
        words.push(word);
        i += 1;
    }
    words
}

/// Copy a word buffer into bytes, the two bytes of each word in the given
/// order.
pub fn bytes_from_words(words: &[u16], order: ByteOrder) -> (bytes: Vec<u8>)
    ensures
        bytes@ == bytes_of(words@, order),
{
    let count: usize = words.len();
    let mut bytes: Vec<u8> = Vec::new();
    let mut i: usize = 0;
    while i < count
        invariant
            count == words@.len(),
            i <= count,
            bytes@.len() == 2 * i,
            forall|k: int| 0 <= k < 2 * i ==> bytes@[k] == byte_of(words@[k / 2], k % 2, order),
        decreases count - i,
    {
        let word: u16 = words[i];
        let low: u8 = (word % 256) as u8;
        let high: u8 = (word / 256) as u8;
        match order {
            ByteOrder::Little => {
                bytes.push(low);
                bytes.push(high);
            },
            ByteOrder::Big => {
                bytes.push(high);
                bytes.push(low);
            },
        }
        i += 1;
    }
    bytes
}

/// The bytes that a word buffer occupies in this machine's memory.
pub fn slice_u16_to_slice_u8(arr: &[u16]) -> (bytes: Vec<u8>)
    ensures
        bytes@ == bytes_of(arr@, ByteOrder::Little) || bytes@ == bytes_of(arr@, ByteOrder::Big),
        bytes@.len() == 2 * arr@.len(),
{
    bytes_from_words(arr, native_byte_order())
}

/// The words that a byte buffer holds when read in this machine's byte
/// order. A trailing odd byte is dropped.
pub fn slice_u8_to_slice_u16(arr: &[u8]) -> (words: Vec<u16>)
    ensures
        words@ == words_of(arr@, ByteOrder::Little) || words@ == words_of(arr@, ByteOrder::Big),
        words@.len() == arr@.len() / 2,
{
    words_from_bytes(arr, native_byte_order())
}

/// A trailing odd byte does not count: a buffer of `2n + 1` bytes holds the
/// same `n` words as its first `2n` bytes.
pub proof fn lemma_words_of_drops_odd_trailing_byte(bytes: Seq<u8>, order: ByteOrder)
    requires
        bytes.len() % 2 == 1,
    ensures
        words_of(bytes, order).len() == (bytes.len() - 1) / 2,
        words_of(bytes, order) == words_of(bytes.drop_last(), order),
{
    assert(words_of(bytes, order) =~= words_of(bytes.drop_last(), order));
}

/// Writing words out as bytes and reading them back in the same byte order
/// gives the words back.
pub proof fn lemma_words_of_bytes_of_is_identity(words: Seq<u16>, order: ByteOrder)
    ensures
        words_of(bytes_of(words, order), order) == words,
{
    assert(words_of(bytes_of(words, order), order) =~= words);
}

/// Reading an even number of bytes as words and writing the words out in the
/// same byte order gives the bytes back.
pub proof fn lemma_bytes_of_words_of_is_identity(bytes: Seq<u8>, order: ByteOrder)
    requires
        bytes.len() % 2 == 0,
    ensures
        bytes_of(words_of(bytes, order), order) == bytes,
{
    assert(bytes_of(words_of(bytes, order), order) =~= bytes);
}

} // verus!

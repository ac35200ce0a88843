//! Little-endian 32-bit words: the only integer encoding of the container.

use byteorder::ByteOrder;
use vstd::prelude::*;

verus! {

/// The four bytes of `x`, least significant first.
pub open spec fn le_bytes(x: u32) -> Seq<u8> {
    seq![
        (x % 256) as u8,
        ((x / 256) % 256) as u8,
        ((x / 65536) % 256) as u8,
        (x / 16777216) as u8,
    ]
}

/// The number that the first four bytes of `bytes` encode, least significant
/// byte first.
pub open spec fn le_value(bytes: Seq<u8>) -> int
    recommends
        bytes.len() >= 4,
{
    bytes[0] + 256 * bytes[1] + 65536 * bytes[2] + 16777216 * bytes[3]
}

/// The words of `words`, each as four bytes, one after the other.
pub open spec fn encode_words(words: Seq<u32>) -> Seq<u8> {
    Seq::new(4 * words.len(), |i: int| le_bytes(words[i / 4])[i % 4])
}

/// The word that starts at byte `4 * index` of `bytes`.
pub open spec fn word_at(bytes: Seq<u8>, index: int) -> u32 {
    le_value(bytes.subrange(4 * index, 4 * index + 4)) as u32
}

/// The words that `bytes` holds, as far as whole words go.
pub open spec fn decode_words(bytes: Seq<u8>) -> Seq<u32> {
    Seq::new(bytes.len() / 4, |i: int| word_at(bytes, i))
}

/// Four bytes always encode a number that fits in 32 bits.
pub proof fn lemma_le_value_bounds(bytes: Seq<u8>)
    requires
        bytes.len() >= 4,
    ensures
        0 <= le_value(bytes) <= u32::MAX,
{
}

/// Decoding the bytes of a word gives the word back.
pub proof fn lemma_le_round_trip(x: u32)
    ensures
        le_bytes(x).len() == 4,
        le_value(le_bytes(x)) == x,
{
}

/// Encoding the number that four bytes hold gives the four bytes back.
pub proof fn lemma_le_bytes_of_value(bytes: Seq<u8>)
    requires
        bytes.len() == 4,
    ensures
        0 <= le_value(bytes) <= u32::MAX,
        le_bytes(le_value(bytes) as u32) == bytes,
{
    let b0 = bytes[0] as int;
    let b1 = bytes[1] as int;
    let b2 = bytes[2] as int;
    let b3 = bytes[3] as int;
    let v = le_value(bytes);
    assert(v == b0 + 256 * (b1 + 256 * (b2 + 256 * b3)));
}

/// Decoding an encoded sequence of words gives the words back.
pub proof fn lemma_words_round_trip(words: Seq<u32>)
    ensures
        encode_words(words).len() == 4 * words.len(),
        decode_words(encode_words(words)) == words,
{
    assert forall|i: int| 0 <= i < words.len() implies word_at(encode_words(words), i)
        == words[i] by {
        lemma_word_of_encoding(words, i);
    }
}

/// Word `index` of an encoding is the word that was encoded there.
pub proof fn lemma_word_of_encoding(words: Seq<u32>, index: int)
    requires
        0 <= index < words.len(),
    ensures
        encode_words(words).subrange(4 * index, 4 * index + 4) == le_bytes(words[index]),
        word_at(encode_words(words), index) == words[index],
{
    let chunk = encode_words(words).subrange(4 * index, 4 * index + 4);
    assert forall|k: int| 0 <= k < 4 implies chunk[k] == le_bytes(words[index])[k] by {
        assert((4 * index + k) / 4 == index);
        assert((4 * index + k) % 4 == k);
    }
    lemma_le_round_trip(words[index]);
}

/// Appends the four bytes of `x` to `out`.
pub fn push_u32_le(out: &mut Vec<u8>, x: u32)
    ensures
        final(out)@ == old(out)@ + le_bytes(x),
{
    out.push((x % 256) as u8);
    out.push(((x / 256) % 256) as u8);
    out.push(((x / 65536) % 256) as u8);
    out.push((x / 16777216) as u8);
}

/// Encodes every word of `words`, in order.
pub fn encode_u32_fields(words: &[u32]) -> (bytes: Vec<u8>)
    ensures
        bytes@ == encode_words(words@),
{
    let mut bytes: Vec<u8> = Vec::new();
    let mut i: usize = 0;
    while i < words.len()
        invariant
            i <= words.len(),
            bytes@ == encode_words(words@.take(i as int)),
        decreases words.len() - i,
    {
        push_u32_le(&mut bytes, words[i]);
        proof {
            let next = words@.take(i + 1);
            assert forall|k: int| 0 <= k < 4 * (i + 1) implies bytes@[k] == encode_words(next)[k] by {
                if k < 4 * i {
                    assert(words@.take(i as int)[k / 4] == next[k / 4]);
                } else {
                    assert(k / 4 == i);
                }
            }
        }
        i += 1;
    }
    bytes
}

/// Reads one word from the first four bytes of `buf` by
/// `byteorder::LittleEndian::read_u32`, which takes `buf[..4]` as a
/// little-endian number and panics on a shorter slice.
#[verifier::external_body]
fn read_u32_le(buf: &[u8]) -> (value: u32)
    requires
        buf@.len() >= 4,
    ensures
        value == le_value(buf@.subrange(0, 4)),
{
    byteorder::LittleEndian::read_u32(buf)
}

/// Decodes `count` words from exactly `4 * count` bytes.
///
/// A slice of any other length holds no such record, and the result is `None`.
pub fn decode_u32_fields(bytes: &[u8], count: usize) -> (words: Option<Vec<u32>>)
    ensures
        words is Some <==> bytes@.len() == 4 * count,
        words matches Some(w) ==> w@ == decode_words(bytes@),
{
    if bytes.len() / 4 != count || bytes.len() % 4 != 0 {
        return None;
    }
    let mut words: Vec<u32> = Vec::new();
    let mut i: usize = 0;
    while i < count
        invariant
            i <= count,
            bytes@.len() == 4 * count,
            4 * count <= usize::MAX,
            words@.len() == i,
            forall|k: int| 0 <= k < i ==> words@[k] == word_at(bytes@, k),
        decreases count - i,
    {
        let chunk = vstd::slice::slice_subrange(bytes, 4 * i, 4 * i + 4);
        let word = read_u32_le(chunk);
        proof {
            lemma_le_value_bounds(chunk@);
        }
        words.push(word);
        i += 1;
    }
    Some(words)
}

/// Decodes one word from exactly four bytes.
pub fn decode_u32(bytes: &[u8]) -> (word: Option<u32>)
    ensures
        word is Some <==> bytes@.len() == 4,
        word matches Some(w) ==> w == le_value(bytes@),
{
    if bytes.len() != 4 {
        return None;
    }
    Some(read_u32_le(bytes))
}

/// The first words of a sequence are those of any of its beginnings that
/// holds them.
pub proof fn lemma_word_of_concat(head: Seq<u8>, tail: Seq<u8>, index: int)
    requires
        0 <= index,
        4 * index + 4 <= head.len(),
    ensures
        word_at(head + tail, index) == word_at(head, index),
{
}

/// The words of a prefix are the first words of the whole.
pub proof fn lemma_words_of_prefix(bytes: Seq<u8>, count: int)
    requires
        0 <= count,
        4 * count <= bytes.len(),
    ensures
        forall|i: int|
            0 <= i < count ==> #[trigger] word_at(bytes.subrange(0, 4 * count), i) == word_at(
                bytes,
                i,
            ),
{
}

} // verus!

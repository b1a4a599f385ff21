//! Reading a byte stream as 32-bit little-endian words, four bytes at a time.
//!
//! The reader keeps one four-byte buffer for the whole stream. Each read
//! overwrites the front of that buffer with the bytes that arrived, and the
//! buffer as it then stands is taken as the next word. A read that delivers
//! fewer than four bytes therefore produces a word whose tail still holds
//! the bytes of the read before it.

use vstd::prelude::*;
use vstd::slice::slice_subrange;

verus! {

/// Bytes per word.
pub const WORD_BYTES: usize = 4;

/// The word whose little-endian encoding is the first four bytes of `b`.
pub open spec fn word_le(b: Seq<u8>) -> u32
    recommends
        b.len() == 4,
{
    (b[0] as int + 0x100 * (b[1] as int) + 0x1_0000 * (b[2] as int) + 0x100_0000 * (b[3] as int)) as u32
}

/// `buffer` with its front overwritten by `chunk`.
pub open spec fn overlay(buffer: Seq<u8>, chunk: Seq<u8>) -> Seq<u8>
    recommends
        chunk.len() <= buffer.len(),
{
    Seq::new(
        buffer.len(),
        |j: int|
            if j < chunk.len() {
                chunk[j]
            } else {
                buffer[j]
            },
    )
}

/// How many reads of up to four bytes it takes to consume `len` bytes.
pub open spec fn chunk_count(len: nat) -> nat {
    (len + 3) / 4
}

/// The read buffer as it stands once chunk `k` of `bytes` has been read into
/// it: the bytes of chunk `k`, and behind a short last chunk what the chunk
/// before it left there (zeros if there was none).
pub open spec fn window(bytes: Seq<u8>, k: int) -> Seq<u8> {
    Seq::new(
        4,
        |j: int|
            if 4 * k + j < bytes.len() {
                bytes[4 * k + j]
            } else if k > 0 {
                bytes[4 * (k - 1) + j]
            } else {
                0u8
            },
    )
}

/// The words that reading `bytes` four at a time produces.
pub open spec fn words_of(bytes: Seq<u8>) -> Seq<u32> {
    Seq::new(chunk_count(bytes.len()), |k: int| word_le(window(bytes, k)))
}

/// The state of a read loop: the reused buffer and the words decoded so far.
pub struct WordReader {
    pub buffer: [u8; 4],
    pub words: Vec<u32>,
}

impl WordReader {
    /// A reader that has seen nothing: a zeroed buffer and no words.
    pub fn new() -> (reader: WordReader)
        ensures
            reader.buffer@ == seq![0u8, 0u8, 0u8, 0u8],
            reader.words@ == Seq::<u32>::empty(),
    {
        WordReader { buffer: [0u8, 0u8, 0u8, 0u8], words: Vec::new() }
    }

    /// Takes the bytes that one read delivered and says whether to read on.
    ///
    /// An empty chunk marks the end of the stream: nothing changes and the
    /// answer is `false`. Otherwise the chunk overwrites the front of the
    /// buffer, the buffer is appended as one more word, and the answer is
    /// `true`.
    pub fn accept(&mut self, chunk: &[u8]) -> (more: bool)
        requires
            chunk@.len() <= 4,
        ensures
            more == (chunk@.len() > 0),
            !more ==> *final(self) == *old(self),
            more ==> final(self).buffer@ == overlay(old(self).buffer@, chunk@),
            more ==> final(self).words@ == old(self).words@.push(word_le(final(self).buffer@)),
    {
        let n = chunk.len();
        if n < 1 {
            return false;
        }
        let mut j: usize = 0;
        while j < n
            invariant
                j <= n,
                n == chunk@.len(),
                n <= 4,
                self.words == old(self).words,
                self.buffer@ == overlay(old(self).buffer@, chunk@.take(j as int)),
            decreases n - j,
        {
            self.buffer[j] = chunk[j];
            j = j + 1;
        }
        assert(chunk@.take(n as int) == chunk@);
        let word = word_from_le(&self.buffer);
        self.words.push(word);
        true
    }
}

/// Assembles the four bytes of `b`, least significant first.
pub fn word_from_le(b: &[u8; 4]) -> (word: u32)
    ensures
        word == word_le(b@),
{
    b[0] as u32 + 0x100 * (b[1] as u32) + 0x1_0000 * (b[2] as u32) + 0x100_0000 * (b[3] as u32)
}

/// Decodes a whole byte string the way a read loop over it would: in reads
/// of four bytes, with one shorter read at the end if the length is no
/// multiple of four.
pub fn decode_words(bytes: &[u8]) -> (words: Vec<u32>)
    ensures
        words@ == words_of(bytes@),
{
    let mut reader = WordReader::new();
    let mut at: usize = 0;
    while at < bytes.len()
        invariant
            at <= bytes@.len(),
            at % 4 == 0 || at == bytes@.len(),
            reader.words@.len() == chunk_count(at as nat),
            forall|k: int| 0 <= k < reader.words@.len() ==> reader.words@[k] == word_le(window(bytes@, k)),
            at == 0 ==> reader.buffer@ == seq![0u8, 0u8, 0u8, 0u8],
            at > 0 ==> reader.buffer@ == window(bytes@, chunk_count(at as nat) - 1),
        decreases bytes@.len() - at,
    {
        let end = if bytes.len() - at >= WORD_BYTES {
            at + WORD_BYTES
        } else {
            bytes.len()
        };
        let ghost k = chunk_count(at as nat) as int;
        let chunk = slice_subrange(bytes, at, end);
        reader.accept(chunk);
        assert(reader.buffer@ =~= window(bytes@, k));
        at = end;
    }
    reader.words
}

/// On a byte string whose length is a multiple of four no read comes up
/// short: there is one word for every four bytes, and word `k` is made of
/// bytes `4 * k` to `4 * k + 3` and of nothing else.
pub proof fn lemma_aligned_words(bytes: Seq<u8>, k: int)
    requires
        bytes.len() % 4 == 0,
        0 <= k < bytes.len() / 4,
    ensures
        words_of(bytes).len() == bytes.len() / 4,
        words_of(bytes)[k] == word_le(bytes.subrange(4 * k, 4 * k + 4)),
{
    assert(window(bytes, k) =~= bytes.subrange(4 * k, 4 * k + 4));
}

/// A trailing read of fewer than four bytes still yields a word: its low
/// bytes are the ones that arrived, and its high bytes repeat those of the
/// word before it, or are zero if it is the only word.
pub proof fn lemma_short_last_word(bytes: Seq<u8>, j: int)
    requires
        bytes.len() % 4 != 0,
        0 <= j < 4,
    ensures
        words_of(bytes).len() == bytes.len() / 4 + 1,
        window(bytes, (bytes.len() / 4) as int)[j] == if j < bytes.len() % 4 {
            bytes[4 * (bytes.len() / 4) + j]
        } else if bytes.len() >= 4 {
            window(bytes, bytes.len() / 4 - 1)[j]
        } else {
            0u8
        },
{
}

} // verus!

//! Little-endian word streams: the byte layout every data file and saved game
//! is made of.

use vstd::prelude::*;

verus! {

/// The byte at offset `at`; a byte that is not there reads as 0.
pub open spec fn byte_at(buf: Seq<u8>, at: int) -> u8 {
    if 0 <= at < buf.len() {
        buf[at]
    } else {
        0
    }
}

/// The little-endian word whose low byte stands at byte offset `at`.
pub open spec fn word_at(buf: Seq<u8>, at: int) -> u16 {
    (byte_at(buf, at) + 256 * byte_at(buf, at + 1)) as u16
}

/// The 32-bit value made of the words at `at` (low) and `at + 2` (high).
pub open spec fn dword_at(buf: Seq<u8>, at: int) -> u32 {
    (word_at(buf, at) + 65536 * word_at(buf, at + 2)) as u32
}

/// The `n` words from byte offset `at` on.
pub open spec fn words(buf: Seq<u8>, at: int, n: nat) -> Seq<u16> {
    Seq::new(n, |i: int| word_at(buf, at + 2 * i))
}

/// `new` starts with all of `old`.
pub open spec fn extends(old: Seq<u8>, new: Seq<u8>) -> bool {
    &&& old.len() <= new.len()
    &&& forall|i: int| 0 <= i < old.len() ==> #[trigger] new[i] == old[i]
}

/// Reinterpreting a signed word as unsigned and back changes nothing.
pub proof fn lemma_signed_word(v: i16)
    ensures
        (v as u16) as i16 == v,
{
    assert((v as u16) as i16 == v) by (bit_vector);
}

/// Words of a buffer keep their values when the buffer grows at its end.
pub proof fn lemma_words_kept(old: Seq<u8>, new: Seq<u8>)
    requires
        extends(old, new),
    ensures
        forall|at: int| 0 <= at && at + 1 < old.len() ==> #[trigger] word_at(new, at) == word_at(old, at),
        forall|at: int, n: nat| 0 <= at && at + 2 * n <= old.len() ==> #[trigger] words(new, at, n) == words(old, at, n),
{
    assert forall|at: int, n: nat| 0 <= at && at + 2 * n <= old.len() implies #[trigger] words(new, at, n) == words(old, at, n) by {
        assert(words(new, at, n) =~= words(old, at, n));
    }
}

/// The byte at offset `at`, or 0.
pub(crate) fn read_byte(buf: &[u8], at: usize) -> (b: u8)
    ensures
        b == byte_at(buf@, at as int),
{
    if at < buf.len() {
        buf[at]
    } else {
        0
    }
}

/// A cursor that reads words from a byte buffer.
pub struct WordReader<'a> {
    buf: &'a [u8],
    pos: usize,
}

impl<'a> WordReader<'a> {
    /// The bytes being read.
    pub closed spec fn bytes(&self) -> Seq<u8> {
        self.buf@
    }

    /// The byte offset of the next word.
    pub closed spec fn offset(&self) -> int {
        self.pos as int
    }

    /// This reader is `before`, `n` bytes further on.
    pub open spec fn advanced(&self, before: &WordReader<'a>, n: int) -> bool {
        &&& self.bytes() == before.bytes()
        &&& self.offset() == before.offset() + n
    }

    pub fn new(buf: &'a [u8]) -> (r: WordReader<'a>)
        ensures
            r.bytes() == buf@,
            r.offset() == 0,
    {
        WordReader { buf, pos: 0 }
    }

    /// Read a u16; missing bytes read as 0.
    pub fn u16(&mut self) -> (v: u16)
        requires
            0 <= old(self).offset() <= usize::MAX - 2,
        ensures
            v == word_at(old(self).bytes(), old(self).offset()),
            final(self).advanced(old(self), 2),
    {
        let lo: u8 = read_byte(self.buf, self.pos);
        let hi: u8 = read_byte(self.buf, self.pos + 1);
        self.pos = self.pos + 2;
        lo as u16 + 256 * (hi as u16)
    }

    pub fn i16(&mut self) -> (v: i16)
        requires
            0 <= old(self).offset() <= usize::MAX - 2,
        ensures
            v == word_at(old(self).bytes(), old(self).offset()) as i16,
            final(self).advanced(old(self), 2),
    {
        self.u16() as i16
    }

    /// Read a u32 as a low word followed by a high word.
    pub fn u32(&mut self) -> (v: u32)
        requires
            0 <= old(self).offset() <= usize::MAX - 4,
        ensures
            v == dword_at(old(self).bytes(), old(self).offset()),
            final(self).advanced(old(self), 4),
    {
        let lo: u16 = self.u16();
        let hi: u16 = self.u16();
        lo as u32 + 65536 * (hi as u32)
    }

    /// Number of bytes that are left.
    pub fn remaining(&self) -> (n: usize)
        ensures
            n == if self.offset() <= self.bytes().len() { self.bytes().len() - self.offset() } else { 0 },
    {
        self.buf.len().saturating_sub(self.pos)
    }

    pub fn pos(&self) -> (p: usize)
        ensures
            p == self.offset(),
    {
        self.pos
    }
}

/// A buffer that words are appended to.
pub struct WordWriter {
    pub buf: Vec<u8>,
}

impl Default for WordWriter {
    fn default() -> (w: WordWriter)
        ensures
            w.buf@ == Seq::<u8>::empty(),
    {
        WordWriter { buf: Vec::new() }
    }
}

impl WordWriter {
    /// This writer is `before` with `n` bytes appended.
    pub open spec fn grew(&self, before: &WordWriter, n: int) -> bool {
        &&& extends(before.buf@, self.buf@)
        &&& self.buf@.len() == before.buf@.len() + n
    }

    pub fn new() -> (w: WordWriter)
        ensures
            w.buf@ == Seq::<u8>::empty(),
    {
        WordWriter { buf: Vec::new() }
    }

    /// Append a word, low byte first.
    pub fn u16(&mut self, v: u16)
        ensures
            final(self).buf@ == old(self).buf@.push((v % 256) as u8).push((v / 256) as u8),
            final(self).grew(old(self), 2),
            word_at(final(self).buf@, old(self).buf@.len() as int) == v,
    {
        self.buf.push((v % 256) as u8);
        self.buf.push((v / 256) as u8);
    }

    pub fn i16(&mut self, v: i16)
        ensures
            final(self).grew(old(self), 2),
            word_at(final(self).buf@, old(self).buf@.len() as int) == v as u16,
            word_at(final(self).buf@, old(self).buf@.len() as int) as i16 == v,
    {
        proof {
            lemma_signed_word(v);
        }
        self.u16(v as u16);
    }

    /// Append a 32-bit value, low word first.
    pub fn u32(&mut self, v: u32)
        ensures
            final(self).grew(old(self), 4),
            dword_at(final(self).buf@, old(self).buf@.len() as int) == v,
    {
        self.u16((v % 65536) as u16);
        let ghost mid = self.buf@;
        self.u16((v / 65536) as u16);
        proof {
            lemma_words_kept(mid, self.buf@);
        }
    }
}

/// Reading back a word, a signed word or a 32-bit value that was appended to
/// a writer gives that value, whatever is appended after it.
pub proof fn law_written_words_read_back(before: WordWriter, after: WordWriter, later: Seq<u8>, v: u16, s: i16)
    requires
        after.grew(&before, 2),
        word_at(after.buf@, before.buf@.len() as int) == v,
        v == s as u16,
        extends(after.buf@, later),
    ensures
        word_at(later, before.buf@.len() as int) == v,
        word_at(later, before.buf@.len() as int) as i16 == s,
{
    lemma_signed_word(s);
    lemma_words_kept(after.buf@, later);
}

/// Words are stored with the low byte first, and values of 32 bits with the low
/// word first; what is not there reads as 0.
pub proof fn law_words_are_little_endian(buf: Seq<u8>, at: int)
    requires
        0 <= at,
    ensures
        at + 1 < buf.len() ==> word_at(buf, at) == buf[at] + 0x100 * buf[at + 1],
        at + 1 == buf.len() ==> word_at(buf, at) == buf[at],
        at >= buf.len() ==> word_at(buf, at) == 0,
        at + 3 < buf.len() ==> dword_at(buf, at) == buf[at] + 0x100 * buf[at + 1] + 0x1_0000 * buf[at + 2] + 0x100_0000 * buf[
            at + 3],
        forall|n: nat, i: int| 0 <= i < n ==> #[trigger] words(buf, at, n)[i] == word_at(buf, at + 2 * i),
{
}

/// The bytes from `at` on spell these words, low byte first.
pub open spec fn spells(buf: Seq<u8>, at: int, w: Seq<u16>) -> bool {
    &&& 0 <= at
    &&& at + 2 * w.len() <= buf.len()
    &&& forall|k: int| 0 <= k < w.len() ==> buf[at + 2 * k] + 0x100 * buf[at + 2 * k + 1] == #[trigger] w[k]
}

/// The words that bytes spell are the words read there.
pub proof fn lemma_spelled_words(buf: Seq<u8>, at: int, w: Seq<u16>)
    requires
        spells(buf, at, w),
    ensures
        forall|k: int| 0 <= k < w.len() ==> word_at(buf, at + 2 * k) == #[trigger] w[k],
        words(buf, at, w.len()) == w,
{
    assert forall|k: int| 0 <= k < w.len() implies word_at(buf, at + 2 * k) == #[trigger] w[k] by {
        assert(buf[at + 2 * k] + 0x100 * buf[at + 2 * k + 1] == w[k]);
    }
    assert(words(buf, at, w.len()) =~= w);
}

} // verus!

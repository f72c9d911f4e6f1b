//! The scanner: one fixed input, read as bytes, as words or as lines.
use crate::numbers::{parse_int, Int};
use crate::text::{
    decode_lossy, lemma_tokens_proper, proper_tokens, decoded_text, split_tokens, tokens_of, trim_ascii_text, trim_spaces,
};
use vstd::prelude::*;
use vstd::slice::slice_to_vec;
use vstd::utf8::{decode_utf8, valid_utf8, encode_utf8, encode_utf8_decode_utf8, encode_utf8_valid_utf8};

verus! {

/// Why a number could not be read.
#[derive(Debug)]
pub enum ScannerError<E> {
    /// Every word has already been read.
    NoMoreData,
    /// The word read is not a number of the requested type.
    ParseError(E),
}

/// The words of an input: its decoded text split on spaces.
pub open spec fn words_of(b: Seq<u8>) -> Seq<Seq<char>> {
    tokens_of(decoded_text(b), ' ')
}

/// The lines of an input: its decoded text split on line feeds.
pub open spec fn lines_of(b: Seq<u8>) -> Seq<Seq<char>> {
    tokens_of(decoded_text(b), '\n')
}

/// The token at position `k`, if there is one.
pub open spec fn token_at(toks: Seq<Seq<char>>, k: nat) -> Option<Seq<char>> {
    if k < toks.len() {
        Some(toks[k as int])
    } else {
        None
    }
}

/// One byte read at position `pos` of `b`: the position after it, and the
/// byte, or nothing once the input is used up.
pub open spec fn byte_step(b: Seq<u8>, pos: nat) -> (nat, Option<u8>) {
    if pos < b.len() {
        ((pos + 1) as nat, Some(b[pos as int]))
    } else {
        (pos, None)
    }
}

/// What the `k`-th byte read after position `pos` (counting from zero)
/// returns.
pub open spec fn byte_read(b: Seq<u8>, pos: nat, k: nat) -> Option<u8>
    decreases k,
{
    if k == 0 {
        byte_step(b, pos).1
    } else {
        byte_read(b, byte_step(b, pos).0, (k - 1) as nat)
    }
}

/// A scanner over a fixed input. Bytes, words and lines are each read with
/// a position of their own; words and lines are split from the input when
/// first asked for, and kept.
#[derive(Debug, PartialEq)]
pub struct Scanner {
    data: Vec<u8>,
    pos: usize,
    words: Option<Vec<String>>,
    word_pos: usize,
    lines: Option<Vec<String>>,
    line_pos: usize,
}

impl Scanner {
    /// The input.
    pub closed spec fn bytes(&self) -> Seq<u8> {
        self.data@
    }

    /// How many bytes have been read.
    pub closed spec fn byte_pos(&self) -> nat {
        self.pos as nat
    }

    /// How many words (or numbers) have been read.
    pub closed spec fn word_pos(&self) -> nat {
        self.word_pos as nat
    }

    /// How many lines have been read.
    pub closed spec fn line_pos(&self) -> nat {
        self.line_pos as nat
    }

    /// The words of the input.
    pub open spec fn words(&self) -> Seq<Seq<char>> {
        words_of(self.bytes())
    }

    /// The lines of the input.
    pub open spec fn lines(&self) -> Seq<Seq<char>> {
        lines_of(self.bytes())
    }

    /// Whether a byte is left to read.
    pub open spec fn spec_has_next(&self) -> bool {
        self.byte_pos() < self.bytes().len()
    }

    /// The byte position lies within the input, and the kept words and lines
    /// are those of the input.
    pub closed spec fn wf(&self) -> bool {
        &&& self.pos <= self.data@.len()
        &&& match self.words {
            Some(w) => w.deep_view() == self.words(),
            None => true,
        }
        &&& match self.lines {
            Some(l) => l.deep_view() == self.lines(),
            None => true,
        }
    }

    /// A scanner over the given bytes, with nothing read yet.
    pub fn from_bytes(data: Vec<u8>) -> (r: Scanner)
        ensures
            r.wf(),
            r.bytes() == data@,
            r.byte_pos() == 0,
            r.word_pos() == 0,
            r.line_pos() == 0,
    {
        Scanner { data, pos: 0, words: None, word_pos: 0, lines: None, line_pos: 0 }
    }

    /// A scanner over the UTF-8 encoding of `s`, with nothing read yet.
    pub fn from_str(s: &str) -> (r: Scanner)
        ensures
            r.wf(),
            r.bytes() == encode_utf8(s@),
            r.byte_pos() == 0,
            r.word_pos() == 0,
            r.line_pos() == 0,
            r.spec_has_next() == (s@.len() > 0),
            r.words() == tokens_of(s@, ' '),
            r.lines() == tokens_of(s@, '\n'),
    {
        let data = slice_to_vec(s.as_bytes());
        proof {
            lemma_encode_utf8_empty(s@);
            encode_utf8_valid_utf8(s@);
            encode_utf8_decode_utf8(s@);
        }
        Scanner::from_bytes(data)
    }

    /// Whether a byte is left to read.
    pub fn has_next(&self) -> (r: bool)
        requires
            self.wf(),
        ensures
            r == self.spec_has_next(),
    {
        self.pos < self.data.len()
    }

    /// The next byte, without reading it; nothing once the input is used up.
    pub fn next_byte(&self) -> (r: Option<u8>)
        requires
            self.wf(),
        ensures
            r == byte_step(self.bytes(), self.byte_pos()).1,
    {
        if self.has_next() {
            Some(self.data[self.pos])
        } else {
            None
        }
    }

    /// Reads the next byte; nothing once the input is used up.
    pub fn next(&mut self) -> (r: Option<u8>)
        requires
            old(self).wf(),
        ensures
            final(self).wf(),
            (final(self).byte_pos(), r) == byte_step(old(self).bytes(), old(self).byte_pos()),
            final(self).bytes() == old(self).bytes(),
            final(self).word_pos() == old(self).word_pos(),
            final(self).line_pos() == old(self).line_pos(),
    {
        if self.pos < self.data.len() {
            let b = self.data[self.pos];
            self.pos = self.pos + 1;
            Some(b)
        } else {
            None
        }
    }

    /// The decoded input split on `sep`, without empty fragments.
    pub fn delimiter(&self, sep: char) -> (r: Vec<String>)
        ensures
            r.deep_view() == tokens_of(decoded_text(self.bytes()), sep),
    {
        let text = decode_lossy(self.data.as_slice());
        split_tokens(&text, sep)
    }

    /// Reads the next word (a run of characters between spaces); nothing
    /// once every word has been read.
    pub fn next_word(&mut self) -> (r: Option<String>)
        requires
            old(self).wf(),
        ensures
            final(self).wf(),
            match token_at(old(self).words(), old(self).word_pos()) {
                Some(t) => r is Some && r->0@ == t && final(self).word_pos() == old(self).word_pos()
                    + 1,
                None => r is None && final(self).word_pos() == old(self).word_pos(),
            },
            final(self).bytes() == old(self).bytes(),
            final(self).byte_pos() == old(self).byte_pos(),
            final(self).line_pos() == old(self).line_pos(),
    {
        if self.words.is_none() {
            self.words = Some(self.delimiter(' '));
        }
        match &self.words {
            Some(w) => {
                if self.word_pos < w.len() {
                    let word = w[self.word_pos].clone();
                    self.word_pos = self.word_pos + 1;
                    Some(word)
                } else {
                    None
                }
            },
            None => None,
        }
    }

    /// Reads the next line (a run of characters between line feeds); nothing
    /// once every line has been read.
    pub fn next_line(&mut self) -> (r: Option<String>)
        requires
            old(self).wf(),
        ensures
            final(self).wf(),
            match token_at(old(self).lines(), old(self).line_pos()) {
                Some(t) => r is Some && r->0@ == t && final(self).line_pos() == old(self).line_pos()
                    + 1,
                None => r is None && final(self).line_pos() == old(self).line_pos(),
            },
            final(self).bytes() == old(self).bytes(),
            final(self).byte_pos() == old(self).byte_pos(),
            final(self).word_pos() == old(self).word_pos(),
    {
        if self.lines.is_none() {
            self.lines = Some(self.delimiter('\n'));
        }
        match &self.lines {
            Some(l) => {
                if self.line_pos < l.len() {
                    let line = l[self.line_pos].clone();
                    self.line_pos = self.line_pos + 1;
                    Some(line)
                } else {
                    None
                }
            },
            None => None,
        }
    }

    /// Reads the next word as a number of type `T`, after trimming ASCII
    /// whitespace from it. `NoMoreData` once every word has been read; a
    /// word that is not such a number is read all the same.
    pub fn next_number<T: Int>(&mut self) -> (r: Result<T, ScannerError<std::num::ParseIntError>>)
        requires
            old(self).wf(),
        ensures
            final(self).wf(),
            match token_at(old(self).words(), old(self).word_pos()) {
                Some(t) => final(self).word_pos() == old(self).word_pos() + 1 && match parse_int(
                    trim_spaces(t),
                    T::lower(),
                    T::upper(),
                ) {
                    Some(v) => r is Ok && r->Ok_0.value() == v,
                    None => r is Err && r->Err_0 is ParseError,
                },
                None => r is Err && r->Err_0 is NoMoreData && final(self).word_pos() == old(
                    self,
                ).word_pos(),
            },
            final(self).bytes() == old(self).bytes(),
            final(self).byte_pos() == old(self).byte_pos(),
            final(self).line_pos() == old(self).line_pos(),
    {
        match self.next_word() {
            Some(word) => {
                let t = trim_ascii_text(word.as_str());
                match T::parse_decimal(t) {
                    Ok(v) => Ok(v),
                    Err(e) => Err(ScannerError::ParseError(e)),
                }
            },
            None => Err(ScannerError::NoMoreData),
        }
    }

    /// Reads the next word as an integer of type `T`; the same as
    /// `next_number`.
    pub fn next_int<T: Int>(&mut self) -> (r: Result<T, ScannerError<std::num::ParseIntError>>)
        requires
            old(self).wf(),
        ensures
            final(self).wf(),
            match token_at(old(self).words(), old(self).word_pos()) {
                Some(t) => final(self).word_pos() == old(self).word_pos() + 1 && match parse_int(
                    trim_spaces(t),
                    T::lower(),
                    T::upper(),
                ) {
                    Some(v) => r is Ok && r->Ok_0.value() == v,
                    None => r is Err && r->Err_0 is ParseError,
                },
                None => r is Err && r->Err_0 is NoMoreData && final(self).word_pos() == old(
                    self,
                ).word_pos(),
            },
            final(self).bytes() == old(self).bytes(),
            final(self).byte_pos() == old(self).byte_pos(),
            final(self).line_pos() == old(self).line_pos(),
    {
        self.next_number::<T>()
    }
}

/// The UTF-8 encoding of a text is empty exactly when the text is.
proof fn lemma_encode_utf8_empty(s: Seq<char>)
    ensures
        (encode_utf8(s).len() == 0) == (s.len() == 0),
{
}

proof fn lemma_byte_read(b: Seq<u8>, pos: nat, k: nat)
    requires
        pos <= b.len(),
    ensures
        byte_read(b, pos, k) == (if pos + k < b.len() {
            Some(b[(pos + k) as int])
        } else {
            None
        }),
    decreases k,
{
    if k > 0 {
        lemma_byte_read(b, byte_step(b, pos).0, (k - 1) as nat);
    }
}

/// Reading bytes one after another from a scanner over `s` gives the UTF-8
/// encoding of `s` in order, and nothing from then on.
pub proof fn lemma_reads_encoding(s: Seq<char>, k: nat)
    ensures
        byte_read(encode_utf8(s), 0, k) == (if k < encode_utf8(s).len() {
            Some(encode_utf8(s)[k as int])
        } else {
            None
        }),
{
    lemma_byte_read(encode_utf8(s), 0, k);
}

/// On an empty input there is no byte left, and no byte, word, number or
/// line to read, whatever was read before.
pub proof fn lemma_empty_input(sc: &Scanner)
    requires
        sc.bytes().len() == 0,
    ensures
        !sc.spec_has_next(),
        byte_step(sc.bytes(), sc.byte_pos()).1 is None,
        token_at(sc.words(), sc.word_pos()) is None,
        token_at(sc.lines(), sc.line_pos()) is None,
{
    assert(valid_utf8(sc.bytes()));
    assert(decode_utf8(sc.bytes()) =~= seq![]);
}

/// No word and no line of any input is empty, however many spaces or line
/// feeds stand together; no word holds a space and no line a line feed.
pub proof fn lemma_tokens_never_empty(b: Seq<u8>)
    ensures
        proper_tokens(words_of(b), ' '),
        proper_tokens(lines_of(b), '\n'),
{
    lemma_tokens_proper(decoded_text(b), ' ');
    lemma_tokens_proper(decoded_text(b), '\n');
}

} // verus!

//! Splitting decoded text into tokens, and the ASCII-whitespace trim applied
//! to a token before it is read as a number.
use vstd::prelude::*;
use vstd::utf8::{decode_utf8, valid_utf8};

verus! {

/// What `String::from_utf8_lossy` makes of a byte sequence: the decoded
/// characters, with each invalid sequence replaced by U+FFFD.
pub uninterp spec fn lossy_text(b: Seq<u8>) -> Seq<char>;

/// The text of a byte sequence: its characters where it is valid UTF-8, and
/// the lossy decoding otherwise.
pub open spec fn decoded_text(b: Seq<u8>) -> Seq<char> {
    if valid_utf8(b) {
        decode_utf8(b)
    } else {
        lossy_text(b)
    }
}

/// Relies on `String::from_utf8_lossy`: the characters it decodes from `b`,
/// which are exactly those that `b` encodes where `b` is valid UTF-8.
#[verifier::external_body]
pub(crate) fn decode_lossy(b: &[u8]) -> (r: Vec<char>)
    ensures
        r@ == (if valid_utf8(b@) {
            decode_utf8(b@)
        } else {
            lossy_text(b@)
        }),
{
    String::from_utf8_lossy(b).chars().collect()
}

/// Relies on `String`'s `FromIterator<char>`: the string holds the given
/// characters in order.
#[verifier::external_body]
pub(crate) fn string_of(c: Vec<char>) -> (r: String)
    ensures
        r@ == c@,
{
    c.into_iter().collect()
}

/// The characters that `u8::is_ascii_whitespace` accepts: space, tab, line
/// feed, form feed and carriage return.
pub open spec fn is_ascii_space(c: char) -> bool {
    c == ' ' || c == '\t' || c == '\n' || c == '\x0C' || c == '\r'
}

/// `s` without its leading ASCII whitespace.
pub open spec fn trim_start_spaces(s: Seq<char>) -> Seq<char>
    decreases s.len(),
{
    if s.len() > 0 && is_ascii_space(s[0]) {
        trim_start_spaces(s.drop_first())
    } else {
        s
    }
}

/// `s` without its trailing ASCII whitespace.
pub open spec fn trim_end_spaces(s: Seq<char>) -> Seq<char>
    decreases s.len(),
{
    if s.len() > 0 && is_ascii_space(s.last()) {
        trim_end_spaces(s.drop_last())
    } else {
        s
    }
}

/// `s` without leading or trailing ASCII whitespace.
pub open spec fn trim_spaces(s: Seq<char>) -> Seq<char> {
    trim_end_spaces(trim_start_spaces(s))
}

/// Relies on `str::trim_ascii`: `s` with its leading and trailing ASCII
/// whitespace removed.
#[verifier::external_body]
pub(crate) fn trim_ascii_text(s: &str) -> (r: &str)
    ensures
        r@ == trim_spaces(s@),
{
    s.trim_ascii()
}

/// Splits the characters of `text` on `sep`, dropping empty fragments.
pub fn split_tokens(text: &Vec<char>, sep: char) -> (r: Vec<String>)
    ensures
        r.deep_view() == tokens_of(text@, sep),
{
    let mut out: Vec<String> = Vec::new();
    let mut cur: Vec<char> = Vec::new();
    let ghost mut start: int = 0;
    let mut i: usize = 0;
    proof {
        assert(text@.skip(0) =~= text@);
        assert(cur@ =~= seq![]);
        assert(out.deep_view() + tokens_of(text@, sep) =~= tokens_of(text@, sep));
    }
    while i < text.len()
        invariant
            0 <= start <= i <= text@.len(),
            cur@ == text@.subrange(start, i as int),
            out.deep_view() + split_from(text@.skip(i as int), sep, cur@) == tokens_of(text@, sep),
        decreases text@.len() - i,
    {
        let c = text[i];
        let ghost rest = text@.skip(i as int);
        assert(rest[0] == c);
        assert(rest.drop_first() =~= text@.skip(i as int + 1));
        if c == sep {
            if cur.len() > 0 {
                let piece = string_of(cur);
                proof {
                    assert(out.deep_view().push(piece@) =~= out.deep_view() + flush(
                        text@.subrange(start, i as int),
                    ));
                }
                out.push(piece);
            }
            cur = Vec::new();
            proof {
                start = i + 1;
            }
            assert(out.deep_view() + split_from(text@.skip(i as int + 1), sep, seq![]) =~= tokens_of(
                text@,
                sep,
            ));
        } else {
            cur.push(c);
            assert(cur@ =~= text@.subrange(start, i as int + 1));
        }
        i = i + 1;
    }
    if cur.len() > 0 {
        let piece = string_of(cur);
        out.push(piece);
    }
    proof {
        assert(out.deep_view() =~= tokens_of(text@, sep));
    }
    out
}

/// The fragment being accumulated, as a token list: nothing when it is empty.
pub open spec fn flush(cur: Seq<char>) -> Seq<Seq<char>> {
    if cur.len() > 0 {
        seq![cur]
    } else {
        seq![]
    }
}

/// Splits `t` on `sep`, with `cur` the part of the current fragment already
/// read; empty fragments are dropped.
pub open spec fn split_from(t: Seq<char>, sep: char, cur: Seq<char>) -> Seq<Seq<char>>
    decreases t.len(),
{
    if t.len() == 0 {
        flush(cur)
    } else if t[0] == sep {
        flush(cur) + split_from(t.drop_first(), sep, seq![])
    } else {
        split_from(t.drop_first(), sep, cur.push(t[0]))
    }
}

/// The tokens of `t`: its fragments between occurrences of `sep`, in order,
/// without the empty ones.
pub open spec fn tokens_of(t: Seq<char>, sep: char) -> Seq<Seq<char>> {
    split_from(t, sep, seq![])
}

/// A token is never empty and never holds the separator.
pub open spec fn proper_tokens(toks: Seq<Seq<char>>, sep: char) -> bool {
    forall|k: int|
        0 <= k < toks.len() ==> #[trigger] toks[k].len() > 0 && !toks[k].contains(sep)
}

proof fn lemma_split_from_proper(t: Seq<char>, sep: char, cur: Seq<char>)
    requires
        !cur.contains(sep),
    ensures
        proper_tokens(split_from(t, sep, cur), sep),
    decreases t.len(),
{
    let r = split_from(t, sep, cur);
    if t.len() == 0 {
    } else if t[0] == sep {
        lemma_split_from_proper(t.drop_first(), sep, seq![]);
        let rest = split_from(t.drop_first(), sep, seq![]);
        assert forall|k: int| 0 <= k < r.len() implies #[trigger] r[k].len() > 0 && !r[k].contains(
            sep,
        ) by {
            if k < flush(cur).len() {
                assert(r[k] == cur);
            } else {
                assert(r[k] == rest[k - flush(cur).len()]);
            }
        }
    } else {
        let next = cur.push(t[0]);
        assert(!next.contains(sep)) by {
            if next.contains(sep) {
                let j = choose|j: int| 0 <= j < next.len() && next[j] == sep;
                if j < cur.len() {
                    assert(cur[j] == sep);
                }
            }
        }
        lemma_split_from_proper(t.drop_first(), sep, next);
    }
}

/// Consecutive, leading or trailing separators never give an empty token,
/// and no token holds the separator.
pub proof fn lemma_tokens_proper(t: Seq<char>, sep: char)
    ensures
        proper_tokens(tokens_of(t, sep), sep),
{
    lemma_split_from_proper(t, sep, seq![]);
}

} // verus!

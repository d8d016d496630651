//! Splitting a text at any of a set of delimiter characters.

use crate::text::{chars_of, lemma_run_len_is, run_len, string_of_range, trim_range, trimmed};
use vstd::prelude::*;

verus! {

/// The class of characters that are not among `delimiters`.
pub open spec fn is_not_delimiter(delimiters: Seq<char>) -> spec_fn(char) -> bool {
    |c: char| !delimiters.contains(c)
}

/// The pieces of `text` between its delimiters, untrimmed. Every delimiter
/// ends one piece and starts the next, so a text with `k` delimiters has
/// `k + 1` pieces, and two delimiters in a row have an empty piece between
/// them.
pub open spec fn pieces(text: Seq<char>, delimiters: Seq<char>) -> Seq<Seq<char>>
    decreases text.len(),
{
    let n = run_len(text, is_not_delimiter(delimiters)) as int;
    if n >= text.len() {
        seq![text]
    } else {
        seq![text.take(n)] + pieces(text.skip(n + 1), delimiters)
    }
}

/// Every piece without its leading and trailing whitespace.
pub open spec fn trim_all(parts: Seq<Seq<char>>) -> Seq<Seq<char>> {
    parts.map_values(|part: Seq<char>| trimmed(part))
}

/// The fragments of `text`: none for the empty text; otherwise its pieces,
/// each trimmed, the empty ones included.
pub open spec fn split_text_spec(text: Seq<char>, delimiters: Seq<char>) -> Seq<Seq<char>> {
    if text.len() == 0 {
        Seq::empty()
    } else {
        trim_all(pieces(text, delimiters))
    }
}

/// Whether `c` is among `delimiters`.
pub fn is_delimiter(delimiters: &Vec<char>, c: char) -> (found: bool)
    ensures
        found == delimiters@.contains(c),
{
    let mut i: usize = 0;
    while i < delimiters.len()
        invariant
            i <= delimiters@.len(),
            forall|k: int| 0 <= k < i ==> delimiters@[k] != c,
        decreases delimiters@.len() - i,
    {
        if delimiters[i] == c {
            return true;
        }
        i += 1;
    }
    false
}

/// The end of the piece that starts `chars[from..]`: the place of the first
/// delimiter at or after `from`, or the end of `chars`.
fn piece_end(chars: &Vec<char>, from: usize, delimiters: &Vec<char>) -> (end: usize)
    requires
        from <= chars@.len(),
    ensures
        from <= end <= chars@.len(),
        end - from == run_len(chars@.skip(from as int), is_not_delimiter(delimiters@)),
{
    let n = chars.len();
    let mut end: usize = from;
    while end < n && !is_delimiter(delimiters, chars[end])
        invariant
            from <= end <= n == chars@.len(),
            forall|k: int| from <= k < end ==> !delimiters@.contains(#[trigger] chars@[k]),
        decreases n - end,
    {
        end += 1;
    }
    proof {
        let s = chars@.skip(from as int);
        assert forall|k: int| 0 <= k < end - from implies is_not_delimiter(delimiters@)(
            #[trigger] s[k],
        ) by {
            assert(s[k] == chars@[from + k]);
        }
        lemma_run_len_is(s, is_not_delimiter(delimiters@), end - from);
    }
    end
}

/// Splits `text` at every character that occurs in `delimiters` and trims each
/// fragment. The delimiters themselves are dropped. Empty fragments are kept;
/// the empty text has no fragment at all.
pub fn split_text(text: &str, delimiters: &str) -> (fragments: Vec<String>)
    ensures
        fragments.deep_view() == split_text_spec(text@, delimiters@),
{
    let chars = chars_of(text);
    let marks = chars_of(delimiters);
    let n = chars.len();
    let mut fragments: Vec<String> = Vec::new();
    if n == 0 {
        assert(fragments.deep_view() =~= Seq::<Seq<char>>::empty());
        return fragments;
    }
    let mut start: usize = 0;
    let mut finished = false;
    let ghost mut raw: Seq<Seq<char>> = Seq::empty();
    assert(chars@.skip(0) =~= chars@);
    assert(fragments.deep_view() =~= trim_all(raw));
    while !finished
        invariant
            start <= n == chars@.len(),
            marks@ == delimiters@,
            !finished ==> pieces(chars@, marks@) == raw + pieces(chars@.skip(start as int), marks@),
            finished ==> pieces(chars@, marks@) == raw,
            fragments.deep_view() == trim_all(raw),
        decreases
                (if finished {
                    0
                } else {
                    n - start + 1
                }),
    {
        let ghost rest = chars@.skip(start as int);
        let end = piece_end(&chars, start, &marks);
        let (from, to) = trim_range(&chars, start, end);
        let fragment = string_of_range(&chars, from, to);
        let ghost piece = chars@.subrange(start as int, end as int);
        let ghost before = fragments.deep_view();
        fragments.push(fragment);
        proof {
            assert(fragments.deep_view() =~= before.push(trimmed(piece)));
            assert(trim_all(raw.push(piece)) =~= trim_all(raw).push(trimmed(piece)));
            if end == n {
                assert(rest =~= piece);
                assert(raw + seq![rest] =~= raw.push(piece));
            } else {
                assert(rest.take(end - start) =~= piece);
                assert(rest.skip(end - start + 1) =~= chars@.skip(end + 1));
                assert(raw + (seq![piece] + pieces(chars@.skip(end + 1), marks@)) =~= raw.push(
                    piece,
                ) + pieces(chars@.skip(end + 1), marks@));
            }
            raw = raw.push(piece);
        }
        if end == n {
            finished = true;
        } else {
            start = end + 1;
        }
    }
    fragments
}

} // verus!

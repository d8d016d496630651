//! Strings as sequences of characters: reading a string's characters,
//! appending to a string, runs of characters of one class, words and trimming.

use crate::chars::{
    is_whitespace, to_lowercase, to_uppercase, whitespace, written_form, LetterForm,
};
use vstd::prelude::*;
use vstd::utf8::encode_utf8;

verus! {

/// `String::push` of the standard library. Trusted: it appends the character
/// to the end of the string and changes nothing else.
pub assume_specification[ String::push ](text: &mut String, c: char)
    ensures
        final(text)@ == old(text)@.push(c),
;

/// The characters of a string, in order.
pub fn chars_of(text: &str) -> (chars: Vec<char>)
    ensures
        chars@ == text@,
{
    let mut chars: Vec<char> = Vec::new();
    for c in it: text.chars()
        invariant
            chars@ == it.seq().take(it.index() as int),
    {
        chars.push(c);
    }
    chars
}

/// Appends the characters `chars[from..to]` to `out`.
pub fn push_range(out: &mut String, chars: &Vec<char>, from: usize, to: usize)
    requires
        from <= to <= chars@.len(),
    ensures
        final(out)@ == old(out)@ + chars@.subrange(from as int, to as int),
{
    let mut i: usize = from;
    while i < to
        invariant
            from <= i <= to <= chars@.len(),
            out@ == old(out)@ + chars@.subrange(from as int, i as int),
        decreases to - i,
    {
        out.push(chars[i]);
        i += 1;
        assert(chars@.subrange(from as int, i as int) =~= chars@.subrange(from as int, i - 1).push(
            chars@[i - 1],
        ));
    }
}

/// Appends all of `chars` to `out`.
pub fn push_all(out: &mut String, chars: &Vec<char>)
    ensures
        final(out)@ == old(out)@ + chars@,
{
    push_range(out, chars, 0, chars.len());
    assert(chars@.subrange(0, chars@.len() as int) =~= chars@);
}

/// Appends `c` to `out` in the form `form`.
pub fn push_form(out: &mut String, c: char, form: LetterForm)
    ensures
        final(out)@ == old(out)@ + written_form(c, form),
{
    match form {
        LetterForm::Copy => {
            out.push(c);
            assert(out@ =~= old(out)@ + seq![c]);
        },
        LetterForm::Upper => {
            let mapped = to_uppercase(c);
            push_all(out, &mapped);
        },
        LetterForm::Lower => {
            let mapped = to_lowercase(c);
            push_all(out, &mapped);
        },
    }
}

/// The number of bytes that `text` takes in UTF-8.
pub open spec fn byte_len(text: Seq<char>) -> nat {
    encode_utf8(text).len()
}

/// The bytes of two texts in a row are the bytes of the one and of the other.
pub proof fn lemma_byte_len_add(first: Seq<char>, second: Seq<char>)
    ensures
        byte_len(first + second) == byte_len(first) + byte_len(second),
    decreases first.len(),
{
    if first.len() == 0 {
        assert(first + second =~= second);
    } else {
        assert((first + second).drop_first() =~= first.drop_first() + second);
        lemma_byte_len_add(first.drop_first(), second);
    }
}

/// The number of bytes that a string takes.
pub fn bytes_in(text: &str) -> (bytes: usize)
    ensures
        bytes == byte_len(text@),
{
    text.as_bytes().len()
}

/// The number of bytes that one character takes in UTF-8.
pub fn char_bytes(c: char) -> (bytes: usize)
    ensures
        bytes == byte_len(seq![c]),
{
    let mut text = String::new();
    text.push(c);
    assert(Seq::<char>::empty().push(c) =~= seq![c]);
    bytes_in(text.as_str())
}

/// The number of bytes that the characters `chars` take in UTF-8.
pub fn bytes_of(chars: &Vec<char>) -> (bytes: usize)
    ensures
        bytes == byte_len(chars@),
{
    let mut text = String::new();
    push_all(&mut text, chars);
    assert(Seq::<char>::empty() + chars@ =~= chars@);
    bytes_in(text.as_str())
}

/// The string that holds the characters `chars[from..to]`.
pub fn string_of_range(chars: &Vec<char>, from: usize, to: usize) -> (text: String)
    requires
        from <= to <= chars@.len(),
    ensures
        text@ == chars@.subrange(from as int, to as int),
{
    let mut text = String::new();
    push_range(&mut text, chars, from, to);
    assert(Seq::<char>::empty() + chars@.subrange(from as int, to as int) =~= chars@.subrange(
        from as int,
        to as int,
    ));
    text
}

/// The length of the longest prefix of `s` whose characters all satisfy `class`.
pub open spec fn run_len(s: Seq<char>, class: spec_fn(char) -> bool) -> nat
    decreases s.len(),
{
    if s.len() == 0 || !class(s[0]) {
        0
    } else {
        1 + run_len(s.drop_first(), class)
    }
}

/// The length of the longest suffix of `s` whose characters all satisfy `class`.
pub open spec fn tail_run_len(s: Seq<char>, class: spec_fn(char) -> bool) -> nat
    decreases s.len(),
{
    if s.len() == 0 || !class(s.last()) {
        0
    } else {
        1 + tail_run_len(s.drop_last(), class)
    }
}

/// A run is a prefix, every character of it is in the class, and the character
/// after it, if there is one, is not.
pub proof fn lemma_run_len(s: Seq<char>, class: spec_fn(char) -> bool)
    ensures
        run_len(s, class) <= s.len(),
        forall|k: int| 0 <= k < run_len(s, class) ==> class(#[trigger] s[k]),
        run_len(s, class) < s.len() ==> !class(s[run_len(s, class) as int]),
    decreases s.len(),
{
    if s.len() == 0 || !class(s[0]) {
    } else {
        let rest = s.drop_first();
        lemma_run_len(rest, class);
        assert forall|k: int| 0 <= k < run_len(s, class) implies class(#[trigger] s[k]) by {
            if k > 0 {
                assert(s[k] == rest[k - 1]);
            }
        }
        if run_len(s, class) < s.len() {
            assert(s[run_len(s, class) as int] == rest[run_len(rest, class) as int]);
        }
    }
}

/// A prefix of `n` characters of the class that ends the sequence, or is
/// followed by a character outside the class, is the run.
pub proof fn lemma_run_len_is(s: Seq<char>, class: spec_fn(char) -> bool, n: int)
    requires
        0 <= n <= s.len(),
        forall|k: int| 0 <= k < n ==> class(#[trigger] s[k]),
        n < s.len() ==> !class(s[n]),
    ensures
        run_len(s, class) == n,
    decreases s.len(),
{
    if n > 0 {
        let rest = s.drop_first();
        assert forall|k: int| 0 <= k < n - 1 implies class(#[trigger] rest[k]) by {
            assert(rest[k] == s[k + 1]);
        }
        if n - 1 < rest.len() {
            assert(rest[n - 1] == s[n]);
        }
        lemma_run_len_is(rest, class, n - 1);
    }
}

/// A suffix of `n` characters of the class that starts the sequence, or is
/// preceded by a character outside the class, is the trailing run.
pub proof fn lemma_tail_run_len_is(s: Seq<char>, class: spec_fn(char) -> bool, n: int)
    requires
        0 <= n <= s.len(),
        forall|k: int| s.len() - n <= k < s.len() ==> class(#[trigger] s[k]),
        n < s.len() ==> !class(s[s.len() - n - 1]),
    ensures
        tail_run_len(s, class) == n,
    decreases s.len(),
{
    if n > 0 {
        let init = s.drop_last();
        assert forall|k: int| init.len() - (n - 1) <= k < init.len() implies class(
            #[trigger] init[k],
        ) by {
            assert(init[k] == s[k]);
        }
        if n - 1 < init.len() {
            assert(init[init.len() - (n - 1) - 1] == s[s.len() - n - 1]);
        }
        lemma_tail_run_len_is(init, class, n - 1);
    }
}

/// The class of whitespace characters.
pub open spec fn is_space() -> spec_fn(char) -> bool {
    |c: char| whitespace(c)
}

/// The class of characters that are not whitespace.
pub open spec fn is_not_space() -> spec_fn(char) -> bool {
    |c: char| !whitespace(c)
}

/// `s` without its leading and trailing whitespace.
pub open spec fn trimmed(s: Seq<char>) -> Seq<char> {
    let from = run_len(s, is_space()) as int;
    let rest = s.skip(from);
    rest.take(rest.len() - tail_run_len(rest, is_space()))
}

/// The words of `s`: its maximal runs of characters that are not whitespace,
/// in order.
pub open spec fn words(s: Seq<char>) -> Seq<Seq<char>>
    decreases s.len(),
{
    if s.len() == 0 {
        Seq::empty()
    } else if whitespace(s[0]) {
        words(s.drop_first())
    } else {
        let n = run_len(s, is_not_space()) as int;
        proof {
            lemma_run_len(s, is_not_space());
        }
        seq![s.take(n)] + words(s.skip(n))
    }
}

/// `parts` joined by single spaces.
pub open spec fn join_spaced(parts: Seq<Seq<char>>) -> Seq<char>
    decreases parts.len(),
{
    if parts.len() == 0 {
        Seq::empty()
    } else if parts.len() == 1 {
        parts[0]
    } else {
        join_spaced(parts.drop_last()) + seq![' '] + parts.last()
    }
}

/// The end of the whitespace that starts `chars[from..to]`.
pub fn skip_spaces(chars: &Vec<char>, from: usize, to: usize) -> (end: usize)
    requires
        from <= to <= chars@.len(),
    ensures
        from <= end <= to,
        end - from == run_len(chars@.subrange(from as int, to as int), is_space()),
{
    let mut end: usize = from;
    while end < to && is_whitespace(chars[end])
        invariant
            from <= end <= to <= chars@.len(),
            forall|k: int| from <= k < end ==> whitespace(#[trigger] chars@[k]),
        decreases to - end,
    {
        end += 1;
    }
    proof {
        let s = chars@.subrange(from as int, to as int);
        assert forall|k: int| 0 <= k < end - from implies is_space()(#[trigger] s[k]) by {
            assert(s[k] == chars@[from + k]);
        }
        lemma_run_len_is(s, is_space(), end - from);
    }
    end
}

/// The end of the run of characters other than whitespace that starts
/// `chars[from..to]`.
pub fn skip_word(chars: &Vec<char>, from: usize, to: usize) -> (end: usize)
    requires
        from <= to <= chars@.len(),
    ensures
        from <= end <= to,
        end - from == run_len(chars@.subrange(from as int, to as int), is_not_space()),
{
    let mut end: usize = from;
    while end < to && !is_whitespace(chars[end])
        invariant
            from <= end <= to <= chars@.len(),
            forall|k: int| from <= k < end ==> !whitespace(#[trigger] chars@[k]),
        decreases to - end,
    {
        end += 1;
    }
    proof {
        let s = chars@.subrange(from as int, to as int);
        assert forall|k: int| 0 <= k < end - from implies is_not_space()(#[trigger] s[k]) by {
            assert(s[k] == chars@[from + k]);
        }
        lemma_run_len_is(s, is_not_space(), end - from);
    }
    end
}

/// The start of the whitespace that ends `chars[from..to]`.
pub fn skip_spaces_back(chars: &Vec<char>, from: usize, to: usize) -> (start: usize)
    requires
        from <= to <= chars@.len(),
    ensures
        from <= start <= to,
        to - start == tail_run_len(chars@.subrange(from as int, to as int), is_space()),
{
    let mut start: usize = to;
    while start > from && is_whitespace(chars[start - 1])
        invariant
            from <= start <= to <= chars@.len(),
            forall|k: int| start <= k < to ==> whitespace(#[trigger] chars@[k]),
        decreases start - from,
    {
        start -= 1;
    }
    proof {
        let s = chars@.subrange(from as int, to as int);
        assert forall|k: int| s.len() - (to - start) <= k < s.len() implies is_space()(
            #[trigger] s[k],
        ) by {
            assert(s[k] == chars@[from + k]);
        }
        lemma_tail_run_len_is(s, is_space(), to - start);
    }
    start
}

/// The bounds of `chars[from..to]` without its leading and trailing whitespace.
pub fn trim_range(chars: &Vec<char>, from: usize, to: usize) -> (bounds: (usize, usize))
    requires
        from <= to <= chars@.len(),
    ensures
        from <= bounds.0 <= bounds.1 <= to,
        chars@.subrange(bounds.0 as int, bounds.1 as int) == trimmed(
            chars@.subrange(from as int, to as int),
        ),
{
    let start = skip_spaces(chars, from, to);
    let end = skip_spaces_back(chars, start, to);
    proof {
        let s = chars@.subrange(from as int, to as int);
        let rest = s.skip(start - from);
        assert(rest =~= chars@.subrange(start as int, to as int));
        assert(rest.take(rest.len() - (to - end)) =~= chars@.subrange(start as int, end as int));
    }
    (start, end)
}

} // verus!

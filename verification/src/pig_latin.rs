//! Pig Latin, word by word.

use crate::chars::{
    is_ascii_punctuation, is_ascii_punctuation_spec, is_ascii_uppercase, is_ascii_uppercase_spec,
    is_vowel, is_vowel_spec, is_whitespace, to_ascii_uppercase, to_ascii_uppercase_spec,
};
use crate::text::{
    chars_of, is_not_space, join_spaced, lemma_run_len, lemma_run_len_is, push_all, push_range,
    run_len, skip_word, words,
};
use vstd::prelude::*;

verus! {

/// The class of characters that are not ASCII vowels.
pub open spec fn is_not_vowel() -> spec_fn(char) -> bool {
    |c: char| !is_vowel_spec(c)
}

/// The length of the consonant cluster that starts `stem`: the characters
/// before its first ASCII vowel, or all of them where it has none.
pub open spec fn cluster_len(stem: Seq<char>) -> nat {
    run_len(stem, is_not_vowel())
}

/// The ending of a word that starts with a vowel.
pub open spec fn vowel_ending() -> Seq<char> {
    seq!['w', 'a', 'y']
}

/// The ending of a word whose consonant cluster was moved.
pub open spec fn cluster_ending() -> Seq<char> {
    seq!['a', 'y']
}

/// The Pig Latin form of a word that has no trailing punctuation.
///
/// An empty stem stays empty. A stem that starts with a vowel gets `way`. Any
/// other stem has its leading consonant cluster moved behind the rest and gets
/// `ay`; where the stem started with an ASCII capital, the first character of
/// the result is replaced by its ASCII capital, and no other character changes
/// case.
pub open spec fn translate_stem(stem: Seq<char>) -> Seq<char> {
    let k = cluster_len(stem) as int;
    if stem.len() == 0 {
        stem
    } else if k == 0 {
        stem + vowel_ending()
    } else {
        let moved = stem.skip(k) + stem.take(k) + cluster_ending();
        if is_ascii_uppercase_spec(stem[0]) {
            moved.update(0, to_ascii_uppercase_spec(moved[0]))
        } else {
            moved
        }
    }
}

/// The Pig Latin form of a word: where its last character is ASCII
/// punctuation, that character is set aside, the rest is translated, and the
/// character is put back at the end.
pub open spec fn pig_latin_word_spec(word: Seq<char>) -> Seq<char> {
    if word.len() > 0 && is_ascii_punctuation_spec(word.last()) {
        translate_stem(word.drop_last()).push(word.last())
    } else {
        translate_stem(word)
    }
}

/// Every word of `parts` in its Pig Latin form.
pub open spec fn translate_words(parts: Seq<Seq<char>>) -> Seq<Seq<char>> {
    parts.map_values(|word: Seq<char>| pig_latin_word_spec(word))
}

/// The Pig Latin form of a text: its words, each translated, joined by single
/// spaces.
pub open spec fn pig_latin_text_spec(text: Seq<char>) -> Seq<char> {
    join_spaced(translate_words(words(text)))
}

/// The end of the consonant cluster that starts `chars[from..to]`.
fn cluster_end(chars: &Vec<char>, from: usize, to: usize) -> (end: usize)
    requires
        from <= to <= chars@.len(),
    ensures
        from <= end <= to,
        end - from == cluster_len(chars@.subrange(from as int, to as int)),
{
    let mut end: usize = from;
    while end < to && !is_vowel(chars[end])
        invariant
            from <= end <= to <= chars@.len(),
            forall|k: int| from <= k < end ==> !is_vowel_spec(#[trigger] chars@[k]),
        decreases to - end,
    {
        end += 1;
    }
    proof {
        let s = chars@.subrange(from as int, to as int);
        assert forall|k: int| 0 <= k < end - from implies is_not_vowel()(#[trigger] s[k]) by {
            assert(s[k] == chars@[from + k]);
        }
        lemma_run_len_is(s, is_not_vowel(), end - from);
    }
    end
}

/// Appends the translation of the stem `chars[from..to]` to `out`.
fn push_stem(out: &mut String, chars: &Vec<char>, from: usize, to: usize)
    requires
        from <= to <= chars@.len(),
    ensures
        final(out)@ == old(out)@ + translate_stem(chars@.subrange(from as int, to as int)),
{
    let ghost stem = chars@.subrange(from as int, to as int);
    if from == to {
        assert(old(out)@ + stem =~= old(out)@);
        return ;
    }
    let split = cluster_end(chars, from, to);
    if split == from {
        push_range(out, chars, from, to);
        out.push('w');
        out.push('a');
        out.push('y');
        assert(out@ =~= old(out)@ + (stem + vowel_ending()));
    } else {
        let mut moved: Vec<char> = Vec::new();
        let mut i: usize = split;
        while i < to
            invariant
                split <= i <= to <= chars@.len(),
                moved@ == chars@.subrange(split as int, i as int),
            decreases to - i,
        {
            moved.push(chars[i]);
            i += 1;
            assert(chars@.subrange(split as int, i as int) =~= chars@.subrange(
                split as int,
                i - 1,
            ).push(chars@[i - 1]));
        }
        let mut j: usize = from;
        while j < split
            invariant
                from <= j <= split <= to <= chars@.len(),
                moved@ == chars@.subrange(split as int, to as int) + chars@.subrange(
                    from as int,
                    j as int,
                ),
            decreases split - j,
        {
            moved.push(chars[j]);
            j += 1;
            assert(chars@.subrange(from as int, j as int) =~= chars@.subrange(
                from as int,
                j - 1,
            ).push(chars@[j - 1]));
            assert(moved@ =~= chars@.subrange(split as int, to as int) + chars@.subrange(
                from as int,
                j as int,
            ));
        }
        moved.push('a');
        moved.push('y');
        let ghost k = split - from;
        assert(moved@ =~= stem.skip(k) + stem.take(k) + cluster_ending());
        if is_ascii_uppercase(chars[from]) {
            let first = to_ascii_uppercase(moved[0]);
            moved.set(0, first);
        }
        assert(stem[0] == chars@[from as int]);
        push_all(out, &moved);
    }
}

/// Appends the Pig Latin form of the word `chars[from..to]` to `out`.
pub fn push_pig_latin_word(out: &mut String, chars: &Vec<char>, from: usize, to: usize)
    requires
        from <= to <= chars@.len(),
    ensures
        final(out)@ == old(out)@ + pig_latin_word_spec(chars@.subrange(from as int, to as int)),
{
    let ghost word = chars@.subrange(from as int, to as int);
    if from < to && is_ascii_punctuation(chars[to - 1]) {
        push_stem(out, chars, from, to - 1);
        out.push(chars[to - 1]);
        proof {
            assert(word.last() == chars@[to - 1]);
            assert(word.drop_last() =~= chars@.subrange(from as int, to - 1));
            assert(out@ =~= old(out)@ + translate_stem(word.drop_last()).push(word.last()));
        }
    } else {
        proof {
            if from < to {
                assert(word.last() == chars@[to - 1]);
            }
        }
        push_stem(out, chars, from, to);
    }
}

/// Translates one word into Pig Latin.
///
/// The word is taken whole: it is not split at whitespace.
pub fn pig_latin_word(word: &str) -> (translated: String)
    ensures
        translated@ == pig_latin_word_spec(word@),
{
    let chars = chars_of(word);
    let mut translated = String::new();
    push_pig_latin_word(&mut translated, &chars, 0, chars.len());
    assert(chars@.subrange(0, chars@.len() as int) =~= word@);
    assert(Seq::<char>::empty() + pig_latin_word_spec(word@) =~= pig_latin_word_spec(word@));
    translated
}

/// Translates a text into Pig Latin: every word is translated, and the
/// translations are joined by single spaces, whatever whitespace stood between
/// the words.
pub fn pig_latin_text(text: &str) -> (translated: String)
    ensures
        translated@ == pig_latin_text_spec(text@),
{
    let chars = chars_of(text);
    let n = chars.len();
    let mut translated = String::new();
    let mut first = true;
    let mut i: usize = 0;
    let ghost mut done: Seq<Seq<char>> = Seq::empty();
    assert(chars@.skip(0) =~= chars@);
    while i < n
        invariant
            i <= n == chars@.len(),
            words(chars@) == done + words(chars@.skip(i as int)),
            translated@ == join_spaced(translate_words(done)),
            first == (done.len() == 0),
        decreases n - i,
    {
        let ghost rest = chars@.skip(i as int);
        if is_whitespace(chars[i]) {
            assert(rest.drop_first() =~= chars@.skip(i + 1));
            i += 1;
        } else {
            let end = skip_word(&chars, i, n);
            let ghost word = chars@.subrange(i as int, end as int);
            proof {
                lemma_run_len(rest, is_not_space());
                assert(rest.take(end - i) =~= word);
                assert(rest.skip(end - i) =~= chars@.skip(end as int));
                assert(words(rest) == seq![word] + words(chars@.skip(end as int)));
                assert(done + (seq![word] + words(chars@.skip(end as int))) =~= done.push(word)
                    + words(chars@.skip(end as int)));
                assert(translate_words(done.push(word)).drop_last() =~= translate_words(done));
                assert(translate_words(done.push(word)).last() == pig_latin_word_spec(word));
            }
            if !first {
                translated.push(' ');
            }
            push_pig_latin_word(&mut translated, &chars, i, end);
            proof {
                if done.len() == 0 {
                    assert(Seq::<char>::empty() + pig_latin_word_spec(word)
                        =~= pig_latin_word_spec(word));
                } else {
                    assert(translated@ =~= join_spaced(translate_words(done)) + seq![' ']
                        + pig_latin_word_spec(word));
                }
                done = done.push(word);
            }
            first = false;
            i = end;
        }
    }
    assert(done + words(chars@.skip(n as int)) =~= done);
    translated
}

} // verus!

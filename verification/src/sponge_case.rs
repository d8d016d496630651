//! Sponge case: every letter is put in upper or lower case by the flip of a
//! coin; every other character is copied.

use crate::chars::{
    alphabetic, lowercase_of, to_lowercase, to_uppercase, uppercase_of, written_form, LetterForm,
};
use crate::text::{
    byte_len, bytes_of, char_bytes, chars_of, lemma_byte_len_add, push_form,
};
use rand::rngs::StdRng;
use rand::Rng;
use vstd::prelude::*;

verus! {

/// The standard generator of `rand`: deterministic once it is seeded.
#[verifier::external_type_specification]
#[verifier::external_body]
pub struct ExStdRng(StdRng);

/// `Rng::random_ratio` of `rand`: a draw that is true with `numerator` chances
/// in `denominator`. Trusted, and nothing is claimed of the result: either
/// value may come back. The ratios that `random_ratio` refuses are left out.
#[verifier::external_body]
pub(crate) fn draw_ratio(rng: &mut StdRng, numerator: u32, denominator: u32) -> (hit: bool)
    requires
        denominator > 0,
        numerator <= denominator,
{
    rng.random_ratio(numerator, denominator)
}

/// The form in which a character is written when the coin shows `heads`: a
/// letter in upper case on heads and in lower case on tails; any other
/// character as it is, whatever the coin shows.
pub open spec fn sponge_form_spec(letter: bool, heads: bool) -> LetterForm {
    if !letter {
        LetterForm::Copy
    } else if heads {
        LetterForm::Upper
    } else {
        LetterForm::Lower
    }
}

/// What is written for `c` when the coin shows `heads`.
pub open spec fn sponge_char_spec(c: char, heads: bool) -> Seq<char> {
    written_form(c, sponge_form_spec(alphabetic(c), heads))
}

/// The most bytes that can be written for a character that takes `own` bytes,
/// whose uppercase form takes `upper` and whose lowercase form takes `lower`:
/// its own where it is no letter, else the larger of the two forms.
pub open spec fn form_width_spec(letter: bool, own: nat, upper: nat, lower: nat) -> nat {
    if !letter {
        own
    } else if upper >= lower {
        upper
    } else {
        lower
    }
}

/// The most bytes that can be written for `c`.
pub open spec fn widest_form(c: char) -> nat {
    form_width_spec(
        alphabetic(c),
        byte_len(seq![c]),
        byte_len(uppercase_of(c)),
        byte_len(lowercase_of(c)),
    )
}

/// The most bytes that `text` can take in sponge case, whatever the coin
/// shows.
pub open spec fn sponge_room(text: Seq<char>) -> nat
    decreases text.len(),
{
    if text.len() == 0 {
        0
    } else {
        sponge_room(text.drop_last()) + widest_form(text.last())
    }
}

/// The odds of the coin, as chances in a number of draws: one in two.
pub open spec fn fair_odds_spec() -> (u32, u32) {
    (1u32, 2u32)
}

/// The number of letters in `text`: the number of coin flips it takes.
pub open spec fn letter_count(text: Seq<char>) -> nat
    decreases text.len(),
{
    if text.len() == 0 {
        0
    } else {
        letter_count(text.drop_last()) + if alphabetic(text.last()) {
            1nat
        } else {
            0nat
        }
    }
}

/// `text` in sponge case for the coin flips `flips`, one flip for each letter,
/// in the order of the letters.
pub open spec fn sponge_spec(text: Seq<char>, flips: Seq<bool>) -> Seq<char>
    recommends
        flips.len() == letter_count(text),
    decreases text.len(),
{
    if text.len() == 0 {
        Seq::empty()
    } else if alphabetic(text.last()) {
        sponge_spec(text.drop_last(), flips.drop_last()) + sponge_char_spec(
            text.last(),
            flips.last(),
        )
    } else {
        sponge_spec(text.drop_last(), flips) + seq![text.last()]
    }
}

/// Whether `cased` is `text` in sponge case for some sequence of coin flips,
/// one for each letter.
pub open spec fn is_sponge_of(text: Seq<char>, cased: Seq<char>) -> bool {
    exists|flips: Seq<bool>|
        flips.len() == letter_count(text) && cased == #[trigger] sponge_spec(text, flips)
}

/// Whether every letter of `text` has an uppercase and a lowercase form of
/// exactly one character.
pub open spec fn has_simple_cases(text: Seq<char>) -> bool {
    forall|i: int|
        0 <= i < text.len() && alphabetic(#[trigger] text[i]) ==> uppercase_of(text[i]).len() == 1
            && lowercase_of(text[i]).len() == 1
}

/// Where every letter of the text keeps its length under both case mappings,
/// sponge case keeps the length of the text, copies every character that is
/// not a letter to the place it had, and puts at the place of each letter its
/// uppercase or its lowercase form.
pub proof fn lemma_sponge_keeps_shape(text: Seq<char>, flips: Seq<bool>)
    requires
        flips.len() == letter_count(text),
        has_simple_cases(text),
    ensures
        sponge_spec(text, flips).len() == text.len(),
        forall|i: int|
            0 <= i < text.len() && !alphabetic(#[trigger] text[i]) ==> sponge_spec(text, flips)[i]
                == text[i],
        forall|i: int|
            0 <= i < text.len() && alphabetic(#[trigger] text[i]) ==> sponge_spec(text, flips)[i]
                == uppercase_of(text[i])[0] || sponge_spec(text, flips)[i] == lowercase_of(
                text[i],
            )[0],
    decreases text.len(),
{
    if text.len() > 0 {
        let init = text.drop_last();
        let rest = if alphabetic(text.last()) {
            flips.drop_last()
        } else {
            flips
        };
        assert forall|i: int| 0 <= i < init.len() && alphabetic(#[trigger] init[i]) implies
            uppercase_of(init[i]).len() == 1 && lowercase_of(init[i]).len() == 1 by {
            assert(init[i] == text[i]);
        }
        lemma_sponge_keeps_shape(init, rest);
        let cased = sponge_spec(text, flips);
        let before = sponge_spec(init, rest);
        assert(alphabetic(text[text.len() - 1]) ==> uppercase_of(text.last()).len() == 1
            && lowercase_of(text.last()).len() == 1);
        assert forall|i: int| 0 <= i < text.len() implies (!alphabetic(#[trigger] text[i])
            ==> cased[i] == text[i]) && (alphabetic(text[i]) ==> cased[i] == uppercase_of(
            text[i],
        )[0] || cased[i] == lowercase_of(text[i])[0]) by {
            if i < init.len() {
                assert(init[i] == text[i]);
                assert(cased[i] == before[i]);
            }
        }
    }
}

/// Sponge case never writes more bytes than the room of the text.
pub proof fn lemma_sponge_within_room(text: Seq<char>, flips: Seq<bool>)
    requires
        flips.len() == letter_count(text),
    ensures
        byte_len(sponge_spec(text, flips)) <= sponge_room(text),
    decreases text.len(),
{
    if text.len() > 0 {
        let init = text.drop_last();
        if alphabetic(text.last()) {
            lemma_sponge_within_room(init, flips.drop_last());
            lemma_byte_len_add(
                sponge_spec(init, flips.drop_last()),
                sponge_char_spec(text.last(), flips.last()),
            );
        } else {
            lemma_sponge_within_room(init, flips);
            lemma_byte_len_add(sponge_spec(init, flips), seq![text.last()]);
        }
    } else {
        assert(byte_len(Seq::<char>::empty()) == 0);
    }
}

/// The room of a text is at least the room of each of its prefixes.
pub proof fn lemma_room_grows(text: Seq<char>, n: int)
    requires
        0 <= n <= text.len(),
    ensures
        sponge_room(text.take(n)) <= sponge_room(text),
    decreases text.len(),
{
    if n < text.len() {
        assert(text.drop_last().take(n) =~= text.take(n));
        lemma_room_grows(text.drop_last(), n);
    } else {
        assert(text.take(n) =~= text);
    }
}

/// The form in which sponge case writes a character: `letter` says whether it
/// is a letter, `heads` what the coin shows.
pub fn sponge_form(letter: bool, heads: bool) -> (form: LetterForm)
    ensures
        form == sponge_form_spec(letter, heads),
{
    if !letter {
        LetterForm::Copy
    } else if heads {
        LetterForm::Upper
    } else {
        LetterForm::Lower
    }
}

/// The most bytes that sponge case can write for a character: `letter` says
/// whether it is a letter, `own` how many bytes it takes, `upper` and `lower`
/// how many its case forms take.
pub fn form_width(letter: bool, own: usize, upper: usize, lower: usize) -> (width: usize)
    ensures
        width == form_width_spec(letter, own as nat, upper as nat, lower as nat),
{
    if !letter {
        own
    } else if upper >= lower {
        upper
    } else {
        lower
    }
}

/// The odds of the coin that sponge case flips: one chance in two.
pub fn fair_odds() -> (odds: (u32, u32))
    ensures
        odds == fair_odds_spec(),
{
    (1, 2)
}

/// Appends to `out` what sponge case writes for `c` when the coin shows
/// `heads`.
pub fn push_sponge_char(out: &mut String, c: char, heads: bool)
    ensures
        final(out)@ == old(out)@ + sponge_char_spec(c, heads),
{
    push_form(out, c, sponge_form(c.is_alphabetic(), heads));
}

/// Whether `text` in sponge case takes at most `limit` bytes, whatever the
/// coin shows.
pub fn sponge_has_room(text: &str, limit: usize) -> (fits: bool)
    ensures
        fits == (sponge_room(text@) <= limit),
{
    let chars = chars_of(text);
    let n = chars.len();
    let mut room: usize = 0;
    let mut i: usize = 0;
    assert(chars@.take(0) =~= Seq::<char>::empty());
    while i < n
        invariant
            i <= n == chars@.len(),
            chars@ == text@,
            room == sponge_room(chars@.take(i as int)),
            room <= limit,
        decreases n - i,
    {
        let c = chars[i];
        let upper = to_uppercase(c);
        let lower = to_lowercase(c);
        let width = form_width(c.is_alphabetic(), char_bytes(c), bytes_of(&upper), bytes_of(&lower));
        proof {
            assert(chars@.take(i + 1).drop_last() =~= chars@.take(i as int));
            assert(chars@.take(i + 1).last() == c);
            assert(width == widest_form(c));
            lemma_room_grows(chars@, i + 1);
        }
        if width > limit - room {
            return false;
        }
        room = room + width;
        i += 1;
    }
    assert(chars@.take(n as int) =~= chars@);
    true
}

/// Whether every letter of `text` has an uppercase and a lowercase form of
/// exactly one character.
pub fn has_simple_cases_in(text: &str) -> (simple: bool)
    ensures
        simple == has_simple_cases(text@),
{
    let chars = chars_of(text);
    let mut i: usize = 0;
    while i < chars.len()
        invariant
            i <= chars@.len(),
            chars@ == text@,
            forall|k: int|
                0 <= k < i && alphabetic(#[trigger] chars@[k]) ==> uppercase_of(chars@[k]).len()
                    == 1 && lowercase_of(chars@[k]).len() == 1,
        decreases chars@.len() - i,
    {
        let c = chars[i];
        if c.is_alphabetic() && !(to_uppercase(c).len() == 1 && to_lowercase(c).len() == 1) {
            return false;
        }
        i += 1;
    }
    true
}

/// A text has at least as many letters as each of its prefixes.
pub proof fn lemma_letter_count_grows(text: Seq<char>, n: int)
    requires
        0 <= n <= text.len(),
    ensures
        letter_count(text.take(n)) <= letter_count(text),
    decreases text.len(),
{
    if n < text.len() {
        assert(text.drop_last().take(n) =~= text.take(n));
        lemma_letter_count_grows(text.drop_last(), n);
    } else {
        assert(text.take(n) =~= text);
    }
}

/// Puts a text into sponge case for given coin flips, one for each letter in
/// the order of the letters: the result is a function of the text and the
/// flips alone. Gives nothing where the flips are more or fewer than the
/// letters.
pub fn sponge_text_with(text: &str, flips: &Vec<bool>) -> (cased: Option<String>)
    ensures
        cased is Some <==> flips@.len() == letter_count(text@),
        cased is Some ==> cased->Some_0@ == sponge_spec(text@, flips@),
{
    let chars = chars_of(text);
    let n = chars.len();
    let mut out = String::new();
    let mut used: usize = 0;
    let mut i: usize = 0;
    assert(chars@.take(0) =~= Seq::<char>::empty());
    while i < n
        invariant
            i <= n == chars@.len(),
            chars@ == text@,
            used <= flips@.len(),
            used == letter_count(chars@.take(i as int)),
            out@ == sponge_spec(chars@.take(i as int), flips@.take(used as int)),
        decreases n - i,
    {
        let c = chars[i];
        assert(chars@.take(i + 1).drop_last() =~= chars@.take(i as int));
        assert(chars@.take(i + 1).last() == c);
        if c.is_alphabetic() {
            if used >= flips.len() {
                proof {
                    lemma_letter_count_grows(chars@, i + 1);
                }
                return None;
            }
            push_sponge_char(&mut out, c, flips[used]);
            proof {
                assert(flips@.take(used + 1).drop_last() =~= flips@.take(used as int));
                assert(flips@.take(used + 1).last() == flips@[used as int]);
            }
            used += 1;
        } else {
            out.push(c);
        }
        i += 1;
    }
    assert(chars@.take(n as int) =~= chars@);
    if used != flips.len() {
        return None;
    }
    assert(flips@.take(used as int) =~= flips@);
    Some(out)
}

/// Puts a text into sponge case. One fair coin is flipped for each letter, in
/// the order of the letters, and none for any other character, so a generator
/// in a given state always gives the same result.
pub fn sponge_text(text: &str, rng: &mut StdRng) -> (cased: String)
    ensures
        is_sponge_of(text@, cased@),
        has_simple_cases(text@) ==> cased@.len() == text@.len(),
        has_simple_cases(text@) ==> forall|i: int|
            0 <= i < text@.len() && !alphabetic(#[trigger] text@[i]) ==> cased@[i] == text@[i],
{
    let chars = chars_of(text);
    let n = chars.len();
    let mut cased = String::new();
    let mut i: usize = 0;
    let ghost mut flips: Seq<bool> = Seq::empty();
    assert(chars@.take(0) =~= Seq::<char>::empty());
    while i < n
        invariant
            i <= n == chars@.len(),
            flips.len() == letter_count(chars@.take(i as int)),
            cased@ == sponge_spec(chars@.take(i as int), flips),
        decreases n - i,
    {
        let c = chars[i];
        assert(chars@.take(i + 1).drop_last() =~= chars@.take(i as int));
        assert(chars@.take(i + 1).last() == c);
        if c.is_alphabetic() {
            let odds = fair_odds();
            let heads = draw_ratio(rng, odds.0, odds.1);
            push_sponge_char(&mut cased, c, heads);
            proof {
                assert(flips.push(heads).drop_last() =~= flips);
                flips = flips.push(heads);
            }
        } else {
            cased.push(c);
        }
        i += 1;
    }
    proof {
        assert(chars@.take(n as int) =~= chars@);
        if has_simple_cases(text@) {
            lemma_sponge_keeps_shape(text@, flips);
        }
    }
    cased
}

} // verus!

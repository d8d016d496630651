//! Sentence case: one pass over the characters of a text, with a few bits of
//! state, under one of two policies.
//!
//! `Capitalize` raises the first letter of the text and the first letter
//! after each sentence end that whitespace follows, and copies everything
//! else. `Normalize` gives every letter a case, upper at the start of a
//! sentence and lower elsewhere, and puts a space where an uppercase letter
//! directly follows a lowercase one.

use crate::chars::{
    alphabetic, is_sentence_end, is_sentence_end_spec, is_whitespace, lowercase_letter,
    lowercase_of, to_lowercase, to_uppercase,
    uppercase_letter, uppercase_of, whitespace, written_form, LetterForm,
};
use crate::text::{chars_of, is_space, lemma_run_len, push_form, run_len};
use vstd::prelude::*;

verus! {

/// How a text is put into sentence case.
#[derive(Debug, Clone, Copy, PartialEq, Eq, Structural)]
pub enum CasePolicy {
    /// Raise the first letter of each sentence; leave every other character
    /// as it is.
    Capitalize,
    /// Raise the first letter of each sentence, lower every other letter, and
    /// put a space before an uppercase letter that follows a lowercase one.
    Normalize,
}

/// What a pass remembers of the characters it has seen.
#[derive(Debug, Clone, Copy, PartialEq, Eq, Structural)]
pub struct CaseState {
    /// The next letter starts a sentence.
    pub capitalize_next: bool,
    /// The last character was a lowercase letter. Only `Normalize` sets it.
    pub last_was_lowercase: bool,
    /// Under `Normalize`: the last character was sentence-ending punctuation.
    /// Under `Capitalize`: the last character was sentence-ending punctuation,
    /// or whitespace in the run of whitespace behind it.
    pub sentence_ended: bool,
}

/// What the pass asks of a character: its classes.
#[derive(Debug, Clone, Copy, PartialEq, Eq, Structural)]
pub struct CharClass {
    /// It has the property `Alphabetic`.
    pub letter: bool,
    /// It has the property `Uppercase`.
    pub uppercase: bool,
    /// It has the property `Lowercase`.
    pub lowercase: bool,
    /// It is whitespace.
    pub space: bool,
    /// It is sentence-ending punctuation.
    pub sentence_end: bool,
}

/// What the pass writes for a character: a space first or not, and then the
/// character in one form.
#[derive(Debug, Clone, Copy, PartialEq, Eq, Structural)]
pub struct Written {
    /// A space is written before the character.
    pub gap: bool,
    /// The form of the character.
    pub form: LetterForm,
}

/// The classes of `c`.
pub open spec fn class_of(c: char) -> CharClass {
    CharClass {
        letter: alphabetic(c),
        uppercase: uppercase_letter(c),
        lowercase: lowercase_letter(c),
        space: whitespace(c),
        sentence_end: is_sentence_end_spec(c),
    }
}

/// The state before the first character: a sentence starts.
pub open spec fn start_state() -> CaseState {
    CaseState { capitalize_next: true, last_was_lowercase: false, sentence_ended: false }
}

/// Whether `Capitalize` raises a character of class `class` in `state`: it is
/// a letter, a sentence starts, and it is not whitespace in the run behind a
/// sentence end.
pub open spec fn capitalizes(state: CaseState, class: CharClass) -> bool {
    !(state.sentence_ended && class.space) && class.letter && state.capitalize_next
}

/// What is written for a character of class `class` in `state`.
pub open spec fn written_spec(policy: CasePolicy, state: CaseState, class: CharClass) -> Written {
    match policy {
        CasePolicy::Capitalize => Written {
            gap: false,
            form: if capitalizes(state, class) {
                LetterForm::Upper
            } else {
                LetterForm::Copy
            },
        },
        CasePolicy::Normalize => if class.letter {
            Written {
                gap: state.last_was_lowercase && class.uppercase,
                form: if state.capitalize_next {
                    LetterForm::Upper
                } else {
                    LetterForm::Lower
                },
            }
        } else {
            Written { gap: false, form: LetterForm::Copy }
        },
    }
}

/// The state after a character of class `class` was read in `state`.
pub open spec fn step_spec(policy: CasePolicy, state: CaseState, class: CharClass) -> CaseState {
    match policy {
        CasePolicy::Capitalize => if state.sentence_ended && class.space {
            CaseState { capitalize_next: true, last_was_lowercase: false, sentence_ended: true }
        } else if class.letter && state.capitalize_next {
            CaseState { capitalize_next: false, last_was_lowercase: false, sentence_ended: false }
        } else {
            CaseState {
                capitalize_next: state.capitalize_next,
                last_was_lowercase: false,
                sentence_ended: class.sentence_end,
            }
        },
        CasePolicy::Normalize => if class.letter {
            CaseState {
                capitalize_next: false,
                last_was_lowercase: class.lowercase,
                sentence_ended: false,
            }
        } else if class.sentence_end {
            CaseState {
                capitalize_next: state.capitalize_next,
                last_was_lowercase: false,
                sentence_ended: true,
            }
        } else if class.space && state.sentence_ended {
            CaseState { capitalize_next: true, last_was_lowercase: false, sentence_ended: false }
        } else {
            CaseState { capitalize_next: false, last_was_lowercase: false, sentence_ended: false }
        },
    }
}

/// The characters written for `c` in `state`.
pub open spec fn emitted(policy: CasePolicy, state: CaseState, c: char) -> Seq<char> {
    let written = written_spec(policy, state, class_of(c));
    if written.gap {
        seq![' '] + written_form(c, written.form)
    } else {
        written_form(c, written.form)
    }
}

/// The state after `c` was read in `state`.
pub open spec fn next_state(policy: CasePolicy, state: CaseState, c: char) -> CaseState {
    step_spec(policy, state, class_of(c))
}

/// The state after all of `text` was read.
pub open spec fn state_after(policy: CasePolicy, text: Seq<char>) -> CaseState
    decreases text.len(),
{
    if text.len() == 0 {
        start_state()
    } else {
        next_state(policy, state_after(policy, text.drop_last()), text.last())
    }
}

/// `text` in sentence case: what the pass writes, character by character.
pub open spec fn sentence_case_spec(policy: CasePolicy, text: Seq<char>) -> Seq<char>
    decreases text.len(),
{
    if text.len() == 0 {
        Seq::empty()
    } else {
        sentence_case_spec(policy, text.drop_last()) + emitted(
            policy,
            state_after(policy, text.drop_last()),
            text.last(),
        )
    }
}

/// Whether `c`, read in `state`, already is what the pass writes for it: a
/// letter that starts a sentence is its own uppercase form; under `Normalize`
/// every other letter is its own lowercase form, and no uppercase letter
/// directly follows a lowercase one.
pub open spec fn is_cased(policy: CasePolicy, state: CaseState, c: char) -> bool {
    match policy {
        CasePolicy::Capitalize => capitalizes(state, class_of(c)) ==> uppercase_of(c) == seq![c],
        CasePolicy::Normalize => alphabetic(c) ==> {
            &&& !(state.last_was_lowercase && uppercase_letter(c))
            &&& if state.capitalize_next {
                uppercase_of(c) == seq![c]
            } else {
                lowercase_of(c) == seq![c]
            }
        },
    }
}

/// Whether `text` is in sentence case already: every character of it is cased
/// for the state in which the pass reads it.
pub open spec fn is_sentence_cased(policy: CasePolicy, text: Seq<char>) -> bool {
    forall|i: int|
        0 <= i < text.len() ==> is_cased(
            policy,
            state_after(policy, text.take(i)),
            #[trigger] text[i],
        )
}

/// A text that is in sentence case already is a fixed point: the pass gives it
/// back unchanged, and so does a second pass over the result of the first.
pub proof fn lemma_sentence_case_fixed_point(policy: CasePolicy, text: Seq<char>)
    requires
        is_sentence_cased(policy, text),
    ensures
        sentence_case_spec(policy, text) == text,
        sentence_case_spec(policy, sentence_case_spec(policy, text)) == sentence_case_spec(
            policy,
            text,
        ),
    decreases text.len(),
{
    if text.len() > 0 {
        let init = text.drop_last();
        assert forall|i: int| 0 <= i < init.len() implies is_cased(
            policy,
            state_after(policy, init.take(i)),
            #[trigger] init[i],
        ) by {
            assert(init.take(i) =~= text.take(i));
            assert(init[i] == text[i]);
        }
        lemma_sentence_case_fixed_point(policy, init);
        let last = text.len() - 1;
        assert(text.take(last) =~= init);
        assert(is_cased(policy, state_after(policy, text.take(last)), text[last]));
        assert(emitted(policy, state_after(policy, init), text.last()) =~= seq![text.last()]);
        assert(init + seq![text.last()] =~= text);
    } else {
        assert(sentence_case_spec(policy, text) =~= text);
    }
}

/// `text` under `Capitalize`, read sentence by sentence, where
/// `capitalize_next` says whether a sentence starts. A letter that starts a
/// sentence is raised. Any other character is copied; where it is
/// sentence-ending punctuation and whitespace follows it, the whole run of
/// whitespace is copied too, and a sentence starts behind the run.
pub open spec fn capitalized_from(text: Seq<char>, capitalize_next: bool) -> Seq<char>
    decreases text.len(),
{
    if text.len() == 0 {
        Seq::empty()
    } else {
        let c = text[0];
        let rest = text.drop_first();
        if alphabetic(c) && capitalize_next {
            uppercase_of(c) + capitalized_from(rest, false)
        } else if is_sentence_end_spec(c) && rest.len() > 0 && whitespace(rest[0]) {
            let run = run_len(rest, is_space()) as int;
            proof {
                lemma_run_len(rest, is_space());
            }
            seq![c] + rest.take(run) + capitalized_from(rest.skip(run), true)
        } else {
            seq![c] + capitalized_from(rest, capitalize_next)
        }
    }
}

/// Reading one more character appends what is written for it.
proof fn lemma_read_one(policy: CasePolicy, read: Seq<char>, c: char)
    ensures
        state_after(policy, read.push(c)) == next_state(policy, state_after(policy, read), c),
        sentence_case_spec(policy, read.push(c)) == sentence_case_spec(policy, read) + emitted(
            policy,
            state_after(policy, read),
            c,
        ),
{
    assert(read.push(c).drop_last() =~= read);
}

/// Under `Capitalize`, whitespace that is read behind a sentence end is
/// copied, and a sentence starts behind it.
proof fn lemma_read_run(read: Seq<char>, run: Seq<char>)
    requires
        state_after(CasePolicy::Capitalize, read).sentence_ended,
        forall|k: int| 0 <= k < run.len() ==> whitespace(#[trigger] run[k]),
    ensures
        sentence_case_spec(CasePolicy::Capitalize, read + run) == sentence_case_spec(
            CasePolicy::Capitalize,
            read,
        ) + run,
        state_after(CasePolicy::Capitalize, read + run).sentence_ended,
        run.len() > 0 ==> state_after(CasePolicy::Capitalize, read + run).capitalize_next,
    decreases run.len(),
{
    if run.len() == 0 {
        assert(read + run =~= read);
        assert(sentence_case_spec(CasePolicy::Capitalize, read) + run =~= sentence_case_spec(
            CasePolicy::Capitalize,
            read,
        ));
    } else {
        let init = run.drop_last();
        lemma_read_run(read, init);
        lemma_read_one(CasePolicy::Capitalize, read + init, run.last());
        assert((read + init).push(run.last()) =~= read + run);
        assert(sentence_case_spec(CasePolicy::Capitalize, read) + init + seq![run.last()]
            =~= sentence_case_spec(CasePolicy::Capitalize, read) + run);
    }
}

/// Under `Capitalize`, what is written for the rest of a text depends on what
/// was read only through the flag, as long as no run of whitespace behind a
/// sentence end is cut in two.
proof fn lemma_capitalize_rest(read: Seq<char>, rest: Seq<char>)
    requires
        state_after(CasePolicy::Capitalize, read).sentence_ended ==> rest.len() == 0 || !whitespace(
            rest[0],
        ),
    ensures
        sentence_case_spec(CasePolicy::Capitalize, read + rest) == sentence_case_spec(
            CasePolicy::Capitalize,
            read,
        ) + capitalized_from(rest, state_after(CasePolicy::Capitalize, read).capitalize_next),
    decreases rest.len(),
{
    let policy = CasePolicy::Capitalize;
    let state = state_after(policy, read);
    let written = sentence_case_spec(policy, read);
    if rest.len() == 0 {
        assert(read + rest =~= read);
        assert(written + capitalized_from(rest, state.capitalize_next) =~= written);
    } else {
        let c = rest[0];
        let tail = rest.drop_first();
        let read_c = read.push(c);
        lemma_read_one(policy, read, c);
        assert(read_c + tail =~= read + rest);
        if alphabetic(c) && state.capitalize_next {
            lemma_capitalize_rest(read_c, tail);
            assert(written + uppercase_of(c) + capitalized_from(tail, false) =~= written + (
            uppercase_of(c) + capitalized_from(tail, false)));
        } else if is_sentence_end_spec(c) && tail.len() > 0 && whitespace(tail[0]) {
            let run = run_len(tail, is_space()) as int;
            lemma_run_len(tail, is_space());
            let spaces = tail.take(run);
            let behind = tail.skip(run);
            assert forall|k: int| 0 <= k < spaces.len() implies whitespace(
                #[trigger] spaces[k],
            ) by {
                assert(spaces[k] == tail[k]);
                assert(is_space()(tail[k]));
            }
            lemma_read_run(read_c, spaces);
            if behind.len() > 0 {
                assert(behind[0] == tail[run]);
                assert(!is_space()(tail[run]));
            }
            lemma_capitalize_rest(read_c + spaces, behind);
            assert(read_c + spaces + behind =~= read + rest);
            assert(written + seq![c] + spaces + capitalized_from(behind, true) =~= written + (
            seq![c] + spaces + capitalized_from(behind, true)));
        } else {
            lemma_capitalize_rest(read_c, tail);
            assert(written + seq![c] + capitalized_from(tail, state.capitalize_next) =~= written
                + (seq![c] + capitalized_from(tail, state.capitalize_next)));
        }
    }
}

/// Under `Capitalize` the pass writes what the reading sentence by sentence
/// gives: the first letter of the text is raised, and so is the first letter
/// behind each sentence end that whitespace follows; every other character,
/// the runs of whitespace included, is copied.
pub proof fn lemma_capitalize_by_sentences(text: Seq<char>)
    ensures
        sentence_case_spec(CasePolicy::Capitalize, text) == capitalized_from(text, true),
{
    let read = Seq::<char>::empty();
    lemma_capitalize_rest(read, text);
    assert(read + text =~= text);
    assert(sentence_case_spec(CasePolicy::Capitalize, read) + capitalized_from(text, true)
        =~= capitalized_from(text, true));
}

/// Whether the case forms of the letter `c` are settled: each is one letter,
/// the uppercase form is its own uppercase form and no whitespace, and the
/// lowercase form is its own lowercase form and not an uppercase letter.
pub open spec fn has_settled_forms(c: char) -> bool {
    let upper = uppercase_of(c);
    let lower = lowercase_of(c);
    &&& upper.len() == 1
    &&& lower.len() == 1
    &&& alphabetic(upper[0])
    &&& alphabetic(lower[0])
    &&& uppercase_of(upper[0]) == upper
    &&& lowercase_of(lower[0]) == lower
    &&& !whitespace(upper[0])
    &&& !uppercase_letter(lower[0])
}

/// Whether the space is no letter and every letter of `text` has settled case
/// forms.
pub open spec fn has_settled_cases(text: Seq<char>) -> bool {
    &&& !alphabetic(' ')
    &&& forall|i: int|
        0 <= i < text.len() && alphabetic(#[trigger] text[i]) ==> has_settled_forms(text[i])
}

/// What a second pass has to remember like the first: under `Capitalize` the
/// whole state, under `Normalize` all but whether the last character was a
/// lowercase letter.
pub open spec fn in_step(policy: CasePolicy, first: CaseState, second: CaseState) -> bool {
    match policy {
        CasePolicy::Capitalize => second == first,
        CasePolicy::Normalize => {
            &&& second.capitalize_next == first.capitalize_next
            &&& second.sentence_ended == first.sentence_ended
        },
    }
}

/// Under `Normalize` a sentence never starts behind a lowercase letter, and
/// never ends with one.
proof fn lemma_normalize_state(text: Seq<char>)
    ensures
        state_after(CasePolicy::Normalize, text).last_was_lowercase ==> !state_after(
            CasePolicy::Normalize,
            text,
        ).capitalize_next && !state_after(CasePolicy::Normalize, text).sentence_ended,
{
}

/// A second pass over the result of a first writes the same again and stays in
/// step with the first, where the case forms of the letters are settled.
proof fn lemma_second_pass(policy: CasePolicy, text: Seq<char>)
    requires
        has_settled_cases(text),
    ensures
        sentence_case_spec(policy, sentence_case_spec(policy, text)) == sentence_case_spec(
            policy,
            text,
        ),
        in_step(
            policy,
            state_after(policy, text),
            state_after(policy, sentence_case_spec(policy, text)),
        ),
    decreases text.len(),
{
    if text.len() > 0 {
        let init = text.drop_last();
        let c = text.last();
        assert forall|i: int| 0 <= i < init.len() && alphabetic(#[trigger] init[i]) implies
            has_settled_forms(init[i]) by {
            assert(init[i] == text[i]);
        }
        lemma_second_pass(policy, init);
        let once = sentence_case_spec(policy, init);
        let first = state_after(policy, init);
        let second = state_after(policy, once);
        let written = written_spec(policy, first, class_of(c));
        assert(alphabetic(text[text.len() - 1]) ==> has_settled_forms(c));
        lemma_normalize_state(init);
        lemma_normalize_state(once);
        let form = written_form(c, written.form);
        assert(form.len() == 1);
        let m = form[0];
        assert(form =~= seq![m]);
        if written.gap {
            let spaced = once.push(' ');
            lemma_read_one(policy, once, ' ');
            lemma_read_one(policy, spaced, m);
            assert(sentence_case_spec(policy, text) =~= spaced.push(m));
            assert(once + seq![' '] + seq![m] =~= spaced.push(m));
        } else {
            lemma_read_one(policy, once, m);
            assert(sentence_case_spec(policy, text) =~= once.push(m));
            assert(once + seq![m] =~= once.push(m));
        }
    }
}

/// Sentence case is idempotent on every text whose letters have settled case
/// forms: a second pass over the result of the first changes nothing.
pub proof fn lemma_sentence_case_idempotent(policy: CasePolicy, text: Seq<char>)
    requires
        has_settled_cases(text),
    ensures
        sentence_case_spec(policy, sentence_case_spec(policy, text)) == sentence_case_spec(
            policy,
            text,
        ),
{
    lemma_second_pass(policy, text);
}

/// The state before the first character.
pub fn start() -> (state: CaseState)
    ensures
        state == start_state(),
{
    CaseState { capitalize_next: true, last_was_lowercase: false, sentence_ended: false }
}

/// The classes of a character.
pub fn classify(c: char) -> (class: CharClass)
    ensures
        class == class_of(c),
{
    CharClass {
        letter: c.is_alphabetic(),
        uppercase: c.is_uppercase(),
        lowercase: c.is_lowercase(),
        space: is_whitespace(c),
        sentence_end: is_sentence_end(c),
    }
}

/// What the pass writes for a character of class `class` that it reads in
/// `state`.
pub fn case_written(policy: CasePolicy, state: CaseState, class: CharClass) -> (written: Written)
    ensures
        written == written_spec(policy, state, class),
{
    match policy {
        CasePolicy::Capitalize => {
            let raise = !(state.sentence_ended && class.space) && class.letter
                && state.capitalize_next;
            Written {
                gap: false,
                form: if raise {
                    LetterForm::Upper
                } else {
                    LetterForm::Copy
                },
            }
        },
        CasePolicy::Normalize => {
            if class.letter {
                Written {
                    gap: state.last_was_lowercase && class.uppercase,
                    form: if state.capitalize_next {
                        LetterForm::Upper
                    } else {
                        LetterForm::Lower
                    },
                }
            } else {
                Written { gap: false, form: LetterForm::Copy }
            }
        },
    }
}

/// The state of the pass after it has read a character of class `class` in
/// `state`.
pub fn next_case_state(policy: CasePolicy, state: CaseState, class: CharClass) -> (next: CaseState)
    ensures
        next == step_spec(policy, state, class),
{
    match policy {
        CasePolicy::Capitalize => {
            if state.sentence_ended && class.space {
                CaseState { capitalize_next: true, last_was_lowercase: false, sentence_ended: true }
            } else if class.letter && state.capitalize_next {
                CaseState {
                    capitalize_next: false,
                    last_was_lowercase: false,
                    sentence_ended: false,
                }
            } else {
                CaseState {
                    capitalize_next: state.capitalize_next,
                    last_was_lowercase: false,
                    sentence_ended: class.sentence_end,
                }
            }
        },
        CasePolicy::Normalize => {
            if class.letter {
                CaseState {
                    capitalize_next: false,
                    last_was_lowercase: class.lowercase,
                    sentence_ended: false,
                }
            } else if class.sentence_end {
                CaseState {
                    capitalize_next: state.capitalize_next,
                    last_was_lowercase: false,
                    sentence_ended: true,
                }
            } else if class.space && state.sentence_ended {
                CaseState {
                    capitalize_next: true,
                    last_was_lowercase: false,
                    sentence_ended: false,
                }
            } else {
                CaseState {
                    capitalize_next: false,
                    last_was_lowercase: false,
                    sentence_ended: false,
                }
            }
        },
    }
}

/// Reads one character: appends to `out` what the pass writes for `c` in
/// `state`, and returns the state for the next character.
pub fn push_cased(out: &mut String, policy: CasePolicy, state: CaseState, c: char) -> (next:
    CaseState)
    ensures
        final(out)@ == old(out)@ + emitted(policy, state, c),
        next == next_state(policy, state, c),
{
    let class = classify(c);
    let written = case_written(policy, state, class);
    if written.gap {
        out.push(' ');
    }
    push_form(out, c, written.form);
    proof {
        if written.gap {
            assert(out@ =~= old(out)@ + (seq![' '] + written_form(c, written.form)));
        }
    }
    next_case_state(policy, state, class)
}

/// Whether `form` is the one character `c`.
pub fn is_only(form: &Vec<char>, c: char) -> (only: bool)
    ensures
        only == (form@ == seq![c]),
{
    if form.len() == 1 && form[0] == c {
        assert(form@ =~= seq![c]);
        true
    } else {
        false
    }
}

/// Whether a text is in sentence case already under `policy`.
pub fn is_sentence_cased_in(text: &str, policy: CasePolicy) -> (cased: bool)
    ensures
        cased == is_sentence_cased(policy, text@),
{
    let chars = chars_of(text);
    let n = chars.len();
    let mut state = start();
    let mut i: usize = 0;
    assert(chars@.take(0) =~= Seq::<char>::empty());
    while i < n
        invariant
            i <= n == chars@.len(),
            chars@ == text@,
            state == state_after(policy, chars@.take(i as int)),
            forall|k: int|
                0 <= k < i ==> is_cased(
                    policy,
                    state_after(policy, chars@.take(k)),
                    #[trigger] chars@[k],
                ),
        decreases n - i,
    {
        let c = chars[i];
        let class = classify(c);
        let written = case_written(policy, state, class);
        let kept = match written.form {
            LetterForm::Copy => true,
            LetterForm::Upper => is_only(&to_uppercase(c), c),
            LetterForm::Lower => is_only(&to_lowercase(c), c),
        };
        if written.gap || !kept {
            assert(!is_cased(policy, state_after(policy, text@.take(i as int)), text@[i as int]));
            return false;
        }
        assert(is_cased(policy, state, c));
        assert(chars@.take(i + 1).drop_last() =~= chars@.take(i as int));
        assert(chars@.take(i + 1).last() == c);
        state = next_case_state(policy, state, class);
        i += 1;
    }
    true
}

/// Whether the case forms of the letter `c` are settled.
pub fn has_settled_forms_of(c: char) -> (settled: bool)
    ensures
        settled == has_settled_forms(c),
{
    let upper = to_uppercase(c);
    let lower = to_lowercase(c);
    if upper.len() != 1 || lower.len() != 1 {
        return false;
    }
    let u = upper[0];
    let l = lower[0];
    assert(upper@ =~= seq![u]);
    assert(lower@ =~= seq![l]);
    u.is_alphabetic() && l.is_alphabetic() && is_only(&to_uppercase(u), u) && is_only(
        &to_lowercase(l),
        l,
    ) && !is_whitespace(u) && !l.is_uppercase()
}

/// Whether the space is no letter and every letter of `text` has settled case
/// forms.
pub fn has_settled_cases_in(text: &str) -> (settled: bool)
    ensures
        settled == has_settled_cases(text@),
{
    if ' '.is_alphabetic() {
        return false;
    }
    let chars = chars_of(text);
    let mut i: usize = 0;
    while i < chars.len()
        invariant
            i <= chars@.len(),
            chars@ == text@,
            !alphabetic(' '),
            forall|k: int|
                0 <= k < i && alphabetic(#[trigger] chars@[k]) ==> has_settled_forms(chars@[k]),
        decreases chars@.len() - i,
    {
        let c = chars[i];
        if c.is_alphabetic() && !has_settled_forms_of(c) {
            return false;
        }
        i += 1;
    }
    true
}

/// Puts a text into sentence case under `policy`.
pub fn sentence_case(text: &str, policy: CasePolicy) -> (cased: String)
    ensures
        cased@ == sentence_case_spec(policy, text@),
{
    let chars = chars_of(text);
    let n = chars.len();
    let mut cased = String::new();
    let mut state = start();
    let mut i: usize = 0;
    assert(chars@.take(0) =~= Seq::<char>::empty());
    while i < n
        invariant
            i <= n == chars@.len(),
            cased@ == sentence_case_spec(policy, chars@.take(i as int)),
            state == state_after(policy, chars@.take(i as int)),
        decreases n - i,
    {
        assert(chars@.take(i + 1).drop_last() =~= chars@.take(i as int));
        assert(chars@.take(i + 1).last() == chars@[i as int]);
        state = push_cased(&mut cased, policy, state, chars[i]);
        i += 1;
    }
    assert(chars@.take(n as int) =~= chars@);
    cased
}

} // verus!

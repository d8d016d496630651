use eruo_strutil::chars::LetterForm;
use eruo_strutil::sentence_case::case_written;
use eruo_strutil::sentence_case::classify;
use eruo_strutil::sentence_case::has_settled_cases_in;
use eruo_strutil::sentence_case::has_settled_forms_of;
use eruo_strutil::sentence_case::is_only;
use eruo_strutil::sentence_case::is_sentence_cased_in;
use eruo_strutil::sentence_case::next_case_state;
use eruo_strutil::sentence_case::push_cased;
use eruo_strutil::sentence_case::CharClass;
use eruo_strutil::sentence_case::Written;
use eruo_strutil::sentence_case::sentence_case;
use eruo_strutil::sentence_case::start;
use eruo_strutil::sentence_case::CasePolicy;
use eruo_strutil::sentence_case::CaseState;

#[test]
fn capitalize_raises_after_end_and_space() {
    assert_eq!(
        sentence_case("hello world. the end", CasePolicy::Capitalize),
        "Hello world. The end"
    );
}

#[test]
fn capitalize_leaves_other_letters_as_they_are() {
    assert_eq!(
        sentence_case("hELLO wORLD! tHE END", CasePolicy::Capitalize),
        "HELLO wORLD! THE END"
    );
    assert_eq!(sentence_case("helloWorld", CasePolicy::Capitalize), "HelloWorld");
}

#[test]
fn capitalize_needs_whitespace_behind_the_end() {
    assert_eq!(sentence_case("one.two", CasePolicy::Capitalize), "One.two");
    assert_eq!(sentence_case("one.\"two", CasePolicy::Capitalize), "One.\"two");
}

#[test]
fn capitalize_copies_the_whole_run_of_whitespace() {
    assert_eq!(sentence_case("hi.  \t\n there", CasePolicy::Capitalize), "Hi.  \t\n There");
    assert_eq!(sentence_case("hi?\u{a0}you", CasePolicy::Capitalize), "Hi?\u{a0}You");
}

#[test]
fn capitalize_waits_for_the_next_letter() {
    assert_eq!(sentence_case("3 apples. \"yes\"", CasePolicy::Capitalize), "3 Apples. \"Yes\"");
    assert_eq!(sentence_case("  (a) b", CasePolicy::Capitalize), "  (A) b");
    assert_eq!(sentence_case("a.  .  b", CasePolicy::Capitalize), "A.  .  B");
}

#[test]
fn capitalize_keeps_the_flag_over_an_end_without_whitespace() {
    assert_eq!(sentence_case("a. .b", CasePolicy::Capitalize), "A. .B");
}

#[test]
fn normalize_lowers_everything_but_sentence_starts() {
    assert_eq!(
        sentence_case("HELLO world.the END", CasePolicy::Normalize),
        "Hello world.the end"
    );
    assert_eq!(
        sentence_case("HELLO world. the END", CasePolicy::Normalize),
        "Hello world. The end"
    );
}

#[test]
fn normalize_puts_a_space_at_a_camel_boundary() {
    assert_eq!(sentence_case("helloWorld", CasePolicy::Normalize), "Hello world");
    assert_eq!(sentence_case("aBcD", CasePolicy::Normalize), "A bc d");
    assert_eq!(sentence_case("ABc", CasePolicy::Normalize), "Abc");
}

#[test]
fn normalize_raises_only_after_end_and_one_whitespace() {
    assert_eq!(sentence_case("hi! you", CasePolicy::Normalize), "Hi! You");
    assert_eq!(sentence_case("hi!  you", CasePolicy::Normalize), "Hi!  you");
    assert_eq!(sentence_case("hi!you", CasePolicy::Normalize), "Hi!you");
    assert_eq!(sentence_case("hi?! you", CasePolicy::Normalize), "Hi?! You");
}

#[test]
fn normalize_drops_the_start_at_other_characters() {
    assert_eq!(sentence_case("-hello", CasePolicy::Normalize), "-hello");
    assert_eq!(sentence_case(" hello", CasePolicy::Normalize), " hello");
    assert_eq!(sentence_case(".hello", CasePolicy::Normalize), ".Hello");
    assert_eq!(sentence_case("a. -b", CasePolicy::Normalize), "A. -b");
}

#[test]
fn empty_and_single_character_texts() {
    for policy in [CasePolicy::Capitalize, CasePolicy::Normalize] {
        assert_eq!(sentence_case("", policy), "");
        assert_eq!(sentence_case("a", policy), "A");
        assert_eq!(sentence_case("A", policy), "A");
        assert_eq!(sentence_case(".", policy), ".");
        assert_eq!(sentence_case(" ", policy), " ");
    }
}

#[test]
fn case_mappings_of_more_than_one_character() {
    assert_eq!(sentence_case("ßa", CasePolicy::Capitalize), "SSa");
    assert_eq!(sentence_case("ßA", CasePolicy::Normalize), "SS a");
    assert_eq!(sentence_case("aİ", CasePolicy::Normalize), "A i\u{307}");
}

#[test]
fn letters_outside_ascii_are_cased() {
    assert_eq!(sentence_case("élan. ça va", CasePolicy::Capitalize), "Élan. Ça va");
    assert_eq!(sentence_case("ÉLAN. ÇA VA", CasePolicy::Normalize), "Élan. Ça va");
}

#[test]
fn cased_text_is_a_fixed_point() {
    for text in ["Hello world. The end", "One. Two! Three? Four", "A", "", "Hi.there", "X - y"] {
        for policy in [CasePolicy::Capitalize, CasePolicy::Normalize] {
            assert_eq!(sentence_case(text, policy), text, "{text:?}");
        }
    }
}

#[test]
fn second_pass_changes_nothing() {
    for text in ["hello world. the end", "HELLO world.the END", "helloWorld", "a.  b", "x!y? z"] {
        for policy in [CasePolicy::Capitalize, CasePolicy::Normalize] {
            let once = sentence_case(text, policy);
            assert_eq!(sentence_case(&once, policy), once, "{text:?}");
        }
    }
}

#[test]
fn start_state_awaits_a_capital() {
    let expected =
        CaseState { capitalize_next: true, last_was_lowercase: false, sentence_ended: false };
    assert_eq!(start(), expected);
}

#[test]
fn push_cased_steps_the_normalize_machine() {
    let mut out = String::new();
    let state = push_cased(&mut out, CasePolicy::Normalize, start(), 'h');
    assert_eq!(out, "H");
    assert_eq!(
        state,
        CaseState { capitalize_next: false, last_was_lowercase: true, sentence_ended: false }
    );
    let state = push_cased(&mut out, CasePolicy::Normalize, state, 'I');
    assert_eq!(out, "H i");
    assert_eq!(
        state,
        CaseState { capitalize_next: false, last_was_lowercase: false, sentence_ended: false }
    );
    let state = push_cased(&mut out, CasePolicy::Normalize, state, '.');
    assert_eq!(
        state,
        CaseState { capitalize_next: false, last_was_lowercase: false, sentence_ended: true }
    );
    let state = push_cased(&mut out, CasePolicy::Normalize, state, ' ');
    assert_eq!(
        state,
        CaseState { capitalize_next: true, last_was_lowercase: false, sentence_ended: false }
    );
    assert_eq!(out, "H i. ");
}

#[test]
fn push_cased_steps_the_capitalize_machine() {
    let mut out = String::new();
    let state = push_cased(&mut out, CasePolicy::Capitalize, start(), 'h');
    assert_eq!(
        state,
        CaseState { capitalize_next: false, last_was_lowercase: false, sentence_ended: false }
    );
    let state = push_cased(&mut out, CasePolicy::Capitalize, state, '!');
    assert_eq!(
        state,
        CaseState { capitalize_next: false, last_was_lowercase: false, sentence_ended: true }
    );
    let state = push_cased(&mut out, CasePolicy::Capitalize, state, ' ');
    assert_eq!(
        state,
        CaseState { capitalize_next: true, last_was_lowercase: false, sentence_ended: true }
    );
    let state = push_cased(&mut out, CasePolicy::Capitalize, state, 'x');
    assert_eq!(
        state,
        CaseState { capitalize_next: false, last_was_lowercase: false, sentence_ended: false }
    );
    assert_eq!(out, "H! X");
}

fn state(capitalize_next: bool, last_was_lowercase: bool, sentence_ended: bool) -> CaseState {
    CaseState { capitalize_next, last_was_lowercase, sentence_ended }
}

fn lower_letter() -> CharClass {
    CharClass { letter: true, uppercase: false, lowercase: true, space: false, sentence_end: false }
}

fn upper_letter() -> CharClass {
    CharClass { letter: true, uppercase: true, lowercase: false, space: false, sentence_end: false }
}

fn space() -> CharClass {
    CharClass { letter: false, uppercase: false, lowercase: false, space: true, sentence_end: false }
}

fn full_stop() -> CharClass {
    CharClass { letter: false, uppercase: false, lowercase: false, space: false, sentence_end: true }
}

fn other() -> CharClass {
    CharClass {
        letter: false,
        uppercase: false,
        lowercase: false,
        space: false,
        sentence_end: false,
    }
}

#[test]
fn classify_reads_the_classes() {
    assert_eq!(classify('a'), lower_letter());
    assert_eq!(classify('A'), upper_letter());
    assert_eq!(classify(' '), space());
    assert_eq!(classify('\u{2003}'), space());
    assert_eq!(classify('.'), full_stop());
    assert_eq!(classify('?'), full_stop());
    assert_eq!(classify('-'), other());
    assert_eq!(classify('7'), other());
}

#[test]
fn capitalize_writes_upper_only_where_a_sentence_starts() {
    let policy = CasePolicy::Capitalize;
    let upper = Written { gap: false, form: LetterForm::Upper };
    let copy = Written { gap: false, form: LetterForm::Copy };
    assert_eq!(case_written(policy, state(true, false, false), lower_letter()), upper);
    assert_eq!(case_written(policy, state(true, false, true), lower_letter()), upper);
    assert_eq!(case_written(policy, state(false, false, false), lower_letter()), copy);
    assert_eq!(case_written(policy, state(false, true, false), upper_letter()), copy);
    assert_eq!(case_written(policy, state(true, false, false), space()), copy);
    assert_eq!(case_written(policy, state(true, false, false), full_stop()), copy);
    let odd = CharClass { letter: true, uppercase: false, lowercase: false, space: true, sentence_end: false };
    assert_eq!(case_written(policy, state(true, false, true), odd), copy);
    assert_eq!(case_written(policy, state(true, false, false), odd), upper);
}

#[test]
fn normalize_writes_a_case_for_every_letter() {
    let policy = CasePolicy::Normalize;
    assert_eq!(
        case_written(policy, state(true, false, false), lower_letter()),
        Written { gap: false, form: LetterForm::Upper }
    );
    assert_eq!(
        case_written(policy, state(false, false, false), upper_letter()),
        Written { gap: false, form: LetterForm::Lower }
    );
    assert_eq!(
        case_written(policy, state(false, true, false), upper_letter()),
        Written { gap: true, form: LetterForm::Lower }
    );
    assert_eq!(
        case_written(policy, state(true, true, false), upper_letter()),
        Written { gap: true, form: LetterForm::Upper }
    );
    assert_eq!(
        case_written(policy, state(false, true, false), lower_letter()),
        Written { gap: false, form: LetterForm::Lower }
    );
    assert_eq!(
        case_written(policy, state(true, true, true), other()),
        Written { gap: false, form: LetterForm::Copy }
    );
}

#[test]
fn capitalize_state_steps() {
    let policy = CasePolicy::Capitalize;
    assert_eq!(next_case_state(policy, state(true, false, false), lower_letter()), state(false, false, false));
    assert_eq!(next_case_state(policy, state(false, false, false), lower_letter()), state(false, false, false));
    assert_eq!(next_case_state(policy, state(false, false, false), full_stop()), state(false, false, true));
    assert_eq!(next_case_state(policy, state(true, false, false), full_stop()), state(true, false, true));
    assert_eq!(next_case_state(policy, state(false, false, true), space()), state(true, false, true));
    assert_eq!(next_case_state(policy, state(true, false, true), space()), state(true, false, true));
    assert_eq!(next_case_state(policy, state(false, false, false), space()), state(false, false, false));
    assert_eq!(next_case_state(policy, state(false, false, true), other()), state(false, false, false));
    assert_eq!(next_case_state(policy, state(true, false, true), other()), state(true, false, false));
    assert_eq!(next_case_state(policy, state(true, false, true), upper_letter()), state(false, false, false));
}

#[test]
fn normalize_state_steps() {
    let policy = CasePolicy::Normalize;
    assert_eq!(next_case_state(policy, state(true, false, false), lower_letter()), state(false, true, false));
    assert_eq!(next_case_state(policy, state(true, false, true), upper_letter()), state(false, false, false));
    assert_eq!(next_case_state(policy, state(true, true, false), full_stop()), state(true, false, true));
    assert_eq!(next_case_state(policy, state(false, true, false), full_stop()), state(false, false, true));
    assert_eq!(next_case_state(policy, state(false, false, true), space()), state(true, false, false));
    assert_eq!(next_case_state(policy, state(true, false, false), space()), state(false, false, false));
    assert_eq!(next_case_state(policy, state(true, false, true), other()), state(false, false, false));
    assert_eq!(next_case_state(policy, state(true, true, false), other()), state(false, false, false));
}

#[test]
fn is_only_asks_for_exactly_one_character() {
    assert!(is_only(&vec!['a'], 'a'));
    assert!(!is_only(&vec!['a'], 'b'));
    assert!(!is_only(&vec!['a', 'a'], 'a'));
    assert!(!is_only(&Vec::new(), 'a'));
}

#[test]
fn cased_texts_are_told_from_others() {
    for text in ["Hello world. The end", "One. Two! Three? Four", "A", "", "Hi.there", "X - y"] {
        for policy in [CasePolicy::Capitalize, CasePolicy::Normalize] {
            assert!(is_sentence_cased_in(text, policy), "{text:?}");
        }
    }
    assert!(!is_sentence_cased_in("hello", CasePolicy::Capitalize));
    assert!(!is_sentence_cased_in("Hi. there", CasePolicy::Capitalize));
    assert!(is_sentence_cased_in("Hi. There ABC", CasePolicy::Capitalize));
    assert!(!is_sentence_cased_in("Hi. There ABC", CasePolicy::Normalize));
    assert!(!is_sentence_cased_in("HelloWorld", CasePolicy::Normalize));
    assert!(is_sentence_cased_in("HelloWorld", CasePolicy::Capitalize));
    assert!(!is_sentence_cased_in("Hi.  There", CasePolicy::Normalize));
}

#[test]
fn a_text_is_cased_exactly_where_a_pass_keeps_it() {
    let texts = ["Hello world. The end", "hello", "Hi.  There", "aB", "A. b", "ß", "SS", "Hi!you"];
    for text in texts {
        for policy in [CasePolicy::Capitalize, CasePolicy::Normalize] {
            let kept = sentence_case(text, policy) == text;
            assert_eq!(is_sentence_cased_in(text, policy), kept, "{text:?}");
        }
    }
}

#[test]
fn plain_letters_have_settled_forms() {
    for c in ['a', 'z', 'A', 'Z', 'é', 'Ç', 'я'] {
        assert!(has_settled_forms_of(c), "{c}");
    }
    for c in ['ß', 'İ', 'ﬃ', 'ŉ'] {
        assert!(!has_settled_forms_of(c), "{c}");
    }
}

#[test]
fn settled_texts_are_idempotent() {
    for text in ["hello world. the end", "HELLO world.the END", "helloWorld", "élan. çA vA"] {
        assert!(has_settled_cases_in(text), "{text:?}");
        for policy in [CasePolicy::Capitalize, CasePolicy::Normalize] {
            let once = sentence_case(text, policy);
            assert_eq!(sentence_case(&once, policy), once, "{text:?}");
        }
    }
    assert!(!has_settled_cases_in("straße"));
    assert!(has_settled_cases_in(""));
    assert!(has_settled_cases_in("12 34!"));
}

use eruo_strutil::pig_latin::pig_latin_text;
use eruo_strutil::pig_latin::pig_latin_word;
use eruo_strutil::pig_latin::push_pig_latin_word;
use eruo_strutil::text::chars_of;

#[test]
fn empty_word_stays_empty() {
    assert_eq!(pig_latin_word(""), "");
}

#[test]
fn vowel_word_gets_way() {
    assert_eq!(pig_latin_word("eat"), "eatway");
    assert_eq!(pig_latin_word("Apple"), "Appleway");
    assert_eq!(pig_latin_word("a"), "away");
    assert_eq!(pig_latin_word("I"), "Iway");
}

#[test]
fn consonant_cluster_moves_behind() {
    assert_eq!(pig_latin_word("pig"), "igpay");
    assert_eq!(pig_latin_word("string"), "ingstray");
    assert_eq!(pig_latin_word("b"), "bay");
}

#[test]
fn capital_moves_to_the_new_first_character_only() {
    assert_eq!(pig_latin_word("Pig"), "IgPay");
    assert_eq!(pig_latin_word("STring"), "IngSTray");
    assert_eq!(pig_latin_word("Xyz"), "Xyzay");
    assert_eq!(pig_latin_word("pIg"), "Igpay");
}

#[test]
fn trailing_punctuation_is_put_back() {
    assert_eq!(pig_latin_word("latin!"), "atinlay!");
    assert_eq!(pig_latin_word("end."), "endway.");
    assert_eq!(pig_latin_word("what?!"), "at?whay!");
}

#[test]
fn word_without_vowel_is_one_cluster() {
    assert_eq!(pig_latin_word("xyz"), "xyzay");
    assert_eq!(pig_latin_word("123"), "123ay");
    assert_eq!(pig_latin_word("rhythm,"), "rhythmay,");
}

#[test]
fn lone_punctuation_is_unchanged() {
    assert_eq!(pig_latin_word("!"), "!");
    assert_eq!(pig_latin_word("-"), "-");
}

#[test]
fn punctuation_before_the_last_character_is_part_of_the_stem() {
    assert_eq!(pig_latin_word("!!"), "!ay!");
    assert_eq!(pig_latin_word("..."), "..ay.");
}

#[test]
fn letters_outside_ascii_count_as_consonants() {
    assert_eq!(pig_latin_word("été"), "étéay");
    assert_eq!(pig_latin_word("éa"), "aéay");
    assert_eq!(pig_latin_word("über"), "erübay");
    assert_eq!(pig_latin_word("Éa"), "aÉay");
}

#[test]
fn push_pig_latin_word_appends_to_what_is_there() {
    let chars = chars_of("say pig now");
    let mut out = String::from(">");
    push_pig_latin_word(&mut out, &chars, 4, 7);
    assert_eq!(out, ">igpay");
    push_pig_latin_word(&mut out, &chars, 3, 3);
    assert_eq!(out, ">igpay");
}

#[test]
fn text_is_translated_word_by_word() {
    assert_eq!(pig_latin_text("hello world"), "ellohay orldway");
    assert_eq!(pig_latin_text("Pig latin!"), "IgPay atinlay!");
}

#[test]
fn text_whitespace_becomes_single_spaces() {
    assert_eq!(pig_latin_text("  hello \t\n world!  "), "ellohay orldway!");
    assert_eq!(pig_latin_text("eat\u{a0}pig"), "eatway igpay");
}

#[test]
fn text_without_words_is_empty() {
    assert_eq!(pig_latin_text(""), "");
    assert_eq!(pig_latin_text(" \t "), "");
}

#[test]
fn text_of_one_word_agrees_with_word() {
    for word in ["eat", "pig", "Pig", "latin!", "xyz", "!", "été"] {
        assert_eq!(pig_latin_text(word), pig_latin_word(word), "{word}");
    }
}

#[test]
fn text_agrees_with_split_whitespace_and_join() {
    for text in ["the quick  brown fox", " a b ", "one", "Hi, there! You?", "x\ty\nz"] {
        let expected: Vec<String> = text.split_whitespace().map(pig_latin_word).collect();
        assert_eq!(pig_latin_text(text), expected.join(" "), "{text:?}");
    }
}

use eruo_strutil::chars::is_ascii_punctuation;
use eruo_strutil::chars::is_ascii_uppercase;
use eruo_strutil::chars::is_sentence_end;
use eruo_strutil::chars::is_vowel;
use eruo_strutil::chars::is_whitespace;
use eruo_strutil::chars::to_ascii_uppercase;

fn every_char() -> Vec<char> {
    (0u32..=0x10FFFF).filter_map(char::from_u32).collect()
}

#[test]
fn vowels_in_both_cases() {
    for c in ['a', 'e', 'i', 'o', 'u', 'A', 'E', 'I', 'O', 'U'] {
        assert!(is_vowel(c), "{c}");
    }
}

#[test]
fn consonants_digits_and_accents_are_no_vowels() {
    for c in ['b', 'y', 'Y', 'z', '1', ' ', '!', 'é', 'ä', 'Ü', 'а'] {
        assert!(!is_vowel(c), "{c}");
    }
}

#[test]
fn vowel_test_agrees_with_ascii_lowercasing() {
    for c in every_char() {
        let expected = matches!(c.to_ascii_lowercase(), 'a' | 'e' | 'i' | 'o' | 'u');
        assert_eq!(is_vowel(c), expected, "{c:?}");
    }
}

#[test]
fn punctuation_ranges_and_their_neighbours() {
    for c in ['!', '/', ':', '@', '[', '`', '{', '~', '.', ',', '?', '"', '\'', '_', '-'] {
        assert!(is_ascii_punctuation(c), "{c}");
    }
    for c in [' ', '0', '9', 'A', 'Z', 'a', 'z', '\u{7f}', '\u{1f}', '¡', '…', '。'] {
        assert!(!is_ascii_punctuation(c), "{c:?}");
    }
}

#[test]
fn punctuation_test_agrees_with_std() {
    for c in every_char() {
        assert_eq!(is_ascii_punctuation(c), c.is_ascii_punctuation(), "{c:?}");
    }
}

#[test]
fn ascii_uppercase_test_agrees_with_std() {
    for c in every_char() {
        assert_eq!(is_ascii_uppercase(c), c.is_ascii_uppercase(), "{c:?}");
    }
}

#[test]
fn ascii_uppercase_mapping_agrees_with_std() {
    for c in every_char() {
        assert_eq!(to_ascii_uppercase(c), c.to_ascii_uppercase(), "{c:?}");
    }
}

#[test]
fn ascii_uppercase_mapping_exact_values() {
    assert_eq!(to_ascii_uppercase('a'), 'A');
    assert_eq!(to_ascii_uppercase('z'), 'Z');
    assert_eq!(to_ascii_uppercase('Q'), 'Q');
    assert_eq!(to_ascii_uppercase('7'), '7');
    assert_eq!(to_ascii_uppercase('é'), 'é');
    assert_eq!(to_ascii_uppercase('ß'), 'ß');
}

#[test]
fn sentence_ends_are_three() {
    let ends: Vec<char> = every_char().into_iter().filter(|c| is_sentence_end(*c)).collect();
    assert_eq!(ends, vec!['!', '.', '?']);
}

#[test]
fn whitespace_test_agrees_with_std() {
    for c in every_char() {
        assert_eq!(is_whitespace(c), c.is_whitespace(), "{c:?}");
    }
}

#[test]
fn whitespace_exact_values() {
    for c in [' ', '\t', '\n', '\r', '\u{b}', '\u{c}', '\u{85}', '\u{a0}', '\u{2003}', '\u{3000}'] {
        assert!(is_whitespace(c), "{c:?}");
    }
    for c in ['a', '0', '.', '\u{8}', '\u{e}', '\u{1f}', '\u{180e}', '\u{200b}', '\u{feff}'] {
        assert!(!is_whitespace(c), "{c:?}");
    }
}

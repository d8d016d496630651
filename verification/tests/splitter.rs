use eruo_strutil::splitter::is_delimiter;
use eruo_strutil::splitter::split_text;
use eruo_strutil::text::chars_of;

#[test]
fn fragments_are_trimmed() {
    assert_eq!(split_text("a, b;c", ",;"), vec!["a", "b", "c"]);
}

#[test]
fn consecutive_delimiters_give_an_empty_fragment() {
    assert_eq!(split_text("a,,b", ","), vec!["a", "", "b"]);
}

#[test]
fn empty_text_has_no_fragment() {
    assert_eq!(split_text("", ","), Vec::<String>::new());
    assert_eq!(split_text("", ""), Vec::<String>::new());
}

#[test]
fn whitespace_only_text_has_one_empty_fragment() {
    assert_eq!(split_text("  ", ","), vec![""]);
}

#[test]
fn delimiters_at_the_ends_give_empty_fragments() {
    assert_eq!(split_text(",", ","), vec!["", ""]);
    assert_eq!(split_text(",a,", ","), vec!["", "a", ""]);
    assert_eq!(split_text(";;", ",;"), vec!["", "", ""]);
}

#[test]
fn text_without_delimiter_is_one_trimmed_fragment() {
    assert_eq!(split_text("  hello world ", ",;"), vec!["hello world"]);
    assert_eq!(split_text(" a,b ", ""), vec!["a,b"]);
}

#[test]
fn fragment_of_whitespace_becomes_empty() {
    assert_eq!(split_text("a, \t ,b", ","), vec!["a", "", "b"]);
}

#[test]
fn delimiters_may_lie_outside_ascii() {
    assert_eq!(split_text("un→deux · trois", "→·"), vec!["un", "deux", "trois"]);
}

#[test]
fn whitespace_may_be_a_delimiter() {
    assert_eq!(split_text("a b  c", " "), vec!["a", "b", "", "c"]);
}

#[test]
fn split_agrees_with_std_split_and_trim() {
    let delimiters = ",;|";
    for text in ["a, b;c", "a,,b", " x | y ", "|", "no delimiter", " , ; | ", "é;ü"] {
        let expected: Vec<String> =
            text.split(|c: char| delimiters.contains(c)).map(|part| part.trim().to_string()).collect();
        assert_eq!(split_text(text, delimiters), expected, "{text:?}");
    }
}

#[test]
fn one_fragment_more_than_delimiters() {
    for text in ["a,b,c", ",", "a;b,,c;", "x"] {
        let delimiters = text.chars().filter(|c| ",;".contains(*c)).count();
        assert_eq!(split_text(text, ",;").len(), delimiters + 1, "{text:?}");
    }
}

#[test]
fn is_delimiter_tests_membership() {
    let marks = chars_of(",;é");
    assert!(is_delimiter(&marks, ','));
    assert!(is_delimiter(&marks, ';'));
    assert!(is_delimiter(&marks, 'é'));
    assert!(!is_delimiter(&marks, 'e'));
    assert!(!is_delimiter(&Vec::new(), ','));
}

//! Character classes.
//!
//! The ASCII classes and whitespace are defined here. The other Unicode
//! classes and the case mappings are those of the standard library; they are
//! named, not defined, and the items that connect the names to the standard
//! library are trusted.

use vstd::prelude::*;

verus! {

/// Whether `c` is one of the ASCII vowels `a e i o u`, in either case.
pub open spec fn is_vowel_spec(c: char) -> bool {
    c == 'a' || c == 'e' || c == 'i' || c == 'o' || c == 'u' || c == 'A' || c == 'E' || c == 'I'
        || c == 'O' || c == 'U'
}

/// Whether `c` is an ASCII punctuation character: one of
/// ``! " # $ % & ' ( ) * + , - . /``, ``: ; < = > ? @``, ``[ \ ] ^ _ ` `` and `{ | } ~`.
pub open spec fn is_ascii_punctuation_spec(c: char) -> bool {
    ('!' <= c && c <= '/') || (':' <= c && c <= '@') || ('[' <= c && c <= '`') || ('{' <= c && c
        <= '~')
}

/// Whether `c` is one of the ASCII capital letters `A` to `Z`.
pub open spec fn is_ascii_uppercase_spec(c: char) -> bool {
    'A' <= c && c <= 'Z'
}

/// Whether `c` is one of the ASCII small letters `a` to `z`.
pub open spec fn is_ascii_lowercase_spec(c: char) -> bool {
    'a' <= c && c <= 'z'
}

/// The ASCII capital of an ASCII small letter; every other character is itself.
pub open spec fn to_ascii_uppercase_spec(c: char) -> char {
    if is_ascii_lowercase_spec(c) {
        ((c as u32) - 32) as char
    } else {
        c
    }
}

/// Whether `c` ends a sentence: `.`, `!` or `?`.
pub open spec fn is_sentence_end_spec(c: char) -> bool {
    c == '.' || c == '!' || c == '?'
}

/// Tests a character against the ASCII vowels, ignoring case.
pub fn is_vowel(c: char) -> (vowel: bool)
    ensures
        vowel == is_vowel_spec(c),
{
    c == 'a' || c == 'e' || c == 'i' || c == 'o' || c == 'u' || c == 'A' || c == 'E' || c == 'I'
        || c == 'O' || c == 'U'
}

/// Tests a character for ASCII punctuation.
pub fn is_ascii_punctuation(c: char) -> (punctuation: bool)
    ensures
        punctuation == is_ascii_punctuation_spec(c),
{
    ('!' <= c && c <= '/') || (':' <= c && c <= '@') || ('[' <= c && c <= '`') || ('{' <= c && c
        <= '~')
}

/// Tests a character for an ASCII capital letter.
pub fn is_ascii_uppercase(c: char) -> (uppercase: bool)
    ensures
        uppercase == is_ascii_uppercase_spec(c),
{
    'A' <= c && c <= 'Z'
}

/// Maps an ASCII small letter to its capital and leaves every other character alone.
pub fn to_ascii_uppercase(c: char) -> (upper: char)
    ensures
        upper == to_ascii_uppercase_spec(c),
        is_ascii_lowercase_spec(c) ==> is_ascii_uppercase_spec(upper),
{
    if 'a' <= c && c <= 'z' {
        let code: u8 = c as u8;
        (code - 32) as char
    } else {
        c
    }
}

/// Tests a character for whitespace.
pub fn is_whitespace(c: char) -> (space: bool)
    ensures
        space == whitespace(c),
{
    ('\u{9}' <= c && c <= '\u{d}') || c == ' ' || c == '\u{85}' || c == '\u{a0}' || c
        == '\u{1680}' || ('\u{2000}' <= c && c <= '\u{200a}') || c == '\u{2028}' || c
        == '\u{2029}' || c == '\u{202f}' || c == '\u{205f}' || c == '\u{3000}'
}

/// Tests a character for sentence-ending punctuation.
pub fn is_sentence_end(c: char) -> (ends: bool)
    ensures
        ends == is_sentence_end_spec(c),
{
    c == '.' || c == '!' || c == '?'
}

/// Whether `c` has the Unicode property `Alphabetic`.
pub uninterp spec fn alphabetic(c: char) -> bool;

/// Whether `c` has the Unicode property `Uppercase`.
pub uninterp spec fn uppercase_letter(c: char) -> bool;

/// Whether `c` has the Unicode property `Lowercase`.
pub uninterp spec fn lowercase_letter(c: char) -> bool;

/// Whether `c` has the Unicode property `White_Space`: the controls U+0009
/// to U+000D and U+0085, the space, the no-break space, the Ogham space mark,
/// the spaces U+2000 to U+200A, the line and the paragraph separator, the
/// narrow no-break space, the medium mathematical space and the ideographic
/// space.
pub open spec fn whitespace(c: char) -> bool {
    ('\u{9}' <= c && c <= '\u{d}') || c == ' ' || c == '\u{85}' || c == '\u{a0}' || c
        == '\u{1680}' || ('\u{2000}' <= c && c <= '\u{200a}') || c == '\u{2028}' || c
        == '\u{2029}' || c == '\u{202f}' || c == '\u{205f}' || c == '\u{3000}'
}

/// The uppercase mapping of `c`: the characters that `c` becomes in upper case.
pub uninterp spec fn uppercase_of(c: char) -> Seq<char>;

/// The lowercase mapping of `c`: the characters that `c` becomes in lower case.
pub uninterp spec fn lowercase_of(c: char) -> Seq<char>;

/// `char::is_alphabetic` of the standard library. Trusted: its result is the
/// Unicode property that `alphabetic` names, a function of the character alone.
pub assume_specification[ char::is_alphabetic ](c: char) -> (b: bool)
    ensures
        b == alphabetic(c),
;

/// `char::is_uppercase` of the standard library. Trusted: its result is the
/// Unicode property that `uppercase_letter` names.
pub assume_specification[ char::is_uppercase ](c: char) -> (b: bool)
    ensures
        b == uppercase_letter(c),
;

/// `char::is_lowercase` of the standard library. Trusted: its result is the
/// Unicode property that `lowercase_letter` names.
pub assume_specification[ char::is_lowercase ](c: char) -> (b: bool)
    ensures
        b == lowercase_letter(c),
;

/// `char::to_uppercase` of the standard library, its characters collected in
/// order. Trusted: they are the mapping that `uppercase_of` names.
#[verifier::external_body]
pub(crate) fn to_uppercase(c: char) -> (mapped: Vec<char>)
    ensures
        mapped@ == uppercase_of(c),
{
    c.to_uppercase().collect()
}

/// `char::to_lowercase` of the standard library, its characters collected in
/// order. Trusted: they are the mapping that `lowercase_of` names.
#[verifier::external_body]
pub(crate) fn to_lowercase(c: char) -> (mapped: Vec<char>)
    ensures
        mapped@ == lowercase_of(c),
{
    c.to_lowercase().collect()
}

/// The form in which a character is written.
#[derive(Debug, Clone, Copy, PartialEq, Eq, Structural)]
pub enum LetterForm {
    /// The character itself.
    Copy,
    /// Its uppercase mapping.
    Upper,
    /// Its lowercase mapping.
    Lower,
}

/// The characters that are written for `c` in the form `form`.
pub open spec fn written_form(c: char, form: LetterForm) -> Seq<char> {
    match form {
        LetterForm::Copy => seq![c],
        LetterForm::Upper => uppercase_of(c),
        LetterForm::Lower => lowercase_of(c),
    }
}

} // verus!

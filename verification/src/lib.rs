//! Text transformations over columns of optional strings: Pig Latin
//! translation, delimiter splitting, sentence casing and sponge casing.
//!
//! Every transformation is specified over `Seq<char>`, the view of a string,
//! and every executable function is proved against that specification.

pub mod chars;
pub mod text;
pub mod pig_latin;
pub mod column;
pub mod splitter;
pub mod sentence_case;
pub mod sponge_case;
pub mod expressions;

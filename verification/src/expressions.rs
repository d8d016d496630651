//! The four column expressions: each takes a column of optional strings as
//! the first of its inputs and gives a new column.

use crate::column::{
    first_column, fits_column, holds_strings, lemma_map_rows_keeps_shape, map_rows, present,
    rows_fit, same_shape, series_name, series_rows, strings_like, strings_unnamed, texts_fit,
    ColumnError, Rows, ROW_LIMIT, TEXT_LIMIT,
};
use crate::pig_latin::{pig_latin_text, pig_latin_text_spec};
use crate::sentence_case::{
    has_settled_cases, has_settled_cases_in, lemma_sentence_case_idempotent, sentence_case,
    sentence_case_spec, CasePolicy,
};
use crate::splitter::{split_text, split_text_spec};
use crate::text::byte_len;
use crate::sponge_case::{
    is_sponge_of, lemma_sponge_within_room, letter_count, sponge_has_room, sponge_room,
    sponge_spec, sponge_text,
};
use polars::prelude::Series;
use rand::rngs::StdRng;
use vstd::prelude::*;

verus! {

/// The parameters of `split_by_chars`: the set of delimiter characters, given
/// as a string.
pub struct SplitByCharsKwargs {
    characters: String,
}

impl View for SplitByCharsKwargs {
    type V = Seq<char>;

    /// The delimiter characters.
    closed spec fn view(&self) -> Seq<char> {
        self.characters@
    }
}

impl SplitByCharsKwargs {
    /// The parameters with the characters of `characters` as delimiters.
    pub fn new(characters: String) -> (kwargs: Self)
        ensures
            kwargs@ == characters@,
    {
        SplitByCharsKwargs { characters }
    }

    /// The delimiter characters.
    pub fn characters(&self) -> (characters: &str)
        ensures
            characters@ == self@,
    {
        self.characters.as_str()
    }
}

/// The rows of a column with every string translated into Pig Latin.
pub open spec fn pig_latin_rows(rows: Rows) -> Rows {
    map_rows(rows, |text: Seq<char>| pig_latin_text_spec(text))
}

/// The rows of a column with every string put into sentence case.
pub open spec fn sentence_case_rows(policy: CasePolicy, rows: Rows) -> Rows {
    map_rows(rows, |text: Seq<char>| sentence_case_spec(policy, text))
}

/// The fragments of all the strings of a column, in the order of the rows. A
/// null row has no fragment.
pub open spec fn split_rows(rows: Rows, delimiters: Seq<char>) -> Seq<Seq<char>>
    decreases rows.len(),
{
    if rows.len() == 0 {
        Seq::empty()
    } else {
        split_rows(rows.drop_last(), delimiters) + match rows.last() {
            Some(text) => split_text_spec(text, delimiters),
            None => Seq::empty(),
        }
    }
}

/// Whether `cased` is the column `rows` in sponge case: it has the same number
/// of rows, null where `rows` is null, and every other row is the string of
/// `rows` in sponge case for some coin flips.
pub open spec fn is_sponge_rows(rows: Rows, cased: Rows) -> bool {
    &&& cased.len() == rows.len()
    &&& forall|i: int|
        0 <= i < rows.len() ==> match #[trigger] rows[i] {
            Some(text) => cased[i] is Some && is_sponge_of(text, cased[i]->Some_0),
            None => cased[i] is None,
        }
}

/// Whether a column in sponge case is within the limits of polars whatever
/// the coin shows: it has fewer than `ROW_LIMIT` rows, and no row can come to
/// more than `TEXT_LIMIT` bytes.
pub open spec fn has_sponge_room(rows: Rows) -> bool {
    &&& rows.len() < ROW_LIMIT
    &&& forall|i: int|
        0 <= i < rows.len() ==> match #[trigger] rows[i] {
            Some(text) => sponge_room(text) <= TEXT_LIMIT,
            None => true,
        }
}

/// Whether the letters of every string of a column have settled case forms.
pub open spec fn rows_have_settled_cases(rows: Rows) -> bool {
    forall|i: int|
        0 <= i < rows.len() ==> match #[trigger] rows[i] {
            Some(text) => has_settled_cases(text),
            None => true,
        }
}

/// A column put into sentence case is a fixed point: putting it into sentence
/// case again changes no row, where the letters of every string have settled
/// case forms.
pub proof fn lemma_sentence_case_rows_idempotent(policy: CasePolicy, rows: Rows)
    requires
        rows_have_settled_cases(rows),
    ensures
        sentence_case_rows(policy, sentence_case_rows(policy, rows)) == sentence_case_rows(
            policy,
            rows,
        ),
{
    let once = sentence_case_rows(policy, rows);
    let twice = sentence_case_rows(policy, once);
    assert forall|i: int| 0 <= i < rows.len() implies twice[i] == once[i] by {
        match rows[i] {
            Some(text) => {
                lemma_sentence_case_idempotent(policy, text);
            },
            None => {},
        }
    }
    assert(twice =~= once);
}

/// Whether the letters of every string of `rows` have settled case forms.
pub fn rows_have_settled_cases_in(rows: &Vec<Option<String>>) -> (settled: bool)
    ensures
        settled == rows_have_settled_cases(rows.deep_view()),
{
    let mut i: usize = 0;
    while i < rows.len()
        invariant
            i <= rows@.len(),
            forall|k: int|
                0 <= k < i ==> match #[trigger] rows.deep_view()[k] {
                    Some(text) => has_settled_cases(text),
                    None => true,
                },
        decreases rows@.len() - i,
    {
        assert(rows.deep_view()[i as int] == rows@[i as int].deep_view());
        match &rows[i] {
            Some(text) => {
                if !has_settled_cases_in(text.as_str()) {
                    return false;
                }
            },
            None => {},
        }
        i += 1;
    }
    true
}

/// Translates every string of a column into Pig Latin.
///
/// Fails with `NotString` exactly where the first input is not a column of
/// strings, and with `TooLarge` exactly where it is one and the new column
/// would be over the limits of polars. The new column has the name of the
/// input, as many rows, and a null row wherever the input has one.
pub fn pig_latinnify(inputs: &[Series]) -> (out: Result<Series, ColumnError>)
    requires
        inputs@.len() > 0,
    ensures
        out is Ok <==> holds_strings(inputs@[0]) && fits_column(
            pig_latin_rows(series_rows(inputs@[0])),
        ),
        out is Err ==> out->Err_0 == (if holds_strings(inputs@[0]) {
            ColumnError::TooLarge
        } else {
            ColumnError::NotString
        }),
        out is Ok ==> {
            &&& holds_strings(out->Ok_0)
            &&& series_rows(out->Ok_0) == pig_latin_rows(series_rows(inputs@[0]))
            &&& same_shape(series_rows(inputs@[0]), series_rows(out->Ok_0))
            &&& series_name(out->Ok_0) == series_name(inputs@[0])
        },
{
    let rows = match first_column(inputs) {
        Ok(rows) => rows,
        Err(error) => {
            return Err(error);
        },
    };
    let mut translated: Vec<Option<String>> = Vec::new();
    let mut i: usize = 0;
    while i < rows.len()
        invariant
            i <= rows@.len(),
            translated@.len() == i,
            forall|k: int|
                0 <= k < i ==> (#[trigger] translated@[k]).deep_view() == pig_latin_rows(
                    rows.deep_view(),
                )[k],
        decreases rows@.len() - i,
    {
        let row = match &rows[i] {
            Some(text) => Some(pig_latin_text(text.as_str())),
            None => None,
        };
        translated.push(row);
        i += 1;
    }
    proof {
        assert(translated.deep_view() =~= pig_latin_rows(rows.deep_view()));
        lemma_map_rows_keeps_shape(
            rows.deep_view(),
            |text: Seq<char>| pig_latin_text_spec(text),
        );
    }
    if !rows_fit(&translated, ROW_LIMIT, TEXT_LIMIT) {
        return Err(ColumnError::TooLarge);
    }
    Ok(strings_like(&inputs[0], &translated))
}

/// Splits every string of a column at the delimiter characters of `kwargs`
/// and gives the trimmed fragments, one row for each, in the order of the
/// rows. A null row gives no fragment.
///
/// Fails with `NotString` exactly where the first input is not a column of
/// strings, and with `TooLarge` exactly where it is one and the new column
/// would be over the limits of polars. The new column has no null row and the
/// empty name.
pub fn split_by_chars(inputs: &[Series], kwargs: SplitByCharsKwargs) -> (out: Result<
    Series,
    ColumnError,
>)
    requires
        inputs@.len() > 0,
    ensures
        out is Ok <==> holds_strings(inputs@[0]) && fits_column(
            present(split_rows(series_rows(inputs@[0]), kwargs@)),
        ),
        out is Err ==> out->Err_0 == (if holds_strings(inputs@[0]) {
            ColumnError::TooLarge
        } else {
            ColumnError::NotString
        }),
        out is Ok ==> {
            &&& holds_strings(out->Ok_0)
            &&& series_rows(out->Ok_0) == present(split_rows(series_rows(inputs@[0]), kwargs@))
            &&& series_name(out->Ok_0) == Seq::<char>::empty()
        },
{
    let rows = match first_column(inputs) {
        Ok(rows) => rows,
        Err(error) => {
            return Err(error);
        },
    };
    let mut fragments: Vec<String> = Vec::new();
    let mut i: usize = 0;
    assert(rows.deep_view().take(0) =~= Seq::<Option<Seq<char>>>::empty());
    assert(fragments.deep_view() =~= Seq::<Seq<char>>::empty());
    while i < rows.len()
        invariant
            i <= rows@.len(),
            fragments.deep_view() == split_rows(rows.deep_view().take(i as int), kwargs@),
        decreases rows@.len() - i,
    {
        let ghost before = rows.deep_view().take(i as int);
        let ghost upto = rows.deep_view().take(i + 1);
        assert(upto.drop_last() =~= before);
        assert(upto.last() == rows@[i as int].deep_view());
        match &rows[i] {
            Some(text) => {
                let mut parts = split_text(text.as_str(), kwargs.characters());
                let ghost old_fragments = fragments.deep_view();
                let ghost new_parts = parts.deep_view();
                fragments.append(&mut parts);
                assert(fragments.deep_view() =~= old_fragments + new_parts);
            },
            None => {
                assert(fragments.deep_view() + Seq::<Seq<char>>::empty()
                    =~= fragments.deep_view());
            },
        }
        i += 1;
    }
    assert(rows.deep_view().take(rows@.len() as int) =~= rows.deep_view());
    if !texts_fit(&fragments, ROW_LIMIT, TEXT_LIMIT) {
        return Err(ColumnError::TooLarge);
    }
    Ok(strings_unnamed(&fragments))
}

/// Puts every string of a column into sentence case under `policy`.
///
/// Fails with `NotString` exactly where the first input is not a column of
/// strings, and with `TooLarge` exactly where it is one and the new column
/// would be over the limits of polars. The new column has the name of the
/// input, as many rows, and a null row wherever the input has one.
pub fn to_sentence_case_with(inputs: &[Series], policy: CasePolicy) -> (out: Result<
    Series,
    ColumnError,
>)
    requires
        inputs@.len() > 0,
    ensures
        out is Ok <==> holds_strings(inputs@[0]) && fits_column(
            sentence_case_rows(policy, series_rows(inputs@[0])),
        ),
        out is Err ==> out->Err_0 == (if holds_strings(inputs@[0]) {
            ColumnError::TooLarge
        } else {
            ColumnError::NotString
        }),
        out is Ok ==> {
            &&& holds_strings(out->Ok_0)
            &&& series_rows(out->Ok_0) == sentence_case_rows(policy, series_rows(inputs@[0]))
            &&& same_shape(series_rows(inputs@[0]), series_rows(out->Ok_0))
            &&& series_name(out->Ok_0) == series_name(inputs@[0])
        },
{
    let rows = match first_column(inputs) {
        Ok(rows) => rows,
        Err(error) => {
            return Err(error);
        },
    };
    let mut cased: Vec<Option<String>> = Vec::new();
    let mut i: usize = 0;
    while i < rows.len()
        invariant
            i <= rows@.len(),
            cased@.len() == i,
            forall|k: int|
                0 <= k < i ==> (#[trigger] cased@[k]).deep_view() == sentence_case_rows(
                    policy,
                    rows.deep_view(),
                )[k],
        decreases rows@.len() - i,
    {
        let row = match &rows[i] {
            Some(text) => Some(sentence_case(text.as_str(), policy)),
            None => None,
        };
        cased.push(row);
        i += 1;
    }
    proof {
        assert(cased.deep_view() =~= sentence_case_rows(policy, rows.deep_view()));
        lemma_map_rows_keeps_shape(
            rows.deep_view(),
            |text: Seq<char>| sentence_case_spec(policy, text),
        );
    }
    if !rows_fit(&cased, ROW_LIMIT, TEXT_LIMIT) {
        return Err(ColumnError::TooLarge);
    }
    Ok(strings_like(&inputs[0], &cased))
}

/// Puts every string of a column into sentence case under the policy
/// `Normalize`.
pub fn to_sentence_case(inputs: &[Series]) -> (out: Result<Series, ColumnError>)
    requires
        inputs@.len() > 0,
    ensures
        out is Ok <==> holds_strings(inputs@[0]) && fits_column(
            sentence_case_rows(CasePolicy::Normalize, series_rows(inputs@[0])),
        ),
        out is Err ==> out->Err_0 == (if holds_strings(inputs@[0]) {
            ColumnError::TooLarge
        } else {
            ColumnError::NotString
        }),
        out is Ok ==> {
            &&& holds_strings(out->Ok_0)
            &&& series_rows(out->Ok_0) == sentence_case_rows(
                CasePolicy::Normalize,
                series_rows(inputs@[0]),
            )
            &&& same_shape(series_rows(inputs@[0]), series_rows(out->Ok_0))
            &&& series_name(out->Ok_0) == series_name(inputs@[0])
        },
{
    to_sentence_case_with(inputs, CasePolicy::Normalize)
}

/// Whether every row of `rows` has room in sponge case, and the rows are
/// fewer than `ROW_LIMIT`.
pub fn sponge_rows_have_room(rows: &Vec<Option<String>>) -> (fits: bool)
    ensures
        fits == has_sponge_room(rows.deep_view()),
{
    if rows.len() >= ROW_LIMIT {
        return false;
    }
    let mut i: usize = 0;
    while i < rows.len()
        invariant
            i <= rows@.len(),
            rows@.len() < ROW_LIMIT,
            forall|k: int|
                0 <= k < i ==> match #[trigger] rows.deep_view()[k] {
                    Some(text) => sponge_room(text) <= TEXT_LIMIT,
                    None => true,
                },
        decreases rows@.len() - i,
    {
        assert(rows.deep_view()[i as int] == rows@[i as int].deep_view());
        match &rows[i] {
            Some(text) => {
                if !sponge_has_room(text.as_str(), TEXT_LIMIT) {
                    return false;
                }
            },
            None => {},
        }
        i += 1;
    }
    true
}

/// Puts every string of a column into sponge case, with coin flips drawn from
/// `rng`: one for each letter, row after row, in the order of the letters.
///
/// Fails with `NotString` exactly where the first input is not a column of
/// strings, and with `TooLarge` exactly where it is one and some outcome of
/// the coin flips would take the new column over the limits of polars. Where
/// it fails, nothing is drawn. The new column has the name of the input, as
/// many rows, and a null row wherever the input has one.
pub fn to_sponge_case(inputs: &[Series], rng: &mut StdRng) -> (out: Result<Series, ColumnError>)
    requires
        inputs@.len() > 0,
    ensures
        out is Ok <==> holds_strings(inputs@[0]) && has_sponge_room(series_rows(inputs@[0])),
        out is Err ==> out->Err_0 == (if holds_strings(inputs@[0]) {
            ColumnError::TooLarge
        } else {
            ColumnError::NotString
        }),
        out is Err ==> *final(rng) == *old(rng),
        out is Ok ==> {
            &&& holds_strings(out->Ok_0)
            &&& is_sponge_rows(series_rows(inputs@[0]), series_rows(out->Ok_0))
            &&& same_shape(series_rows(inputs@[0]), series_rows(out->Ok_0))
            &&& series_name(out->Ok_0) == series_name(inputs@[0])
        },
{
    let rows = match first_column(inputs) {
        Ok(rows) => rows,
        Err(error) => {
            return Err(error);
        },
    };
    if !sponge_rows_have_room(&rows) {
        return Err(ColumnError::TooLarge);
    }
    let mut cased: Vec<Option<String>> = Vec::new();
    let mut i: usize = 0;
    while i < rows.len()
        invariant
            i <= rows@.len(),
            cased@.len() == i,
            has_sponge_room(rows.deep_view()),
            forall|k: int|
                0 <= k < i ==> match (#[trigger] rows@[k]).deep_view() {
                    Some(text) => {
                        &&& cased@[k].deep_view() is Some
                        &&& is_sponge_of(text, cased@[k].deep_view()->Some_0)
                        &&& byte_len(cased@[k].deep_view()->Some_0) <= TEXT_LIMIT
                    },
                    None => cased@[k].deep_view() is None,
                },
        decreases rows@.len() - i,
    {
        let row = match &rows[i] {
            Some(text) => {
                let sponged = sponge_text(text.as_str(), rng);
                proof {
                    let flips = choose|flips: Seq<bool>|
                        flips.len() == letter_count(text@) && sponged@ == #[trigger] sponge_spec(
                            text@,
                            flips,
                        );
                    lemma_sponge_within_room(text@, flips);
                    assert(rows.deep_view()[i as int] == Some(text@));
                }
                Some(sponged)
            },
            None => None,
        };
        cased.push(row);
        i += 1;
    }
    proof {
        let before = rows.deep_view();
        let after = cased.deep_view();
        assert forall|k: int| 0 <= k < before.len() implies match #[trigger] before[k] {
            Some(text) => after[k] is Some && is_sponge_of(text, after[k]->Some_0),
            None => after[k] is None,
        } by {
            assert(before[k] == rows@[k].deep_view());
            assert(after[k] == cased@[k].deep_view());
        }
        assert forall|k: int| 0 <= k < before.len() implies (#[trigger] after[k] is None
            <==> before[k] is None) by {
            assert(before[k] == rows@[k].deep_view());
        }
        assert forall|k: int| 0 <= k < after.len() implies match #[trigger] after[k] {
            Some(text) => byte_len(text) <= TEXT_LIMIT,
            None => true,
        } by {
            assert(after[k] == cased@[k].deep_view());
            assert(before[k] == rows@[k].deep_view());
        }
    }
    Ok(strings_like(&inputs[0], &cased))
}

} // verus!

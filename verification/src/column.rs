//! Columns of optional strings, held in a polars `Series`.
//!
//! A column is read into plain rows, the rows are transformed by verified
//! code, and the result is written into a new `Series`. What a `Series` holds
//! is named, not defined; the functions that read and write one are trusted.

use polars::prelude::IntoSeries;
use polars::prelude::NewChunkedArray;
use polars::prelude::PolarsError;
use polars::prelude::Series;
use polars::prelude::StringChunked;
use crate::text::{byte_len, bytes_in};
use vstd::prelude::*;

verus! {

/// A polars `Series`: a named column of values of one data type.
#[verifier::external_type_specification]
#[verifier::external_body]
pub struct ExSeries(Series);

/// The error type of polars. The library raises none and reads none; the type
/// is declared because the arithmetic of `Series` returns it.
#[verifier::external_type_specification]
#[verifier::external_body]
pub struct ExPolarsError(PolarsError);

/// The rows of a column of optional strings, in order. `None` is a null row,
/// which is not the same as an empty string.
pub type Rows = Seq<Option<Seq<char>>>;

/// Whether the data type of a `Series` is `String`.
pub uninterp spec fn holds_strings(column: Series) -> bool;

/// The rows of a `Series` whose data type is `String`: in order, each row null
/// or a string.
pub uninterp spec fn series_rows(column: Series) -> Seq<Option<Seq<char>>>;

/// The name of a `Series`.
pub uninterp spec fn series_name(column: Series) -> Seq<char>;

/// A column holds fewer rows than this: polars counts rows in 32 bits and
/// keeps the largest count for its own use.
pub const ROW_LIMIT: usize = 0xffff_ffff;

/// A row holds at most this many bytes: polars keeps the length of a string
/// in 32 bits.
pub const TEXT_LIMIT: usize = 0xffff_ffff;

/// Why a column could not be transformed.
#[derive(Debug, Clone, Copy, PartialEq, Eq, Structural)]
pub enum ColumnError {
    /// The column's data type is not `String`.
    NotString,
    /// The new column would have `ROW_LIMIT` rows or more, or a row of more
    /// than `TEXT_LIMIT` bytes.
    TooLarge,
}

/// Whether a column has fewer than `row_limit` rows, none of them longer than
/// `text_limit` bytes.
pub open spec fn fits_within(rows: Rows, row_limit: nat, text_limit: nat) -> bool {
    &&& rows.len() < row_limit
    &&& forall|i: int|
        0 <= i < rows.len() ==> match #[trigger] rows[i] {
            Some(text) => byte_len(text) <= text_limit,
            None => true,
        }
}

/// Whether a column is within the limits of polars: fewer than `ROW_LIMIT`
/// rows, none of them longer than `TEXT_LIMIT` bytes.
pub open spec fn fits_column(rows: Rows) -> bool {
    fits_within(rows, ROW_LIMIT as nat, TEXT_LIMIT as nat)
}

/// `Series::try_str` and then `ChunkedArray::iter` of polars, each row copied
/// into a `String` of its own. Trusted: `Series::try_str` gives the strings
/// exactly of a column of data type `String`, and the iterator then yields the
/// rows in order, a null row as `None`.
#[verifier::external_body]
pub(crate) fn read_strings(column: &Series) -> (rows: Option<Vec<Option<String>>>)
    ensures
        rows is Some <==> holds_strings(*column),
        rows is Some ==> rows->Some_0.deep_view() == series_rows(*column),
{
    Some(column.try_str()?.iter().map(|row| row.map(|text| text.to_string())).collect())
}

/// `ChunkedArray::from_iter_options` and then `IntoSeries::into_series` of
/// polars, with the name that `Series::name` gives for `like`. Trusted: the
/// new column has data type `String`, holds the given rows in order, a `None`
/// as a null row, and has the name of `like`. Polars panics on a column of
/// `ROW_LIMIT` rows or more and on a string of more than `u32::MAX` bytes;
/// both are left out.
#[verifier::external_body]
pub(crate) fn strings_like(like: &Series, rows: &Vec<Option<String>>) -> (column: Series)
    requires
        fits_column(rows.deep_view()),
    ensures
        holds_strings(column),
        series_rows(column) == rows.deep_view(),
        series_name(column) == series_name(*like),
{
    let name = like.name().clone();
    StringChunked::from_iter_options(name, rows.iter().map(|row| row.as_deref())).into_series()
}

/// Collecting an iterator of optional strings into a `StringChunked`, and then
/// `IntoSeries::into_series`, both of polars. Trusted: the new column has data
/// type `String`, holds the given strings in order, none of them null, and has
/// the empty name. Polars panics on a column of `ROW_LIMIT` rows or more and
/// on a string of more than `u32::MAX` bytes; both are left out.
#[verifier::external_body]
pub(crate) fn strings_unnamed(rows: &Vec<String>) -> (column: Series)
    requires
        fits_column(present(rows.deep_view())),
    ensures
        holds_strings(column),
        series_rows(column) == present(rows.deep_view()),
        series_name(column) == Seq::<char>::empty(),
{
    rows.iter().map(|text| Some(text.as_str())).collect::<StringChunked>().into_series()
}

/// The rows that hold `texts` in order, none of them null.
pub open spec fn present(texts: Seq<Seq<char>>) -> Rows {
    texts.map_values(|text: Seq<char>| Some(text))
}

/// The rows of `rows` with `change` applied to every string; a null row stays
/// null, and every row keeps its place.
pub open spec fn map_rows(rows: Rows, change: spec_fn(Seq<char>) -> Seq<char>) -> Rows {
    Seq::new(
        rows.len(),
        |i: int|
            match rows[i] {
                Some(text) => Some(change(text)),
                None => None,
            },
    )
}

/// Reads the rows of the first of `inputs`.
pub fn first_column(inputs: &[Series]) -> (rows: Result<Vec<Option<String>>, ColumnError>)
    requires
        inputs@.len() > 0,
    ensures
        rows is Ok <==> holds_strings(inputs@[0]),
        rows is Ok ==> rows->Ok_0.deep_view() == series_rows(inputs@[0]),
        rows is Err ==> rows->Err_0 == ColumnError::NotString,
{
    match read_strings(&inputs[0]) {
        Some(rows) => Ok(rows),
        None => Err(ColumnError::NotString),
    }
}

/// Whether `rows` has fewer than `row_limit` rows, none of them longer than
/// `text_limit` bytes.
pub fn rows_fit(rows: &Vec<Option<String>>, row_limit: usize, text_limit: usize) -> (fits: bool)
    ensures
        fits == fits_within(rows.deep_view(), row_limit as nat, text_limit as nat),
{
    if rows.len() >= row_limit {
        return false;
    }
    let mut i: usize = 0;
    while i < rows.len()
        invariant
            i <= rows@.len(),
            rows@.len() < row_limit,
            forall|k: int|
                0 <= k < i ==> match #[trigger] rows.deep_view()[k] {
                    Some(text) => byte_len(text) <= text_limit,
                    None => true,
                },
        decreases rows@.len() - i,
    {
        assert(rows.deep_view()[i as int] == rows@[i as int].deep_view());
        match &rows[i] {
            Some(text) => {
                if bytes_in(text.as_str()) > text_limit {
                    return false;
                }
            },
            None => {},
        }
        i += 1;
    }
    true
}

/// Whether `texts` has fewer than `row_limit` strings, none of them longer
/// than `text_limit` bytes.
pub fn texts_fit(texts: &Vec<String>, row_limit: usize, text_limit: usize) -> (fits: bool)
    ensures
        fits == fits_within(present(texts.deep_view()), row_limit as nat, text_limit as nat),
{
    if texts.len() >= row_limit {
        return false;
    }
    let mut i: usize = 0;
    while i < texts.len()
        invariant
            i <= texts@.len(),
            texts@.len() < row_limit,
            forall|k: int|
                0 <= k < i ==> match #[trigger] present(texts.deep_view())[k] {
                    Some(text) => byte_len(text) <= text_limit,
                    None => true,
                },
        decreases texts@.len() - i,
    {
        assert(present(texts.deep_view())[i as int] == Some(texts@[i as int]@));
        if bytes_in(texts[i].as_str()) > text_limit {
            return false;
        }
        i += 1;
    }
    true
}

/// Whether two columns have the same number of rows and null rows at the
/// same places.
pub open spec fn same_shape(before: Rows, after: Rows) -> bool {
    &&& after.len() == before.len()
    &&& forall|i: int| 0 <= i < before.len() ==> (#[trigger] after[i] is None <==> before[i] is None)
}

/// A change of every string keeps the number of rows and the places of the
/// null rows.
pub proof fn lemma_map_rows_keeps_shape(rows: Rows, change: spec_fn(Seq<char>) -> Seq<char>)
    ensures
        same_shape(rows, map_rows(rows, change)),
{
}

} // verus!

//! Reading the rows of a table from CSV text.
//!
//! The text is split into records and fields by the `csv` crate. What this
//! module states about that crate is believed, not proved.

use vstd::prelude::*;
use crate::text::is_trimmed;
use crate::widths::Rows;

verus! {

/// `csv::Error`, the error type of the `csv` crate. Nothing is known of it here
/// but the text that `error_text` gives.
#[verifier::external_type_specification]
#[verifier::external_body]
pub struct ExCsvError(csv::Error);

/// What `csv::Reader::records` yields for `data`, where the reader is built by
/// a `csv::ReaderBuilder` with `has_headers(false)` and `trim(Trim::All)`: the
/// records as rows, the first record included, or `None` where one of the
/// records is an error.
pub uninterp spec fn csv_records(data: Seq<u8>) -> Option<Rows>;

/// Whether no cell of `rows` starts or ends with white space.
pub open spec fn cells_are_trimmed(rows: Rows) -> bool {
    forall|i: int, j: int|
        0 <= i < rows.len() && 0 <= j < rows[i].len() ==> is_trimmed(#[trigger] rows[i][j])
}

/// Whether all of `rows` have as many cells as the first.
pub open spec fn rows_are_equally_long(rows: Rows) -> bool {
    forall|i: int| 0 <= i < rows.len() ==> (#[trigger] rows[i]).len() == rows[0].len()
}

/// Reads all records of `data` through `csv::Reader::records`, with a reader
/// that `csv::ReaderBuilder` builds with `has_headers(false)` and
/// `trim(Trim::All)`, and stops at the first record that is an error.
///
/// Believed of the crate, not proved: what the reader yields depends on the
/// bytes alone; it trims every field at both ends by Unicode white space; and,
/// `flexible` being off, a record with another number of fields than the first
/// is an error.
#[verifier::external_body]
pub(crate) fn read_records(data: &[u8]) -> (result: Result<Vec<Vec<String>>, csv::Error>)
    ensures
        csv_records(data@) == match result {
            Ok(records) => Some(records.deep_view()),
            Err(_) => None,
        },
        result matches Ok(records) ==> cells_are_trimmed(records.deep_view())
            && rows_are_equally_long(records.deep_view()),
{
    let mut reader =
        csv::ReaderBuilder::new().has_headers(false).trim(csv::Trim::All).from_reader(data);
    let mut records = Vec::new();
    for record in reader.records() {
        records.push(record?.iter().map(String::from).collect());
    }
    Ok(records)
}

/// The text of an error of the `csv` crate, as the `Display` of `csv::Error`
/// writes it. Nothing is claimed of the text.
#[verifier::external_body]
pub(crate) fn error_text(error: &csv::Error) -> (text: String) {
    error.to_string()
}

} // verus!

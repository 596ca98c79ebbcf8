//! The tabular text, as the `csv` crate writes and reads it.
//!
//! Nothing here is proved: these are the calls into `csv`, and the names
//! under which the contracts of the crate speak of what they return.

use vstd::prelude::*;

verus! {

#[verifier::external_type_specification]
#[verifier::external_body]
pub struct ExCsvError(csv::Error);

/// The line that `csv::Writer::write_record` writes for a record of these
/// fields when it is the first record of a writer with the default
/// settings, or `None` where it refuses the record.
pub uninterp spec fn csv_line(fields: Seq<Seq<char>>) -> Option<Seq<u8>>;

/// The rows that `csv::Reader::records` finds in a text, the first row
/// among them and each row with as many fields as it holds, or `None` where
/// the reader fails on the text.
pub uninterp spec fn csv_rows(text: Seq<u8>) -> Option<Seq<Seq<Seq<char>>>>;

/// Calls `csv::Writer::write_record` on a new writer over an empty buffer
/// and hands back what the writer then holds. The contract claims only that
/// the outcome depends on the fields alone: [`csv_line`] is its name.
#[verifier::external_body]
pub(crate) fn write_record(fields: &Vec<String>) -> (line: Result<Vec<u8>, csv::Error>)
    ensures
        match line {
            Ok(bytes) => csv_line(fields.deep_view()) == Some(bytes@),
            Err(_) => csv_line(fields.deep_view()) is None,
        },
{
    let mut writer = csv::Writer::from_writer(Vec::new());
    writer.write_record(fields)?;
    writer.into_inner().map_err(|e| csv::Error::from(e.into_error()))
}

/// Calls `csv::Reader::records` on a reader over `text` that takes the
/// first row for a record like the others and accepts rows of any length,
/// and collects the records. The contract claims only that the outcome
/// depends on the text alone: [`csv_rows`] is its name.
#[verifier::external_body]
pub(crate) fn read_records(text: &Vec<u8>) -> (rows: Result<Vec<Vec<String>>, csv::Error>)
    ensures
        match rows {
            Ok(found) => csv_rows(text@) == Some(found.deep_view()),
            Err(_) => csv_rows(text@) is None,
        },
{
    let mut reader = csv::ReaderBuilder::new().has_headers(false).flexible(true).from_reader(
        text.as_slice(),
    );
    reader.records().map(|row| row.map(|r| r.iter().map(String::from).collect())).collect()
}

} // verus!

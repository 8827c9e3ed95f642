//! Reading delimited text with the `csv` crate, and decoding single fields
//! the way `csv`'s serde deserializer decodes them.
use vstd::prelude::*;

use crate::date::Date;
use chrono::Datelike;
use chrono::NaiveDate;
use csv::StringRecord;

verus! {

/// The text of every field of every record, in order.
pub open spec fn records_text(v: Seq<Vec<String>>) -> Seq<Seq<Seq<char>>> {
    v.map_values(|rec: Vec<String>| rec@.map_values(|f: String| f@))
}

/// What `csv::Reader` (headers off, fixed record length) yields for `data`
/// with `delimiter`: the records read before the first error, and whether an
/// error stopped the reading.
pub uninterp spec fn csv_records_until_error(data: Seq<u8>, delimiter: u8) -> (Seq<Seq<Seq<char>>>, bool);

/// What `csv::Reader` (first record taken as the header row, fixed record
/// length) yields as its first record after the header: `None` when reading
/// it fails, `Some(None)` when there is none.
pub uninterp spec fn csv_first_data_record(data: Seq<u8>, delimiter: u8) -> Option<Option<Seq<Seq<char>>>>;

/// The (year, month, day) that deserializing one field as a `chrono::NaiveDate`
/// with `csv`'s deserializer gives, or `None` where it fails.
pub uninterp spec fn csv_date_field(text: Seq<char>) -> Option<(int, int, int)>;

/// The `i32` that deserializing one field with `csv`'s deserializer gives.
pub uninterp spec fn csv_i32_field(text: Seq<char>) -> Option<int>;

/// Reads every record of `data` with `csv::Reader::records`, headers off,
/// stopping at the first error.
///
/// Trusted: `csv::StringRecordsIter::next` over a reader built with
/// `delimiter(delimiter)` and `has_headers(false)`; records are converted to
/// vectors of strings one for one. The outcome is named by
/// `csv_records_until_error`.
#[verifier::external_body]
pub(crate) fn read_records(data: &[u8], delimiter: u8) -> (r: (Vec<Vec<String>>, bool))
    ensures
        (records_text(r.0@), r.1) == csv_records_until_error(data@, delimiter),
{
    let mut rdr = csv::ReaderBuilder::new().delimiter(delimiter).has_headers(false).from_reader(data);
    let mut out: Vec<Vec<String>> = Vec::new();
    for rec in rdr.records() {
        match rec {
            Ok(rec) => out.push(rec.iter().map(String::from).collect()),
            Err(_) => return (out, true),
        }
    }
    (out, false)
}

/// Reads the first record after the header row of `data`.
///
/// Trusted: the first `csv::StringRecordsIter::next` of a reader built with
/// `delimiter(delimiter)` and `has_headers(true)`; the outcome is named by
/// `csv_first_data_record`.
#[verifier::external_body]
pub(crate) fn read_first_data_record(data: &[u8], delimiter: u8) -> (r: Option<Option<Vec<String>>>)
    ensures
        r matches Some(Some(rec)) ==> csv_first_data_record(data@, delimiter) == Some(Some(rec@.map_values(|f: String| f@))),
        r matches Some(None) ==> csv_first_data_record(data@, delimiter) == Some(None::<Seq<Seq<char>>>),
        r is None ==> csv_first_data_record(data@, delimiter) is None,
{
    let mut rdr = csv::ReaderBuilder::new().delimiter(delimiter).has_headers(true).from_reader(data);
    match rdr.records().next() {
        None => Some(None),
        Some(Ok(rec)) => Some(Some(rec.iter().map(String::from).collect())),
        Some(Err(_)) => None,
    }
}

/// Decodes one field as a date, as `csv` deserializes a `NaiveDate` field.
///
/// Trusted: `csv::StringRecord::deserialize::<NaiveDate>` on a one-field
/// record; the date is read out through `Datelike` one for one.
#[verifier::external_body]
pub(crate) fn decode_date_field(text: &str) -> (r: Option<Date>)
    ensures
        r is Some <==> csv_date_field(text@) is Some,
        r matches Some(d) ==> csv_date_field(text@) == Some(d.parts()),
{
    match StringRecord::from(vec![text]).deserialize::<NaiveDate>(None) {
        Ok(d) => Some(Date { year: d.year(), month: d.month(), day: d.day() }),
        Err(_) => None,
    }
}

/// Decodes one field as an `i32`, as `csv` deserializes an `i32` field.
///
/// Trusted: `csv::StringRecord::deserialize::<i32>` on a one-field record.
#[verifier::external_body]
pub(crate) fn decode_i32_field(text: &str) -> (r: Option<i32>)
    ensures
        r is Some <==> csv_i32_field(text@) is Some,
        r matches Some(n) ==> csv_i32_field(text@) == Some(n as int),
{
    StringRecord::from(vec![text]).deserialize::<i32>(None).ok()
}

} // verus!

//! CSV rows: what a row of fields looks like as bytes, and the encoder that
//! produces it with the `csv` crate.

use vstd::pervasive::unreached;
use vstd::prelude::*;
use vstd::utf8::encode_utf8;

verus! {

/// The bytes that force a field into quotes: comma, double quote, line feed
/// and carriage return.
pub open spec fn is_special(b: u8) -> bool {
    b == 0x2c || b == 0x22 || b == 0x0a || b == 0x0d
}

/// Whether a field has to be written in quotes.
pub open spec fn needs_quotes(field: Seq<u8>) -> bool {
    exists|i: int| 0 <= i < field.len() && is_special(#[trigger] field[i])
}

/// The field with every double quote written twice.
pub open spec fn doubled(field: Seq<u8>) -> Seq<u8>
    decreases field.len(),
{
    if field.len() == 0 {
        field
    } else if field.last() == 0x22 {
        doubled(field.drop_last()).push(0x22).push(0x22)
    } else {
        doubled(field.drop_last()).push(field.last())
    }
}

/// One field as it stands in a row: as it is, or, where it holds a special
/// byte, between quotes with its own quotes doubled.
pub open spec fn cell(field: Seq<u8>) -> Seq<u8> {
    if needs_quotes(field) {
        seq![0x22u8] + doubled(field) + seq![0x22u8]
    } else {
        field
    }
}

/// The cells of a row with a comma between neighbours.
pub open spec fn cells(fields: Seq<Seq<u8>>) -> Seq<u8>
    decreases fields.len(),
{
    if fields.len() == 0 {
        Seq::<u8>::empty()
    } else if fields.len() == 1 {
        cell(fields[0])
    } else {
        cells(fields.drop_last()).push(0x2c) + cell(fields.last())
    }
}

/// One row of byte fields: its cells and a line feed. A row that would
/// otherwise be empty (no field, or one empty field) is written as `""`.
pub open spec fn row_of_bytes(fields: Seq<Seq<u8>>) -> Seq<u8> {
    let body = cells(fields);
    if body.len() == 0 {
        seq![0x22u8, 0x22u8, 0x0au8]
    } else {
        body.push(0x0a)
    }
}

/// One row of text fields, each field in UTF-8.
pub open spec fn row(fields: Seq<Seq<char>>) -> Seq<u8> {
    row_of_bytes(fields.map_values(|field: Seq<char>| encode_utf8(field)))
}

/// A `csv::Writer` that collects its output in a byte vector. What it holds
/// is known only through `written` and `untouched`.
#[verifier::external_body]
pub struct RowWriter {
    inner: csv::Writer<Vec<u8>>,
}

/// The error type of the `csv` crate, carried through as it is.
#[verifier::external_type_specification]
#[verifier::external_body]
pub struct ExError(csv::Error);

/// Every byte the writer has produced so far, whether it still buffers it or
/// has passed it on to its vector.
pub uninterp spec fn written(w: RowWriter) -> Seq<u8>;

/// Whether the writer is as it was made: no field and no record has been
/// written to it.
pub uninterp spec fn untouched(w: RowWriter) -> bool;

/// `csv::Writer::from_writer` on a byte vector. The new writer has the
/// crate's default settings, is untouched, and counts the vector's bytes as
/// written.
#[verifier::external_body]
fn writer_over(sink: Vec<u8>) -> (w: RowWriter)
    ensures
        untouched(w),
        written(w) == sink@,
{
    RowWriter { inner: csv::Writer::from_writer(sink) }
}

/// `csv::Writer::write_record` with the fields as UTF-8. On an untouched
/// writer the call succeeds: no field count is yet fixed that the record
/// could miss, and writing into a vector does not fail. It adds exactly one
/// row: fields holding a comma, a quote, a line feed or a carriage return in
/// quotes with their quotes doubled, commas between the fields, `""` in place
/// of an empty row, and a line feed.
#[verifier::external_body]
fn write_record(w: &mut RowWriter, fields: &Vec<String>) -> (r: Result<(), csv::Error>)
    ensures
        untouched(*old(w)) ==> r is Ok,
        untouched(*old(w)) ==> written(*final(w)) == written(*old(w)) + row(fields.deep_view()),
{
    w.inner.write_record(fields)
}

/// `csv::Writer::into_inner` on a writer over a byte vector: the flush into a
/// vector does not fail, and the vector then holds every byte written. The
/// error of the call, which would carry the writer, is handed on as the
/// `csv::Error` of its cause.
#[verifier::external_body]
fn into_bytes(w: RowWriter) -> (r: Result<Vec<u8>, csv::Error>)
    ensures
        r is Ok,
        r->Ok_0@ == written(w),
{
    w.inner.into_inner().map_err(|e| csv::Error::from(e.into_error()))
}

/// Encodes one row of fields as CSV.
pub fn encode_record(fields: &Vec<String>) -> (bytes: Vec<u8>)
    ensures
        bytes@ == row(fields.deep_view()),
{
    let mut w = writer_over(Vec::new());
    match write_record(&mut w, fields) {
        Ok(()) => {},
        Err(_) => unreached(),
    }
    match into_bytes(w) {
        Ok(bytes) => bytes,
        Err(_) => unreached(),
    }
}

} // verus!

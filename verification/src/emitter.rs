//! The rows of the output: the fixed header row and the row of one line.

use crate::record::{encode_record, row};
use crate::tokenizer::{tokenize, tokens};
use vstd::prelude::*;
use vstd::string::StringExecFns;

verus! {

/// The ten column names of the header row, in their order.
pub open spec fn header_names() -> Seq<Seq<char>> {
    seq![
        "IP Address"@,
        "Username"@,
        "Session ID"@,
        "Timestamp"@,
        "Timezone"@,
        "HTTP Method"@,
        "Request URL"@,
        "HTTP Version"@,
        "HTTP Status Code"@,
        "Bytes Transferred"@,
    ]
}

/// The bytes of the header row.
pub open spec fn header_bytes() -> Seq<u8> {
    row(header_names())
}

/// The bytes of the row that one line becomes.
pub open spec fn line_bytes(line: Seq<char>) -> Seq<u8> {
    row(tokens(line))
}

/// The column names of the header row.
pub fn header_fields() -> (names: Vec<String>)
    ensures
        names.deep_view() == header_names(),
{
    let mut names: Vec<String> = Vec::new();
    names.push(String::from_str("IP Address"));
    names.push(String::from_str("Username"));
    names.push(String::from_str("Session ID"));
    names.push(String::from_str("Timestamp"));
    names.push(String::from_str("Timezone"));
    names.push(String::from_str("HTTP Method"));
    names.push(String::from_str("Request URL"));
    names.push(String::from_str("HTTP Version"));
    names.push(String::from_str("HTTP Status Code"));
    names.push(String::from_str("Bytes Transferred"));
    names
}

/// The header row as CSV.
pub fn header_row() -> (bytes: Vec<u8>)
    ensures
        bytes@ == header_bytes(),
{
    let names = header_fields();
    encode_record(&names)
}

/// The CSV row of one line: its fields, in order, as columns. The number of
/// columns is the number of fields, whatever the header holds.
pub fn line_row(line: &str) -> (bytes: Vec<u8>)
    ensures
        bytes@ == line_bytes(line@),
{
    let fields = tokenize(line);
    encode_record(&fields)
}

} // verus!

//! Conversion of whitespace-delimited access-log lines into CSV rows.
//!
//! A line is trimmed of white space, split at every single space, and each
//! piece is stripped of surrounding quote and bracket characters; the pieces
//! become the columns of one CSV row. A fixed header row of ten column names
//! may come first.
//!
//! The library does no reading or writing of its own. `converter` leads a
//! caller that does through a conversion step by step; `document` converts a
//! text that is already in memory.

pub mod converter;
pub mod document;
pub mod emitter;
pub mod error;
pub mod input;
pub mod record;
pub mod text;
pub mod tokenizer;

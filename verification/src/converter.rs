//! The conversion as a sequence of steps. The caller does the reading and the
//! writing; each state of the conversion says what to do next and takes the
//! outcome. The states follow one another in a line: the header row if it is
//! wanted, then one row per line, then the end of the input or the first
//! failure.

use crate::emitter::{header_bytes, header_row, line_bytes, line_row};
use crate::error::ConvertError;
use crate::input::Input;
use vstd::prelude::*;

verus! {

/// A conversion that has not asked for anything yet.
#[derive(Debug)]
pub struct Converter {
    input: Input,
    headers: bool,
}

/// A conversion that has handed out a row and waits to hear whether it was
/// written.
#[derive(Debug)]
pub struct Writing {
    input: Input,
    header: bool,
}

/// A conversion that waits for the next line.
#[derive(Debug)]
pub struct Reading {
    input: Input,
}

/// What the caller has to do next.
#[derive(Debug)]
pub enum Step {
    /// Write these bytes, one row, to the output, and tell the state.
    Write(Vec<u8>, Writing),
    /// Read a line from the input and give it to the state.
    Read(Reading),
    /// The input has ended and every row has been written.
    Stop(Input),
}

impl Converter {
    /// The input being converted.
    pub closed spec fn input(&self) -> Input {
        self.input
    }

    /// Whether the output starts with the header row.
    pub closed spec fn headers(&self) -> bool {
        self.headers
    }

    /// A conversion of `input`, with the header row first if `headers` is
    /// set.
    pub fn new(input: Input, headers: bool) -> (converter: Converter)
        ensures
            converter.input() == input,
            converter.headers() == headers,
    {
        Converter { input, headers }
    }

    /// The first step: to write the header row if it is wanted, else to read
    /// the first line.
    pub fn start(self) -> (step: Step)
        ensures
            match step {
                Step::Write(bytes, next) => self.headers() && bytes@ == header_bytes()
                    && next.of_header() && next.input() == self.input(),
                Step::Read(next) => !self.headers() && next.input() == self.input(),
                Step::Stop(_) => false,
            },
    {
        if self.headers {
            Step::Write(header_row(), Writing { input: self.input, header: true })
        } else {
            Step::Read(Reading { input: self.input })
        }
    }
}

impl Writing {
    /// The input being converted.
    pub closed spec fn input(&self) -> Input {
        self.input
    }

    /// Whether the row handed out is the header row.
    pub closed spec fn of_header(&self) -> bool {
        self.header
    }

    /// The row was written: the next line is wanted.
    pub fn done(self) -> (next: Reading)
        ensures
            next.input() == self.input(),
    {
        Reading { input: self.input }
    }

    /// The row could not be written. For the header row the failure is
    /// `WriteHeader`; for the row of a line it is `WriteRecord`, with the
    /// input's name and the number of that line, counted from one.
    pub fn failed(self) -> (error: ConvertError)
        ensures
            self.of_header() ==> error == ConvertError::WriteHeader,
            !self.of_header() ==> (error matches ConvertError::WriteRecord { name, line } && name@
                == self.input().display_name() && line == self.input().lines_read()),
    {
        if self.header {
            ConvertError::WriteHeader
        } else {
            self.input.record_error()
        }
    }
}

impl Reading {
    /// The input being converted.
    pub closed spec fn input(&self) -> Input {
        self.input
    }

    /// The input being converted, with the reads counted so far.
    pub fn source(&self) -> (input: &Input)
        ensures
            *input == self.input(),
    {
        &self.input
    }

    /// A read succeeded: it appended `bytes_read` bytes and left `text` in
    /// the buffer. The read is counted. A read of no bytes is the end of the
    /// input; any other gives one row, that of `text`, to write.
    pub fn line(self, bytes_read: usize, text: &str) -> (step: Step)
        requires
            self.input().lines_read() < u64::MAX,
        ensures
            match step {
                Step::Write(bytes, next) => bytes_read != 0 && bytes@ == line_bytes(text@)
                    && !next.of_header() && next.input().display_name()
                    == self.input().display_name() && next.input().lines_read()
                    == self.input().lines_read() + 1,
                Step::Read(_) => false,
                Step::Stop(input) => bytes_read == 0 && input.display_name()
                    == self.input().display_name() && input.lines_read()
                    == self.input().lines_read() + 1,
            },
    {
        let mut input = self.input;
        if input.read_line(bytes_read) {
            Step::Write(line_row(text), Writing { input, header: false })
        } else {
            Step::Stop(input)
        }
    }

    /// The read failed. The failure is `ReadLine`, with the input's name and
    /// the number of reads that had succeeded.
    pub fn failed(self) -> (error: ConvertError)
        ensures
            error matches ConvertError::ReadLine { name, lines } && name@
                == self.input().display_name() && lines == self.input().lines_read(),
    {
        self.input.read_error()
    }
}

} // verus!

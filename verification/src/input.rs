//! The bookkeeping of an input source: its display name and the number of
//! reads that have succeeded on it. The stream itself stays with the caller.

use crate::error::ConvertError;
use vstd::prelude::*;
use vstd::string::StringExecFns;

verus! {

/// The name an input is reported under, and the count of its lines.
#[derive(Debug)]
pub struct Input {
    name: String,
    line: u64,
}

impl Input {
    /// The name used for this input in messages.
    pub closed spec fn display_name(&self) -> Seq<char> {
        self.name@
    }

    /// How many reads have succeeded so far.
    pub closed spec fn lines_read(&self) -> nat {
        self.line as nat
    }

    /// An input read from the file with this path, before the first read.
    pub fn from_file(path: String) -> (input: Input)
        ensures
            input.display_name() == path@,
            input.lines_read() == 0,
    {
        Input { name: path, line: 0 }
    }

    /// The standard input, before the first read.
    pub fn from_stdin() -> (input: Input)
        ensures
            input.display_name() == "<stdin>"@,
            input.lines_read() == 0,
    {
        Input { name: String::from_str("<stdin>"), line: 0 }
    }

    /// The name used for this input in messages.
    pub fn name(&self) -> (name: &str)
        ensures
            name@ == self.display_name(),
    {
        self.name.as_str()
    }

    /// How many reads have succeeded so far; after a read that gave a line,
    /// the number of that line, counted from one.
    pub fn line(&self) -> (line: u64)
        ensures
            line == self.lines_read(),
    {
        self.line
    }

    /// Records a read that succeeded and appended `bytes_read` bytes, and
    /// tells whether it gave a line: a read of no bytes is the end of the
    /// input. The read is counted either way.
    pub fn read_line(&mut self, bytes_read: usize) -> (more: bool)
        requires
            old(self).lines_read() < u64::MAX,
        ensures
            final(self).display_name() == old(self).display_name(),
            final(self).lines_read() == old(self).lines_read() + 1,
            more == (bytes_read != 0),
    {
        self.line = self.line + 1;
        bytes_read != 0
    }

    /// The failure to open this input.
    pub fn open_error(&self) -> (error: ConvertError)
        ensures
            error matches ConvertError::Open { name } && name@ == self.display_name(),
    {
        ConvertError::Open { name: self.name.clone() }
    }

    /// The failure of a read on this input, after the reads counted so far.
    pub fn read_error(&self) -> (error: ConvertError)
        ensures
            error matches ConvertError::ReadLine { name, lines } && name@ == self.display_name()
                && lines == self.lines_read(),
    {
        ConvertError::ReadLine { name: self.name.clone(), lines: self.line }
    }

    /// The failure to write the row of the line read last.
    pub fn record_error(&self) -> (error: ConvertError)
        ensures
            error matches ConvertError::WriteRecord { name, line } && name@ == self.display_name()
                && line == self.lines_read(),
    {
        ConvertError::WriteRecord { name: self.name.clone(), line: self.line }
    }
}

} // verus!

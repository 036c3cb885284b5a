//! The ways a conversion can fail, and the message that reports each.

use vstd::prelude::*;
use vstd::string::StringExecFns;

verus! {

/// The character of one decimal digit.
pub open spec fn digit(d: nat) -> char {
    if d == 0 {
        '0'
    } else if d == 1 {
        '1'
    } else if d == 2 {
        '2'
    } else if d == 3 {
        '3'
    } else if d == 4 {
        '4'
    } else if d == 5 {
        '5'
    } else if d == 6 {
        '6'
    } else if d == 7 {
        '7'
    } else if d == 8 {
        '8'
    } else {
        '9'
    }
}

/// A number in decimal, without sign or leading zeros.
pub open spec fn decimal(n: nat) -> Seq<char>
    decreases n,
{
    if n < 10 {
        seq![digit(n)]
    } else {
        decimal(n / 10).push(digit(n % 10))
    }
}

fn digit_text(d: u64) -> (text: &'static str)
    requires
        d < 10,
    ensures
        text@ == seq![digit(d as nat)],
{
    proof {
        reveal_strlit("0");
        reveal_strlit("1");
        reveal_strlit("2");
        reveal_strlit("3");
        reveal_strlit("4");
        reveal_strlit("5");
        reveal_strlit("6");
        reveal_strlit("7");
        reveal_strlit("8");
        reveal_strlit("9");
    }
    let text = if d == 0 {
        "0"
    } else if d == 1 {
        "1"
    } else if d == 2 {
        "2"
    } else if d == 3 {
        "3"
    } else if d == 4 {
        "4"
    } else if d == 5 {
        "5"
    } else if d == 6 {
        "6"
    } else if d == 7 {
        "7"
    } else if d == 8 {
        "8"
    } else {
        "9"
    };
    text
}

/// Writes a number in decimal.
pub fn decimal_text(n: u64) -> (text: String)
    ensures
        text@ == decimal(n as nat),
    decreases n,
{
    if n < 10 {
        String::from_str(digit_text(n))
    } else {
        let mut text = decimal_text(n / 10);
        text.append(digit_text(n % 10));
        text
    }
}

/// A failed conversion. Every failure ends the conversion.
#[derive(Debug, PartialEq, Eq)]
pub enum ConvertError {
    /// The named input could not be opened.
    Open { name: String },
    /// Reading from the named input failed after `lines` reads had succeeded.
    ReadLine { name: String, lines: u64 },
    /// The header row could not be written.
    WriteHeader,
    /// The row for line `line` of the named input, counted from one, could
    /// not be written.
    WriteRecord { name: String, line: u64 },
}

impl ConvertError {
    /// The text of the message that reports this failure.
    pub open spec fn text(self) -> Seq<char> {
        match self {
            ConvertError::Open { name } => "failed to open "@ + name@,
            ConvertError::ReadLine { name, lines } => "failed to read a line from "@ + name@ + " after "@
                + decimal(lines as nat) + " lines"@,
            ConvertError::WriteHeader => "failed to write csv headers"@,
            ConvertError::WriteRecord { name, line } => "failed to write a csv record for line "@
                + decimal(line as nat) + " of "@ + name@,
        }
    }

    /// The message that reports this failure: the operation, the input, and
    /// the line where there is one.
    pub fn message(&self) -> (text: String)
        ensures
            text@ == self.text(),
    {
        match self {
            ConvertError::Open { name } => {
                let mut text = String::from_str("failed to open ");
                text.append(name.as_str());
                text
            },
            ConvertError::ReadLine { name, lines } => {
                let mut text = String::from_str("failed to read a line from ");
                text.append(name.as_str());
                text.append(" after ");
                text.append(decimal_text(*lines).as_str());
                text.append(" lines");
                text
            },
            ConvertError::WriteHeader => String::from_str("failed to write csv headers"),
            ConvertError::WriteRecord { name, line } => {
                let mut text = String::from_str("failed to write a csv record for line ");
                text.append(decimal_text(*line).as_str());
                text.append(" of ");
                text.append(name.as_str());
                text
            },
        }
    }
}

} // verus!

//! Source spans and the errors of the conversion.

use vstd::prelude::*;
use vstd::string::StringExecFns;

verus! {

/// A region of the caller's source text, as a pair of offsets. The library
/// only carries spans from its inputs to its results.
#[derive(Clone, Copy, Debug, PartialEq, Eq, Structural)]
pub struct Span {
    pub start: usize,
    pub end: usize,
}

/// Why a conversion was refused. Each error carries the span to report it at.
#[derive(Clone, Copy, Debug, PartialEq, Eq, Structural)]
pub enum BaseError {
    /// The text holds a character that the table lacks; `position` counts the
    /// characters before the first such character.
    UnknownCharacter { position: usize, span: Span },
    /// Bytes were given without the radix to read them in.
    MissingRadix { span: Span },
    /// Text was given without the table to read it with.
    MissingTable { span: Span },
    /// The radix that was given is not the length of the table.
    RadixTableMismatch { radix: usize, table_len: usize, span: Span },
    /// The input is neither text nor bytes.
    UnsupportedInputType { span: Span },
    /// The command that was called is not the conversion.
    UnknownCommand { span: Span },
}

/// The decimal digit `d`, for `d` below ten.
pub open spec fn digit_text(d: nat) -> Seq<char> {
    if d == 0 {
        "0"@
    } else if d == 1 {
        "1"@
    } else if d == 2 {
        "2"@
    } else if d == 3 {
        "3"@
    } else if d == 4 {
        "4"@
    } else if d == 5 {
        "5"@
    } else if d == 6 {
        "6"@
    } else if d == 7 {
        "7"@
    } else if d == 8 {
        "8"@
    } else {
        "9"@
    }
}

/// `n` in decimal, without leading zeros; zero is "0".
pub open spec fn decimal_text(n: nat) -> Seq<char>
    decreases n,
{
    if n < 10 {
        digit_text(n)
    } else {
        decimal_text(n / 10) + digit_text(n % 10)
    }
}

fn digit_str(d: usize) -> (text: &'static str)
    requires
        d < 10,
    ensures
        text@ == digit_text(d as nat),
{
    if d == 0 {
        "0"
    } else if d == 1 {
        "1"
    } else if d == 2 {
        "2"
    } else if d == 3 {
        "3"
    } else if d == 4 {
        "4"
    } else if d == 5 {
        "5"
    } else if d == 6 {
        "6"
    } else if d == 7 {
        "7"
    } else if d == 8 {
        "8"
    } else {
        "9"
    }
}

/// Writes `n` in decimal.
pub fn decimal(n: usize) -> (text: String)
    ensures
        text@ == decimal_text(n as nat),
    decreases n,
{
    if n < 10 {
        String::from_str(digit_str(n))
    } else {
        let mut text = decimal(n / 10);
        text.append(digit_str(n % 10));
        text
    }
}

impl BaseError {
    /// The span to report the error at.
    pub open spec fn spec_span(self) -> Span {
        match self {
            BaseError::UnknownCharacter { span, .. } => span,
            BaseError::MissingRadix { span } => span,
            BaseError::MissingTable { span } => span,
            BaseError::RadixTableMismatch { span, .. } => span,
            BaseError::UnsupportedInputType { span } => span,
            BaseError::UnknownCommand { span } => span,
        }
    }

    /// The short label of the error.
    pub open spec fn label_text(self) -> Seq<char> {
        match self {
            BaseError::UnknownCharacter { .. } => "incorrect table or input"@,
            BaseError::MissingRadix { .. } => "Binary input require base"@,
            BaseError::MissingTable { .. } => "Encode table is require for string input"@,
            BaseError::RadixTableMismatch { .. } => "Base does not match length of table"@,
            BaseError::UnsupportedInputType { .. } => "Invalid input"@,
            BaseError::UnknownCommand { .. } => "Plugin call with wrong name signature"@,
        }
    }

    /// The message that describes the error. A mismatch names both lengths.
    pub open spec fn msg_text(self) -> Seq<char> {
        match self {
            BaseError::UnknownCharacter { .. } => "Input contains unknown chars than not in table"@,
            BaseError::MissingRadix { .. } => "add base"@,
            BaseError::MissingTable { .. } => "give a encode table with \"-t\""@,
            BaseError::RadixTableMismatch { radix, table_len, .. } => "Base is "@ + decimal_text(
                radix as nat,
            ) + ", but table is "@ + decimal_text(table_len as nat),
            BaseError::UnsupportedInputType { .. } => "This type of input is not expected"@,
            BaseError::UnknownCommand { .. } => "Unknown plugin command "@,
        }
    }

    #[verifier::when_used_as_spec(spec_span)]
    pub fn span(self) -> (span: Span)
        ensures
            span == self.spec_span(),
    {
        match self {
            BaseError::UnknownCharacter { span, .. } => span,
            BaseError::MissingRadix { span } => span,
            BaseError::MissingTable { span } => span,
            BaseError::RadixTableMismatch { span, .. } => span,
            BaseError::UnsupportedInputType { span } => span,
            BaseError::UnknownCommand { span } => span,
        }
    }

    /// The short label of the error.
    pub fn label(&self) -> (text: String)
        ensures
            text@ == self.label_text(),
    {
        match self {
            BaseError::UnknownCharacter { .. } => String::from_str("incorrect table or input"),
            BaseError::MissingRadix { .. } => String::from_str("Binary input require base"),
            BaseError::MissingTable { .. } => String::from_str(
                "Encode table is require for string input",
            ),
            BaseError::RadixTableMismatch { .. } => String::from_str(
                "Base does not match length of table",
            ),
            BaseError::UnsupportedInputType { .. } => String::from_str("Invalid input"),
            BaseError::UnknownCommand { .. } => String::from_str(
                "Plugin call with wrong name signature",
            ),
        }
    }

    /// The message that describes the error.
    pub fn msg(&self) -> (text: String)
        ensures
            text@ == self.msg_text(),
    {
        match self {
            BaseError::UnknownCharacter { .. } => String::from_str(
                "Input contains unknown chars than not in table",
            ),
            BaseError::MissingRadix { .. } => String::from_str("add base"),
            BaseError::MissingTable { .. } => String::from_str("give a encode table with \"-t\""),
            BaseError::RadixTableMismatch { radix, table_len, .. } => {
                let mut text = String::from_str("Base is ");
                let radix_text = decimal(*radix);
                text.append(radix_text.as_str());
                text.append(", but table is ");
                let len_text = decimal(*table_len);
                text.append(len_text.as_str());
                text
            },
            BaseError::UnsupportedInputType { .. } => String::from_str(
                "This type of input is not expected",
            ),
            BaseError::UnknownCommand { .. } => String::from_str("Unknown plugin command "),
        }
    }
}

} // verus!

//! The command around the engine: it tells the shapes of input apart, checks
//! the radix and the table against each other, and runs the conversion.

use vstd::prelude::*;
use vstd::string::StrSliceExecFns;

use crate::alphabet::{all_known, decoded, is_first_unknown};
use crate::base::{convert, str_to_binary};
use crate::error::{BaseError, Span};
use crate::numeral::{be_bytes, digits_value};

verus! {

/// The value that the command is run on.
#[derive(Debug, PartialEq, Eq)]
pub enum Input {
    /// Digits that are already numbers, one per byte.
    Binary { val: Vec<u8> },
    /// Digits written as characters of a table; `span` is where the text stands.
    Text { text: String, span: Span },
    /// Any other value.
    Other,
}

/// What the caller said beside the input. Each argument arrives as its reader
/// left it: read, absent, or failed with the reader's error `E`, which the
/// command passes on untouched if it comes to need that argument.
#[derive(Debug, PartialEq, Eq)]
pub struct Call<E> {
    /// Where the call stands.
    pub head: Span,
    /// The radix.
    pub base: Result<Option<usize>, E>,
    /// The table.
    pub table: Result<Option<String>, E>,
}

/// The bytes that the command produced.
#[derive(Debug, PartialEq, Eq)]
pub struct Binary {
    pub val: Vec<u8>,
    pub span: Span,
}

/// Why a run produced nothing.
#[derive(Debug, PartialEq, Eq)]
pub enum RunError<E> {
    /// An argument that the command needed could not be read.
    Argument(E),
    /// The command refused the call.
    Refused(BaseError),
}

/// The name the conversion is called by.
pub open spec fn command_name() -> Seq<char> {
    "from base"@
}

/// What a run on bytes owes.
pub open spec fn binary_outcome<E>(
    call: Call<E>,
    val: Seq<u8>,
    result: Result<Binary, RunError<E>>,
) -> bool {
    match call.base {
        Err(e) => result == Err::<Binary, RunError<E>>(RunError::Argument(e)),
        Ok(None) => result == Err::<Binary, RunError<E>>(
            RunError::Refused(BaseError::MissingRadix { span: call.head }),
        ),
        Ok(Some(from)) => {
            &&& result matches Ok(out)
            &&& out.span == call.head
            &&& out.val@ == be_bytes(digits_value(val, from as nat))
        },
    }
}

/// What a run on text owes. The table is read first; the radix is read only
/// once a table is there, and has to be the table's length if it is given.
pub open spec fn text_outcome<E>(
    call: Call<E>,
    text: Seq<char>,
    span: Span,
    result: Result<Binary, RunError<E>>,
) -> bool {
    match call.table {
        Err(e) => result == Err::<Binary, RunError<E>>(RunError::Argument(e)),
        Ok(None) => result == Err::<Binary, RunError<E>>(
            RunError::Refused(BaseError::MissingTable { span: call.head }),
        ),
        Ok(Some(table)) => match call.base {
            Err(e) => result == Err::<Binary, RunError<E>>(RunError::Argument(e)),
            Ok(Some(from)) if from as nat != table@.len() => result == Err::<Binary, RunError<E>>(
                RunError::Refused(
                    BaseError::RadixTableMismatch {
                        radix: from,
                        table_len: table@.len() as usize,
                        span: call.head,
                    },
                ),
            ),
            _ => if all_known(text, table@) {
                &&& result matches Ok(out)
                &&& out.span == call.head
                &&& out.val@ == be_bytes(digits_value(decoded(text, table@), table@.len()))
            } else {
                &&& result matches Err(
                    RunError::Refused(BaseError::UnknownCharacter { position, span: at }),
                )
                &&& at == span
                &&& is_first_unknown(text, table@, position as int)
            },
        },
    }
}

/// What `run` owes for each call: the one result that `name`, `call` and
/// `input` allow.
pub open spec fn outcome<E>(
    name: Seq<char>,
    call: Call<E>,
    input: Input,
    result: Result<Binary, RunError<E>>,
) -> bool {
    if name != command_name() {
        result == Err::<Binary, RunError<E>>(
            RunError::Refused(BaseError::UnknownCommand { span: call.head }),
        )
    } else {
        match input {
            Input::Binary { val } => binary_outcome(call, val@, result),
            Input::Text { text, span } => text_outcome(call, text@, span, result),
            Input::Other => result == Err::<Binary, RunError<E>>(
                RunError::Refused(BaseError::UnsupportedInputType { span: call.head }),
            ),
        }
    }
}

/// The command.
pub struct Base;

impl Base {
    /// The command, ready to run. It keeps nothing from one run to the next.
    pub fn new() -> (base: Self)
        ensures
            base == Base,
    {
        Base
    }

    /// Runs the command `name` on `input`.
    ///
    /// Bytes need a radix and are converted as they are. Text needs a table:
    /// it is decoded against the table and converted in the radix that the
    /// table's length gives. Whatever is refused is refused before anything
    /// is converted, the first reason found is the one returned, and an
    /// argument that failed to be read matters only if the run gets to it.
    pub fn run<E>(&mut self, name: &str, call: Call<E>, input: &Input) -> (result: Result<
        Binary,
        RunError<E>,
    >)
        ensures
            outcome(name@, call, *input, result),
            *final(self) == *old(self),
    {
        let head = call.head;
        if name.to_owned() != "from base".to_owned() {
            return Err(RunError::Refused(BaseError::UnknownCommand { span: head }));
        }
        match input {
            Input::Binary { val } => match call.base {
                Err(e) => Err(RunError::Argument(e)),
                Ok(None) => Err(RunError::Refused(BaseError::MissingRadix { span: head })),
                Ok(Some(from)) => Ok(Binary { val: convert(val.as_slice(), from, 16), span: head }),
            },
            Input::Text { text, span } => {
                let table = match call.table {
                    Err(e) => {
                        return Err(RunError::Argument(e));
                    },
                    Ok(None) => {
                        return Err(RunError::Refused(BaseError::MissingTable { span: head }));
                    },
                    Ok(Some(table)) => table,
                };
                let table_len = table.as_str().unicode_len();
                match call.base {
                    Err(e) => {
                        return Err(RunError::Argument(e));
                    },
                    Ok(Some(from)) => {
                        if table_len != from {
                            return Err(
                                RunError::Refused(
                                    BaseError::RadixTableMismatch {
                                        radix: from,
                                        table_len,
                                        span: head,
                                    },
                                ),
                            );
                        }
                    },
                    Ok(None) => {},
                }
                match str_to_binary(text.as_str(), table.as_str(), span) {
                    Ok(binary) => Ok(
                        Binary { val: convert(binary.as_slice(), table_len, 16), span: head },
                    ),
                    Err(e) => Err(RunError::Refused(e)),
                }
            },
            Input::Other => Err(RunError::Refused(BaseError::UnsupportedInputType { span: head })),
        }
    }
}

} // verus!

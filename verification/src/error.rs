//! The ways in which a run can fail before any byte is cut out.

use vstd::prelude::*;

verus! {

/// A flag that takes an operand.
#[derive(Clone, Copy, Debug, PartialEq, Eq, Structural)]
pub enum Flag {
    /// `--offs`
    Offs,
    /// `--size`
    Size,
    /// `--search`
    Search,
}

/// Why a run stops.
#[derive(Clone, Debug, PartialEq, Eq)]
pub enum Error {
    /// A flag stood last on the command line, with no operand behind it.
    MissingOperand { flag: Flag, message: String },
    /// The operand of a flag is not a number that the flag accepts.
    ParseError { flag: Flag, operand: String },
    /// A buffer is longer than the cursor can address.
    BufferTooLarge { len: usize },
}

/// An `Error` with the characters of its strings in place of the strings.
pub enum ErrorView {
    MissingOperand { flag: Flag, message: Seq<char> },
    ParseError { flag: Flag, operand: Seq<char> },
    BufferTooLarge { len: usize },
}

impl View for Error {
    type V = ErrorView;

    open spec fn view(&self) -> ErrorView {
        match *self {
            Error::MissingOperand { flag, message } => ErrorView::MissingOperand {
                flag,
                message: message@,
            },
            Error::ParseError { flag, operand } => ErrorView::ParseError { flag, operand: operand@ },
            Error::BufferTooLarge { len } => ErrorView::BufferTooLarge { len },
        }
    }
}

} // verus!

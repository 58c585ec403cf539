//! The commands that a command line spells out, one flag or file name at
//! a time.

use crate::arguments::Arguments;
use crate::bin_dumper::UNBOUNDED;
use crate::error::{Error, ErrorView, Flag};
use crate::number::{decimal_i32, parse_i32, MINUS, PLUS};
use vstd::prelude::*;
use vstd::slice::slice_subrange;
use vstd::string::StrSliceExecFns;
use vstd::utf8::*;

verus! {

/// Where `--offs` sends the cursor.
#[derive(Clone, Copy, Debug, PartialEq, Eq, Structural)]
pub enum CursorMove {
    /// To this offset.
    Absolute(i32),
    /// Forward by this much.
    Forward(i32),
    /// Backward by this much.
    Backward(i32),
}

/// One step of a run.
#[derive(Clone, Debug, PartialEq, Eq)]
pub enum Command {
    /// `--help`: show the usage text.
    Help,
    /// `--offs`: move the cursor.
    Offset(CursorMove),
    /// `--size`: cut out this many bytes at the cursor, then move the
    /// cursor past them.
    Size(i32),
    /// `--search`: put the cursor on the next place where these bytes
    /// stand.
    Search(Vec<u8>),
    /// Any other token: the name of the file to load next.
    File(String),
}

/// A `Command` with the contents of its pattern or file name in place of
/// the vector or string.
pub enum CommandView {
    Help,
    Offset(CursorMove),
    Size(i32),
    Search(Seq<u8>),
    File(Seq<char>),
}

impl View for Command {
    type V = CommandView;

    open spec fn view(&self) -> CommandView {
        match *self {
            Command::Help => CommandView::Help,
            Command::Offset(to) => CommandView::Offset(to),
            Command::Size(size) => CommandView::Size(size),
            Command::Search(pattern) => CommandView::Search(pattern@),
            Command::File(path) => CommandView::File(path@),
        }
    }
}

/// The flag that `token` spells, if it spells one that takes an operand.
pub open spec fn flag_of(token: Seq<char>) -> Option<Flag> {
    if token == "--offs"@ {
        Some(Flag::Offs)
    } else if token == "--size"@ {
        Some(Flag::Size)
    } else if token == "--search"@ {
        Some(Flag::Search)
    } else {
        None
    }
}

/// What is said of a flag whose operand is missing.
pub open spec fn missing_operand_message(flag: Flag) -> Seq<char> {
    match flag {
        Flag::Offs => "Expected an offset."@,
        Flag::Size => "Expected a size."@,
        Flag::Search => "Expected a string."@,
    }
}

/// The move that the operand of `--offs` asks for: forward where it
/// starts with `+`, backward where it starts with `-`, each by the number
/// behind the sign; else to the number that it writes.
pub open spec fn offset_operand(bytes: Seq<u8>) -> Option<CursorMove> {
    if bytes.len() > 0 && bytes[0] == PLUS {
        match decimal_i32(bytes.skip(1)) {
            Some(by) => Some(CursorMove::Forward(by)),
            None => None,
        }
    } else if bytes.len() > 0 && bytes[0] == MINUS {
        match decimal_i32(bytes.skip(1)) {
            Some(by) => Some(CursorMove::Backward(by)),
            None => None,
        }
    } else {
        match decimal_i32(bytes) {
            Some(to) => Some(CursorMove::Absolute(to)),
            None => None,
        }
    }
}

/// The size that the operand of `--size` asks for: `UNBOUNDED` for `all`,
/// else the number that it writes, which is not negative.
pub open spec fn size_operand(operand: Seq<char>) -> Option<i32> {
    if operand == "all"@ {
        Some(UNBOUNDED)
    } else {
        match decimal_i32(encode_utf8(operand)) {
            Some(size) => if size >= 0 {
                Some(size)
            } else {
                None
            },
            None => None,
        }
    }
}

/// The command that `flag` and its operand make, if the operand is one
/// that the flag accepts.
pub open spec fn flag_command(flag: Flag, operand: Seq<char>) -> Option<CommandView> {
    match flag {
        Flag::Offs => match offset_operand(encode_utf8(operand)) {
            Some(to) => Some(CommandView::Offset(to)),
            None => None,
        },
        Flag::Size => match size_operand(operand) {
            Some(size) => Some(CommandView::Size(size)),
            None => None,
        },
        Flag::Search => Some(CommandView::Search(encode_utf8(operand))),
    }
}

/// What the tokens behind index `position` say next: nothing where none
/// is left; else the command that the next token makes, alone or with
/// the token behind it as its operand; or the reason why they make none.
pub open spec fn next_command_of(tokens: Seq<Seq<char>>, position: int) -> Result<
    Option<CommandView>,
    ErrorView,
> {
    if position + 1 >= tokens.len() {
        Ok(None)
    } else if tokens[position + 1] == "--help"@ {
        Ok(Some(CommandView::Help))
    } else {
        match flag_of(tokens[position + 1]) {
            None => Ok(Some(CommandView::File(tokens[position + 1]))),
            Some(flag) => if position + 2 >= tokens.len() {
                Err(ErrorView::MissingOperand { flag, message: missing_operand_message(flag) })
            } else {
                match flag_command(flag, tokens[position + 2]) {
                    Some(command) => Ok(Some(command)),
                    None => Err(ErrorView::ParseError { flag, operand: tokens[position + 2] }),
                }
            },
        }
    }
}

/// How many tokens behind index `position` the next command takes up.
pub open spec fn tokens_taken(tokens: Seq<Seq<char>>, position: int) -> int {
    if position + 1 >= tokens.len() {
        0
    } else if flag_of(tokens[position + 1]).is_some() && tokens[position + 1] != "--help"@
        && position + 2 < tokens.len() {
        2
    } else {
        1
    }
}

/// A result of `next_command` with views in place of commands and errors.
pub open spec fn outcome_view(outcome: Result<Option<Command>, Error>) -> Result<
    Option<CommandView>,
    ErrorView,
> {
    match outcome {
        Ok(Some(command)) => Ok(Some(command@)),
        Ok(None) => Ok(None),
        Err(error) => Err(error@),
    }
}

/// Whether two slices hold the same bytes.
fn same_bytes(a: &[u8], b: &[u8]) -> (res: bool)
    ensures
        res == (a@ == b@),
{
    if a.len() != b.len() {
        return false;
    }
    let mut at: usize = 0;
    while at < a.len()
        invariant
            at <= a@.len(),
            a@.len() == b@.len(),
            forall|i: int| 0 <= i < at ==> a@[i] == b@[i],
        decreases a@.len() - at,
    {
        if a[at] != b[at] {
            return false;
        }
        at = at + 1;
    }
    assert(a@ =~= b@);
    true
}

/// Whether two strings hold the same characters.
fn same_text(a: &str, b: &str) -> (res: bool)
    ensures
        res == (a@ == b@),
{
    let res: bool = same_bytes(a.as_bytes(), b.as_bytes());
    proof {
        encode_utf8_decode_utf8(a@);
        encode_utf8_decode_utf8(b@);
    }
    res
}

/// Reads the operand of `--offs`.
pub fn parse_offset(bytes: &[u8]) -> (res: Option<CursorMove>)
    ensures
        res == offset_operand(bytes@),
{
    let len: usize = bytes.len();
    if len > 0 && bytes[0] == PLUS {
        let rest: &[u8] = slice_subrange(bytes, 1, len);
        assert(rest@ =~= bytes@.skip(1));
        match parse_i32(rest) {
            Some(by) => Some(CursorMove::Forward(by)),
            None => None,
        }
    } else if len > 0 && bytes[0] == MINUS {
        let rest: &[u8] = slice_subrange(bytes, 1, len);
        assert(rest@ =~= bytes@.skip(1));
        match parse_i32(rest) {
            Some(by) => Some(CursorMove::Backward(by)),
            None => None,
        }
    } else {
        match parse_i32(bytes) {
            Some(to) => Some(CursorMove::Absolute(to)),
            None => None,
        }
    }
}

/// Reads the operand of `--size`.
pub fn parse_size(operand: &str) -> (res: Option<i32>)
    ensures
        res == size_operand(operand@),
{
    if same_text(operand, "all") {
        Some(UNBOUNDED)
    } else {
        match parse_i32(operand.as_bytes()) {
            Some(size) => if size >= 0 {
                Some(size)
            } else {
                None
            },
            None => None,
        }
    }
}

/// Reads the next command off the command line, and moves the position
/// behind it.
pub fn next_command(args: &mut Arguments) -> (res: Result<Option<Command>, Error>)
    ensures
        final(args).tokens() == old(args).tokens(),
        outcome_view(res) == next_command_of(old(args).tokens(), old(args).position() as int),
        final(args).position() == old(args).position() + tokens_taken(
            old(args).tokens(),
            old(args).position() as int,
        ),
{
    let token: String = match args.get_next() {
        Some(token) => token.clone(),
        None => {
            return Ok(None);
        },
    };
    if same_text(token.as_str(), "--help") {
        Ok(Some(Command::Help))
    } else if same_text(token.as_str(), "--offs") {
        match args.get_next_check("Expected an offset.") {
            Err(message) => Err(Error::MissingOperand { flag: Flag::Offs, message }),
            Ok(operand) => match parse_offset(operand.as_str().as_bytes()) {
                Some(to) => Ok(Some(Command::Offset(to))),
                None => Err(Error::ParseError { flag: Flag::Offs, operand }),
            },
        }
    } else if same_text(token.as_str(), "--size") {
        match args.get_next_check("Expected a size.") {
            Err(message) => Err(Error::MissingOperand { flag: Flag::Size, message }),
            Ok(operand) => match parse_size(operand.as_str()) {
                Some(size) => Ok(Some(Command::Size(size))),
                None => Err(Error::ParseError { flag: Flag::Size, operand }),
            },
        }
    } else if same_text(token.as_str(), "--search") {
        match args.get_next_check("Expected a string.") {
            Err(message) => Err(Error::MissingOperand { flag: Flag::Search, message }),
            Ok(operand) => Ok(Some(Command::Search(operand.as_str().as_bytes_vec()))),
        }
    } else {
        Ok(Some(Command::File(token)))
    }
}

} // verus!

//! The engine: one loaded buffer and a cursor over it, driven by one
//! command after another.
//!
//! The engine reads no file and writes to no stream. Where a command
//! needs either, `execute` says so in the `Action` it returns, and the
//! caller does it: it shows the usage text, or reads the file and hands
//! the bytes to `load`.

use crate::bin_dumper::{dump_slice, has_match, search_result, BinDumper, MAX_LEN};
use crate::command::{Command, CommandView, CursorMove};
use crate::error::Error;
use vstd::prelude::*;

verus! {

/// What an engine holds: the bytes of the loaded file and the cursor.
pub struct State {
    pub buffer: Seq<u8>,
    pub cursor: int,
}

/// What an engine can be asked to do to its state.
pub enum Op {
    /// Move the cursor.
    Move(CursorMove),
    /// Cut out a window of this size at the cursor, then move the cursor
    /// forward by the size.
    Dump(i32),
    /// Put the cursor on the next match of the pattern.
    Search(Seq<u8>),
    /// Take these bytes as the buffer, with the cursor at its start.
    Load(Seq<u8>),
}

/// `value` where a cursor can hold it, else the nearest that it can hold.
pub open spec fn saturate(value: int) -> int {
    if value < i32::MIN {
        i32::MIN as int
    } else if value > i32::MAX {
        i32::MAX as int
    } else {
        value
    }
}

/// Where the move `to` sends a cursor that stands at `cursor`.
pub open spec fn moved(cursor: int, to: CursorMove) -> int {
    match to {
        CursorMove::Absolute(offset) => offset as int,
        CursorMove::Forward(by) => saturate(cursor + by),
        CursorMove::Backward(by) => saturate(cursor - by),
    }
}

/// The state that `op` leaves behind.
///
/// A move is not held to the buffer: the cursor may come to stand before
/// it or behind it. A dump moves the cursor by the size that was asked
/// for, whatever part of the window lay in the buffer. A search that
/// fails, and a buffer that is too long to load, change nothing.
pub open spec fn step(state: State, op: Op) -> State {
    match op {
        Op::Move(to) => State { buffer: state.buffer, cursor: moved(state.cursor, to) },
        Op::Dump(size) => State { buffer: state.buffer, cursor: saturate(state.cursor + size) },
        Op::Search(pattern) => match search_result(state.buffer, pattern, state.cursor) {
            Some(at) => State { buffer: state.buffer, cursor: at },
            None => state,
        },
        Op::Load(bytes) => if bytes.len() <= MAX_LEN {
            State { buffer: bytes, cursor: 0 }
        } else {
            state
        },
    }
}

/// The bytes that `op` puts out: the window for a dump, nothing for
/// anything else.
pub open spec fn emitted(state: State, op: Op) -> Seq<u8> {
    match op {
        Op::Dump(size) => dump_slice(state.buffer, state.cursor, size as int),
        _ => Seq::empty(),
    }
}

/// The state that `ops`, done in order, leave behind.
pub open spec fn run(state: State, ops: Seq<Op>) -> State
    decreases ops.len(),
{
    if ops.len() == 0 {
        state
    } else {
        step(run(state, ops.drop_last()), ops.last())
    }
}

/// The bytes that `ops`, done in order, put out.
pub open spec fn output(state: State, ops: Seq<Op>) -> Seq<u8>
    decreases ops.len(),
{
    if ops.len() == 0 {
        Seq::empty()
    } else {
        output(state, ops.drop_last()) + emitted(run(state, ops.drop_last()), ops.last())
    }
}

/// `ops`, `times` times over.
pub open spec fn repeated(ops: Seq<Op>, times: nat) -> Seq<Op>
    decreases times,
{
    if times == 0 {
        Seq::empty()
    } else {
        repeated(ops, (times - 1) as nat) + ops
    }
}

/// A run of one op is that op's step, and puts out what the op puts out.
pub proof fn lemma_run_one(state: State, op: Op)
    ensures
        run(state, seq![op]) == step(state, op),
        output(state, seq![op]) == emitted(state, op),
{
    let none = Seq::<Op>::empty();
    assert(seq![op].drop_last() =~= none);
    assert(run(state, none) == state);
    assert(output(state, none) =~= Seq::<u8>::empty());
    assert(output(state, seq![op]) =~= emitted(state, op));
}

/// Doing `first` and then `second` is doing `second` in the state that
/// `first` leaves behind, and puts out what `first` puts out and then
/// what `second` puts out there.
pub proof fn lemma_run_in_parts(state: State, first: Seq<Op>, second: Seq<Op>)
    ensures
        run(state, first + second) == run(run(state, first), second),
        output(state, first + second) == output(state, first) + output(
            run(state, first),
            second,
        ),
    decreases second.len(),
{
    if second.len() == 0 {
        assert(first + second =~= first);
    } else {
        assert((first + second).drop_last() =~= first + second.drop_last());
        lemma_run_in_parts(state, first, second.drop_last());
    }
}

/// What is done from a load on does not depend on what the engine held
/// before the load.
pub proof fn lemma_load_forgets(before: State, other: State, bytes: Seq<u8>, ops: Seq<Op>)
    requires
        bytes.len() <= MAX_LEN,
    ensures
        run(before, seq![Op::Load(bytes)] + ops) == run(other, seq![Op::Load(bytes)] + ops),
        output(before, seq![Op::Load(bytes)] + ops) == output(
            other,
            seq![Op::Load(bytes)] + ops,
        ),
{
    let load = seq![Op::Load(bytes)];
    lemma_run_one(before, Op::Load(bytes));
    lemma_run_one(other, Op::Load(bytes));
    lemma_run_in_parts(before, load, ops);
    lemma_run_in_parts(other, load, ops);
}

/// Loading a file puts the cursor at the start of its bytes, and the
/// output of a run over two files is the output of a run over the first
/// followed by that of a run over the second, each begun in any state
/// whatever.
pub proof fn law_files_are_independent(
    start: State,
    first: Seq<u8>,
    ops_first: Seq<Op>,
    second: Seq<u8>,
    ops_second: Seq<Op>,
    alone_first: State,
    alone_second: State,
)
    requires
        first.len() <= MAX_LEN,
        second.len() <= MAX_LEN,
    ensures
        step(start, Op::Load(first)) == (State { buffer: first, cursor: 0 }),
        step(run(start, seq![Op::Load(first)] + ops_first), Op::Load(second)) == (State {
            buffer: second,
            cursor: 0,
        }),
        output(
            start,
            (seq![Op::Load(first)] + ops_first) + (seq![Op::Load(second)] + ops_second),
        ) == output(alone_first, seq![Op::Load(first)] + ops_first) + output(
            alone_second,
            seq![Op::Load(second)] + ops_second,
        ),
{
    let run_first = seq![Op::Load(first)] + ops_first;
    let run_second = seq![Op::Load(second)] + ops_second;
    lemma_run_in_parts(start, run_first, run_second);
    lemma_load_forgets(start, alone_first, first, ops_first);
    lemma_load_forgets(run(start, run_first), alone_second, second, ops_second);
}

/// Moving to offset 0 and dumping no bytes there, any number of times
/// over, puts nothing out, whatever the engine holds.
pub proof fn law_empty_dump_repeats(start: State, times: nat)
    ensures
        output(
            start,
            repeated(seq![Op::Move(CursorMove::Absolute(0)), Op::Dump(0)], times),
        ) == Seq::<u8>::empty(),
    decreases times,
{
    let pair = seq![Op::Move(CursorMove::Absolute(0)), Op::Dump(0)];
    if times > 0 {
        let before = repeated(pair, (times - 1) as nat);
        law_empty_dump_repeats(start, (times - 1) as nat);
        lemma_run_in_parts(start, before, pair);
        let state = run(start, before);
        let to_start = Op::Move(CursorMove::Absolute(0));
        assert(pair =~= seq![to_start] + seq![Op::Dump(0)]);
        lemma_run_one(state, to_start);
        lemma_run_one(step(state, to_start), Op::Dump(0));
        lemma_run_in_parts(state, seq![to_start], seq![Op::Dump(0)]);
    }
}

/// A buffer store with a cursor over it.
pub struct Engine {
    dumper: BinDumper,
    offs: i32,
}

impl View for Engine {
    type V = State;

    closed spec fn view(&self) -> State {
        State { buffer: self.dumper@, cursor: self.offs as int }
    }
}

/// What the caller of `execute` is to do before the next command.
#[derive(Clone, Debug, PartialEq, Eq)]
pub enum Action {
    /// Nothing.
    Proceed,
    /// Show the usage text.
    ShowHelp,
    /// Read the file of this name and `load` its bytes.
    LoadFile(String),
}

/// The change of state that `command` asks for, if it asks for one.
pub open spec fn op_of(command: CommandView) -> Option<Op> {
    match command {
        CommandView::Help => None,
        CommandView::Offset(to) => Some(Op::Move(to)),
        CommandView::Size(size) => Some(Op::Dump(size)),
        CommandView::Search(pattern) => Some(Op::Search(pattern)),
        CommandView::File(_) => None,
    }
}

/// `a + b`, held to what a cursor can hold.
fn saturating_sum(a: i32, b: i32) -> (res: i32)
    ensures
        res == saturate(a + b),
{
    let sum: i64 = a as i64 + b as i64;
    if sum < -0x8000_0000 {
        -0x8000_0000
    } else if sum > 0x7fff_ffff {
        0x7fff_ffff
    } else {
        sum as i32
    }
}

/// `a - b`, held to what a cursor can hold.
fn saturating_difference(a: i32, b: i32) -> (res: i32)
    ensures
        res == saturate(a - b),
{
    let difference: i64 = a as i64 - b as i64;
    if difference < -0x8000_0000 {
        -0x8000_0000
    } else if difference > 0x7fff_ffff {
        0x7fff_ffff
    } else {
        difference as i32
    }
}

impl Engine {
    /// An engine with no file loaded and the cursor at 0.
    pub fn new() -> (res: Self)
        ensures
            res@ == (State { buffer: Seq::empty(), cursor: 0 }),
    {
        Self { dumper: BinDumper::new(), offs: 0 }
    }

    /// Where the cursor stands.
    pub fn cursor(&self) -> (res: i32)
        ensures
            res == self@.cursor,
    {
        self.offs
    }

    /// Takes `bytes` as the buffer and puts the cursor at its start. A
    /// buffer longer than `MAX_LEN` is refused, and changes nothing.
    pub fn load(&mut self, bytes: Vec<u8>) -> (res: Result<(), Error>)
        ensures
            final(self)@ == step(old(self)@, Op::Load(bytes@)),
            bytes@.len() <= MAX_LEN ==> res.is_ok(),
            bytes@.len() > MAX_LEN ==> res == Err::<(), Error>(
                Error::BufferTooLarge { len: bytes@.len() as usize },
            ),
    {
        let res: Result<(), Error> = self.dumper.load(bytes);
        if res.is_ok() {
            self.offs = 0;
        }
        res
    }

    /// Moves the cursor. The cursor is not held to the buffer.
    pub fn move_cursor(&mut self, to: CursorMove)
        ensures
            final(self)@ == step(old(self)@, Op::Move(to)),
    {
        self.offs = match to {
            CursorMove::Absolute(offset) => offset,
            CursorMove::Forward(by) => saturating_sum(self.offs, by),
            CursorMove::Backward(by) => saturating_difference(self.offs, by),
        };
    }

    /// Appends to `output` the window of `size` bytes at the cursor, as
    /// far as it lies in the buffer, and moves the cursor forward by
    /// `size`.
    pub fn dump(&mut self, size: i32, output: &mut Vec<u8>)
        ensures
            final(self)@ == step(old(self)@, Op::Dump(size)),
            final(output)@ == old(output)@ + emitted(old(self)@, Op::Dump(size)),
    {
        self.dumper.dump(self.offs, size, output);
        self.offs = saturating_sum(self.offs, size);
    }

    /// Puts the cursor on the first match of `pattern` from the cursor
    /// on, and says whether there is one. Where there is none, the cursor
    /// stays.
    pub fn search(&mut self, pattern: &[u8]) -> (found: bool)
        ensures
            final(self)@ == step(old(self)@, Op::Search(pattern@)),
            found == search_result(old(self)@.buffer, pattern@, old(self)@.cursor).is_some(),
            pattern@.len() == 0 ==> found && final(self)@ == old(self)@,
            !has_match(old(self)@.buffer, pattern@, 0) ==> !found && final(self)@ == old(self)@,
    {
        self.dumper.search(&mut self.offs, pattern)
    }

    /// Does what `command` asks of the engine, and says what it asks of
    /// the caller. The bytes that a dump cuts out are appended to
    /// `output`.
    pub fn execute(&mut self, command: Command, output: &mut Vec<u8>) -> (action: Action)
        ensures
            final(self)@ == match op_of(command@) {
                Some(op) => step(old(self)@, op),
                None => old(self)@,
            },
            final(output)@ == match op_of(command@) {
                Some(op) => old(output)@ + emitted(old(self)@, op),
                None => old(output)@,
            },
            match command {
                Command::Help => action == Action::ShowHelp,
                Command::File(path) => action == Action::LoadFile(path),
                _ => action == Action::Proceed,
            },
    {
        match command {
            Command::Help => Action::ShowHelp,
            Command::Offset(to) => {
                self.move_cursor(to);
                Action::Proceed
            },
            Command::Size(size) => {
                self.dump(size, output);
                Action::Proceed
            },
            Command::Search(pattern) => {
                self.search(pattern.as_slice());
                Action::Proceed
            },
            Command::File(path) => Action::LoadFile(path),
        }
    }
}

} // verus!

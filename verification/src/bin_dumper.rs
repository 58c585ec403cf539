//! The buffer of one loaded file, and the two ways of reading it: cutting
//! out a window of bytes, and searching for a pattern.

use crate::error::Error;
use vstd::prelude::*;

verus! {

/// The size that asks for everything up to the end of the buffer.
pub const UNBOUNDED: i32 = 0x7fff_ffff;

/// The longest buffer that a cursor can address.
pub const MAX_LEN: usize = 0x7fff_ffff;

/// Where a window that is asked for at `offset` starts in a buffer of
/// `len` bytes: at `offset`, brought into `0..=len`.
pub open spec fn dump_start(len: int, offset: int) -> int {
    if offset < 0 {
        0
    } else if offset > len {
        len
    } else {
        offset
    }
}

/// How many bytes a window of `size` bytes asked for at `offset` holds in
/// a buffer of `len` bytes. The part of the window that lies before the
/// buffer is taken off `size` first; what is left is cut at the buffer's
/// end, and is nothing if nothing is left.
pub open spec fn dump_count(len: int, offset: int, size: int) -> int {
    let requested = if offset < 0 {
        size + offset
    } else {
        size
    };
    let room = len - dump_start(len, offset);
    if requested < 0 {
        0
    } else if requested > room {
        room
    } else {
        requested
    }
}

/// The bytes of `buffer` that a window of `size` bytes at `offset` shows.
pub open spec fn dump_slice(buffer: Seq<u8>, offset: int, size: int) -> Seq<u8> {
    let start = dump_start(buffer.len() as int, offset);
    buffer.subrange(start, start + dump_count(buffer.len() as int, offset, size))
}

/// A window never reaches outside the buffer, and so never holds more
/// bytes than the buffer does.
pub proof fn lemma_dump_in_bounds(len: int, offset: int, size: int)
    requires
        0 <= len,
    ensures
        0 <= dump_start(len, offset) <= len,
        0 <= dump_count(len, offset, size) <= len,
        dump_start(len, offset) + dump_count(len, offset, size) <= len,
{
}

/// Bringing an offset into the buffer a second time changes nothing.
pub proof fn lemma_dump_start_settles(len: int, offset: int)
    requires
        0 <= len,
    ensures
        dump_start(len, dump_start(len, offset)) == dump_start(len, offset),
{
}

/// From an offset in the buffer, the size `UNBOUNDED` reaches the end of
/// the buffer.
pub proof fn lemma_unbounded_reaches_end(buffer: Seq<u8>, offset: int)
    requires
        buffer.len() <= MAX_LEN,
        0 <= offset <= buffer.len(),
    ensures
        dump_slice(buffer, offset, UNBOUNDED as int) == buffer.skip(offset),
{
    assert(dump_slice(buffer, offset, UNBOUNDED as int) =~= buffer.skip(offset));
}

/// Whether `pattern` stands in `buffer` at index `at`.
pub open spec fn matches_at(buffer: Seq<u8>, pattern: Seq<u8>, at: int) -> bool {
    &&& 0 <= at
    &&& at + pattern.len() <= buffer.len()
    &&& buffer.subrange(at, at + pattern.len()) == pattern
}

/// Whether `pattern` stands in `buffer` at some index from `from` on.
pub open spec fn has_match(buffer: Seq<u8>, pattern: Seq<u8>, from: int) -> bool {
    exists|at: int| from <= at && #[trigger] matches_at(buffer, pattern, at)
}

/// Whether `at` is the first index from `from` on at which `pattern`
/// stands in `buffer`.
pub open spec fn is_first_match(buffer: Seq<u8>, pattern: Seq<u8>, from: int, at: int) -> bool {
    &&& from <= at
    &&& matches_at(buffer, pattern, at)
    &&& forall|earlier: int|
        from <= earlier < at ==> !#[trigger] matches_at(buffer, pattern, earlier)
}

/// The first index from `from` on at which `pattern` stands in `buffer`,
/// if there is one.
pub open spec fn first_match(buffer: Seq<u8>, pattern: Seq<u8>, from: int) -> Option<int> {
    if has_match(buffer, pattern, from) {
        Some(choose|at: int| is_first_match(buffer, pattern, from, at))
    } else {
        None
    }
}

/// Where a search for `pattern` puts a cursor that stands at `cursor`, or
/// `None` where the search fails. The empty pattern is found where the
/// cursor stands, wherever that is. Any other pattern is looked for from
/// the cursor on, and from the start of the buffer if the cursor stands
/// before it.
pub open spec fn search_result(buffer: Seq<u8>, pattern: Seq<u8>, cursor: int) -> Option<int> {
    if pattern.len() == 0 {
        Some(cursor)
    } else {
        first_match(
            buffer,
            pattern,
            if cursor < 0 {
                0
            } else {
                cursor
            },
        )
    }
}

/// Of two first matches from the same index on, neither comes before the
/// other.
pub proof fn lemma_first_match_unique(
    buffer: Seq<u8>,
    pattern: Seq<u8>,
    from: int,
    a: int,
    b: int,
)
    requires
        is_first_match(buffer, pattern, from, a),
        is_first_match(buffer, pattern, from, b),
    ensures
        a == b,
{
}

/// `first_match` is the first match wherever there is one.
pub proof fn lemma_first_match(buffer: Seq<u8>, pattern: Seq<u8>, from: int, at: int)
    requires
        is_first_match(buffer, pattern, from, at),
    ensures
        first_match(buffer, pattern, from) == Some(at),
{
    assert(has_match(buffer, pattern, from));
    let chosen = choose|c: int| is_first_match(buffer, pattern, from, c);
    lemma_first_match_unique(buffer, pattern, from, at, chosen);
}

/// The bytes of the file that is loaded; empty while none is.
pub struct BinDumper {
    buffer: Vec<u8>,
}

impl View for BinDumper {
    type V = Seq<u8>;

    closed spec fn view(&self) -> Seq<u8> {
        self.buffer@
    }
}

impl BinDumper {
    #[verifier::type_invariant]
    spec fn addressable(&self) -> bool {
        self.buffer@.len() <= MAX_LEN
    }

    /// A store with no file loaded.
    pub fn new() -> (res: Self)
        ensures
            res@ == Seq::<u8>::empty(),
    {
        let buffer: Vec<u8> = Vec::new();
        Self { buffer }
    }

    /// Replaces the buffer by `bytes`. A buffer longer than `MAX_LEN` is
    /// refused, and the store keeps what it held.
    pub fn load(&mut self, bytes: Vec<u8>) -> (res: Result<(), Error>)
        ensures
            bytes@.len() <= MAX_LEN ==> res.is_ok() && final(self)@ == bytes@,
            bytes@.len() > MAX_LEN ==> res == Err::<(), Error>(
                Error::BufferTooLarge { len: bytes@.len() as usize },
            ) && final(self)@ == old(self)@,
    {
        let len: usize = bytes.len();
        if len <= MAX_LEN {
            self.buffer = bytes;
            Ok(())
        } else {
            Err(Error::BufferTooLarge { len })
        }
    }

    /// The number of bytes in the buffer.
    pub fn len(&self) -> (res: usize)
        ensures
            res == self@.len(),
            res <= MAX_LEN,
    {
        proof {
            use_type_invariant(self);
        }
        self.buffer.len()
    }

    /// The bytes in the buffer.
    pub fn bytes(&self) -> (res: &[u8])
        ensures
            res@ == self@,
    {
        self.buffer.as_slice()
    }

    /// The window of `size` bytes at `offset`, as far as it lies in the
    /// buffer.
    pub fn dump_to_buffer(&self, offset: i32, size: i32) -> (res: &[u8])
        ensures
            res@ == dump_slice(self@, offset as int, size as int),
            res@.len() == dump_count(self@.len() as int, offset as int, size as int),
            res@.len() <= self@.len(),
            0 <= dump_start(self@.len() as int, offset as int),
            dump_start(self@.len() as int, offset as int) + res@.len() <= self@.len(),
    {
        proof {
            use_type_invariant(self);
        }
        let len: i64 = self.buffer.len() as i64;
        let offset: i64 = offset as i64;
        let size: i64 = size as i64;
        let start: i64 = if offset < 0 {
            0
        } else if offset > len {
            len
        } else {
            offset
        };
        let requested: i64 = if offset < 0 {
            size + offset
        } else {
            size
        };
        let room: i64 = len - start;
        let count: i64 = if requested < 0 {
            0
        } else if requested > room {
            room
        } else {
            requested
        };
        let end: i64 = start + count;
        vstd::slice::slice_subrange(self.buffer.as_slice(), start as usize, end as usize)
    }

    /// Appends the window of `size` bytes at `offset` to `output`.
    pub fn dump(&self, offset: i32, size: i32, output: &mut Vec<u8>)
        ensures
            final(output)@ == old(output)@ + dump_slice(self@, offset as int, size as int),
    {
        let window: &[u8] = self.dump_to_buffer(offset, size);
        output.extend_from_slice(window);
    }

    /// Whether `pattern` stands in the buffer at index `at`.
    fn pattern_at(&self, pattern: &[u8], at: usize) -> (res: bool)
        requires
            at + pattern@.len() <= self@.len(),
        ensures
            res == matches_at(self@, pattern@, at as int),
    {
        proof {
            use_type_invariant(self);
        }
        let mut k: usize = 0;
        while k < pattern.len()
            invariant
                k <= pattern@.len(),
                at + pattern@.len() <= self.buffer@.len() <= MAX_LEN,
                forall|j: int| 0 <= j < k ==> self.buffer@[at + j] == pattern@[j],
            decreases pattern@.len() - k,
        {
            if self.buffer[at + k] != pattern[k] {
                assert(self@.subrange(at as int, at + pattern@.len())[k as int] != pattern@[k as int]);
                return false;
            }
            k = k + 1;
        }
        assert(self@.subrange(at as int, at + pattern@.len()) =~= pattern@);
        true
    }

    /// Looks for `pattern` from the cursor `offs` on, and from the start
    /// of the buffer if the cursor stands before it. Puts the cursor on
    /// the first match and returns `true`; where there is none, returns
    /// `false` and leaves the cursor alone. The empty pattern is found
    /// where the cursor stands.
    pub fn search(&self, offs: &mut i32, pattern: &[u8]) -> (found: bool)
        ensures
            found == search_result(self@, pattern@, *old(offs) as int).is_some(),
            found ==> Some(*final(offs) as int) == search_result(
                self@,
                pattern@,
                *old(offs) as int,
            ),
            !found ==> *final(offs) == *old(offs),
            pattern@.len() == 0 ==> found && *final(offs) == *old(offs),
            found && pattern@.len() > 0 ==> *final(offs) >= *old(offs) && is_first_match(
                self@,
                pattern@,
                if *old(offs) < 0 {
                    0
                } else {
                    *old(offs) as int
                },
                *final(offs) as int,
            ),
            !has_match(self@, pattern@, 0) ==> !found && *final(offs) == *old(offs),
    {
        proof {
            use_type_invariant(self);
        }
        if pattern.len() == 0 {
            proof {
                assert(self@.subrange(0, 0) =~= pattern@);
                assert(matches_at(self@, pattern@, 0));
            }
            return true;
        }
        let len: usize = self.buffer.len();
        let start: usize = if *offs < 0 {
            0
        } else {
            *offs as usize
        };
        if pattern.len() > len {
            return false;
        }
        let last: usize = len - pattern.len();
        let mut at: usize = start;
        while at <= last
            invariant
                *offs == *old(offs),
                start == if *offs < 0 {
                    0
                } else {
                    *offs as int
                },
                pattern@.len() > 0,
                start <= at,
                last + pattern@.len() == self@.len(),
                self@.len() <= MAX_LEN,
                forall|earlier: int|
                    start <= earlier < at ==> !#[trigger] matches_at(self@, pattern@, earlier),
            decreases last + 1 - at,
        {
            if self.pattern_at(pattern, at) {
                proof {
                    lemma_first_match(self@, pattern@, start as int, at as int);
                }
                *offs = at as i32;
                return true;
            }
            at = at + 1;
        }
        false
    }
}

} // verus!

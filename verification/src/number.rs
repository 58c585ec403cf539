//! Decimal numbers as they stand in an operand: an optional sign, then
//! digits.

use vstd::prelude::*;

verus! {

/// The byte `+`.
pub const PLUS: u8 = 0x2b;

/// The byte `-`.
pub const MINUS: u8 = 0x2d;

/// The byte `0`; the other digits follow it.
pub const ZERO: u8 = 0x30;

/// Whether `byte` is one of the digits `0` to `9`.
pub open spec fn is_digit(byte: u8) -> bool {
    ZERO <= byte <= ZERO + 9
}

/// Whether `bytes` holds digits only.
pub open spec fn all_digits(bytes: Seq<u8>) -> bool {
    forall|i: int| 0 <= i < bytes.len() ==> is_digit(#[trigger] bytes[i])
}

/// The number that the digits `bytes` write in base ten; a byte that is
/// no digit counts as `0`.
pub open spec fn digits_value(bytes: Seq<u8>) -> nat
    decreases bytes.len(),
{
    if bytes.len() == 0 {
        0
    } else {
        let last = if is_digit(bytes.last()) {
            (bytes.last() - ZERO) as nat
        } else {
            0
        };
        digits_value(bytes.drop_last()) * 10 + last
    }
}

/// Whether `bytes` starts with a sign.
pub open spec fn has_sign(bytes: Seq<u8>) -> bool {
    bytes.len() > 0 && (bytes[0] == PLUS || bytes[0] == MINUS)
}

/// The 32-bit number that `bytes` writes: one sign or none, then one
/// digit or more, and a value that 32 bits can hold. `None` for
/// anything else.
pub open spec fn decimal_i32(bytes: Seq<u8>) -> Option<i32> {
    let digits = if has_sign(bytes) {
        bytes.skip(1)
    } else {
        bytes
    };
    let value = if has_sign(bytes) && bytes[0] == MINUS {
        -(digits_value(digits) as int)
    } else {
        digits_value(digits) as int
    };
    if digits.len() > 0 && all_digits(digits) && i32::MIN <= value <= i32::MAX {
        Some(value as i32)
    } else {
        None
    }
}

/// What the first digits of a number write is no more than what all of
/// them write.
pub proof fn lemma_digits_value_grows(bytes: Seq<u8>, n: int)
    requires
        0 <= n <= bytes.len(),
    ensures
        digits_value(bytes.take(n)) <= digits_value(bytes),
    decreases bytes.len(),
{
    if n == bytes.len() {
        assert(bytes.take(n) =~= bytes);
    } else {
        assert(bytes.drop_last().take(n) =~= bytes.take(n));
        lemma_digits_value_grows(bytes.drop_last(), n);
    }
}

/// Reads a 32-bit decimal number.
pub fn parse_i32(bytes: &[u8]) -> (res: Option<i32>)
    ensures
        res == decimal_i32(bytes@),
{
    let len: usize = bytes.len();
    let signed: bool = len > 0 && (bytes[0] == PLUS || bytes[0] == MINUS);
    let negative: bool = signed && bytes[0] == MINUS;
    let first: usize = if signed {
        1
    } else {
        0
    };
    if first == len {
        return None;
    }
    let ghost digits = bytes@.skip(first as int);
    proof {
        assert(bytes@.skip(0) =~= bytes@);
    }
    let mut value: i64 = 0;
    let mut at: usize = first;
    while at < len
        invariant
            first <= at <= len,
            first < len,
            len == bytes@.len(),
            signed == has_sign(bytes@),
            negative == (signed && bytes@[0] == MINUS),
            first == if signed {
                1int
            } else {
                0int
            },
            digits == bytes@.skip(first as int),
            !signed ==> digits == bytes@,
            all_digits(digits.take(at - first)),
            value == digits_value(digits.take(at - first)),
            0 <= value <= 0x8000_0000,
        decreases len - at,
    {
        let byte: u8 = bytes[at];
        let ghost seen = digits.take(at - first + 1);
        proof {
            assert(seen.drop_last() =~= digits.take(at - first));
            assert(seen.last() == byte);
        }
        if byte < ZERO || byte > ZERO + 9 {
            assert(!is_digit(digits[at - first]));
            return None;
        }
        value = value * 10 + (byte - ZERO) as i64;
        assert(value == digits_value(seen));
        if value > 0x8000_0000 {
            proof {
                lemma_digits_value_grows(digits, at - first + 1);
            }
            return None;
        }
        at = at + 1;
    }
    proof {
        assert(digits.take(at - first) =~= digits);
    }
    if negative {
        Some((-value) as i32)
    } else if value <= 0x7fff_ffff {
        Some(value as i32)
    } else {
        None
    }
}

} // verus!

//! Reading a visibility level from text.
//!
//! A level is written as an unsigned number: decimal digits, or `0x` and
//! hexadecimal digits, in both cases with an optional `+` before the digits.

use vstd::prelude::*;

verus! {

/// What the text of a level turns out to be.
#[derive(Debug, Clone, Copy, PartialEq, Eq, Structural)]
pub enum LevelText {
    /// A number from 0 to 255: a level.
    Level(u8),
    /// A number from 256 to 65535: no level.
    OutOfRange(u16),
    /// No number, or one above 65535.
    NotANumber,
}

/// The value of a digit in base `radix`, for a byte that is one.
pub open spec fn digit_value(byte: u8, radix: nat) -> Option<nat> {
    let value: int = if 48 <= byte <= 57 {
        byte - 48
    } else if 97 <= byte <= 102 {
        byte - 87
    } else if 65 <= byte <= 70 {
        byte - 55
    } else {
        -1
    };
    if 0 <= value < radix {
        Some(value as nat)
    } else {
        None
    }
}

/// The number that a run of digits in base `radix` stands for; nothing if a
/// byte of the run is no digit. An empty run stands for 0.
pub open spec fn digits_value(digits: Seq<u8>, radix: nat) -> Option<nat>
    decreases digits.len(),
{
    if digits.len() == 0 {
        Some(0)
    } else {
        match (digits_value(digits.drop_last(), radix), digit_value(digits.last(), radix)) {
            (Some(front), Some(digit)) => Some(front * radix + digit),
            _ => None,
        }
    }
}

/// The number that `text` stands for in base `radix`: at least one digit,
/// with an optional `+` before the digits.
pub open spec fn unsigned_value(text: Seq<u8>, radix: nat) -> Option<nat> {
    let digits = if text.len() > 0 && text[0] == 43 {
        text.skip(1)
    } else {
        text
    };
    if digits.len() == 0 {
        None
    } else {
        digits_value(digits, radix)
    }
}

/// The number that the text of a level stands for: hexadecimal after `0x`,
/// decimal otherwise.
pub open spec fn level_value(text: Seq<u8>) -> Option<nat> {
    if text.len() >= 2 && text[0] == 48 && text[1] == 120 {
        unsigned_value(text.skip(2), 16)
    } else {
        unsigned_value(text, 10)
    }
}

/// What `text` is as the text of a level.
pub open spec fn level_of_text(text: Seq<u8>) -> LevelText {
    match level_value(text) {
        None => LevelText::NotANumber,
        Some(value) => if value <= 255 {
            LevelText::Level(value as u8)
        } else if value <= 65535 {
            LevelText::OutOfRange(value as u16)
        } else {
            LevelText::NotANumber
        },
    }
}

/// A number, or 65536 in place of any greater number.
pub open spec fn capped(value: Option<nat>) -> Option<nat> {
    match value {
        Some(number) => Some(if number < 65536 { number } else { 65536 }),
        None => None,
    }
}

/// The value of `byte` as a digit in base `radix`.
fn read_digit(byte: u8, radix: u32) -> (value: Option<u32>)
    requires
        radix == 10 || radix == 16,
    ensures
        match value {
            Some(digit) => digit_value(byte, radix as nat) == Some(digit as nat),
            None => digit_value(byte, radix as nat) is None,
        },
{
    let value: u32 = if 48 <= byte && byte <= 57 {
        (byte - 48) as u32
    } else if 97 <= byte && byte <= 102 {
        (byte - 87) as u32
    } else if 65 <= byte && byte <= 70 {
        (byte - 55) as u32
    } else {
        return None;
    };
    if value < radix {
        Some(value)
    } else {
        None
    }
}

/// The number that the bytes of `text` from `start` on stand for in base
/// `radix`, with 65536 in place of any greater number.
fn read_unsigned(text: &[u8], start: usize, radix: u32) -> (value: Option<u32>)
    requires
        start <= text.len(),
        radix == 10 || radix == 16,
    ensures
        match value {
            Some(number) => capped(unsigned_value(text@.skip(start as int), radix as nat)) == Some(
                number as nat,
            ),
            None => unsigned_value(text@.skip(start as int), radix as nat) is None,
        },
{
    let ghost rest = text@.skip(start as int);
    let mut first: usize = start;
    if first < text.len() && text[first] == 43 {
        first += 1;
    }
    let ghost digits = text@.skip(first as int);
    proof {
        if first > start {
            assert(rest[0] == text@[start as int]);
            assert(rest.skip(1) =~= digits);
        }
    }
    if first == text.len() {
        return None;
    }
    assert(unsigned_value(rest, radix as nat) == digits_value(digits, radix as nat));
    let mut number: u32 = 0;
    let mut i: usize = first;
    while i < text.len()
        invariant
            first <= i <= text.len(),
            radix == 10 || radix == 16,
            number <= 65536,
            digits == text@.skip(first as int),
            unsigned_value(text@.skip(start as int), radix as nat) == digits_value(
                digits,
                radix as nat,
            ),
            capped(digits_value(text@.subrange(first as int, i as int), radix as nat)) == Some(
                number as nat,
            ),
        decreases text.len() - i,
    {
        let ghost before = text@.subrange(first as int, i as int);
        let ghost after = text@.subrange(first as int, i + 1);
        proof {
            assert(after.drop_last() =~= before);
            assert(after.last() == text@[i as int]);
        }
        match read_digit(text[i], radix) {
            None => {
                proof {
                    assert(digits.take((i + 1 - first) as int) =~= after);
                    lemma_digits_prefix(digits, (i + 1 - first) as int, radix as nat);
                }
                return None;
            },
            Some(digit) => {
                let grown: u32 = if radix == 10 {
                    number * 10 + digit
                } else {
                    number * 16 + digit
                };
                number = if grown < 65536 {
                    grown
                } else {
                    65536
                };
            },
        }
        i += 1;
    }
    proof {
        assert(text@.subrange(first as int, text@.len() as int) =~= digits);
    }
    Some(number)
}

/// A run of digits with a prefix that stands for no number stands for none.
proof fn lemma_digits_prefix(digits: Seq<u8>, n: int, radix: nat)
    requires
        0 <= n <= digits.len(),
        digits_value(digits.take(n), radix) is None,
    ensures
        digits_value(digits, radix) is None,
    decreases digits.len() - n,
{
    if n < digits.len() {
        assert(digits.take(n + 1).drop_last() =~= digits.take(n));
        lemma_digits_prefix(digits, n + 1, radix);
    } else {
        assert(digits.take(n) =~= digits);
    }
}

/// Reads the text of a level.
pub fn parse_level(text: &[u8]) -> (level: LevelText)
    ensures
        level == level_of_text(text@),
{
    let value = if text.len() >= 2 && text[0] == 48 && text[1] == 120 {
        read_unsigned(text, 2, 16)
    } else {
        proof {
            assert(text@.skip(0) =~= text@);
        }
        read_unsigned(text, 0, 10)
    };
    match value {
        None => LevelText::NotANumber,
        Some(number) => if number <= 255 {
            LevelText::Level(number as u8)
        } else if number <= 65535 {
            LevelText::OutOfRange(number as u16)
        } else {
            LevelText::NotANumber
        },
    }
}

} // verus!

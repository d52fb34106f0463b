//! Hex digits: what a digit is worth, and the digit that writes a value.

use vstd::prelude::*;

verus! {

/// The byte `0`.
pub const DIGIT_0: u8 = 0x30;

/// The byte `9`.
pub const DIGIT_9: u8 = 0x39;

/// The byte `a`.
pub const LOWER_A: u8 = 0x61;

/// The byte `f`.
pub const LOWER_F: u8 = 0x66;

/// The byte `A`.
pub const UPPER_A: u8 = 0x41;

/// The byte `F`.
pub const UPPER_F: u8 = 0x46;

/// The value of the hex digit `c`, upper or lower case; `None` where `c` is
/// not a hex digit.
pub open spec fn hex_value(c: char) -> Option<u8> {
    if '0' <= c <= '9' {
        Some((c as int - '0' as int) as u8)
    } else if 'a' <= c <= 'f' {
        Some((c as int - 'a' as int + 10) as u8)
    } else if 'A' <= c <= 'F' {
        Some((c as int - 'A' as int + 10) as u8)
    } else {
        None
    }
}

/// Whether `c` is one of `0`-`9`, `a`-`f`, `A`-`F`.
pub open spec fn is_hex_digit(c: char) -> bool {
    hex_value(c) is Some
}

/// The sixteen digits in the order of their values, in lower case.
pub open spec fn hex_digits() -> Seq<char> {
    seq!['0', '1', '2', '3', '4', '5', '6', '7', '8', '9', 'a', 'b', 'c', 'd', 'e', 'f']
}

/// The lower-case digit that writes `value`, for `value` below 16.
pub open spec fn hex_digit(value: int) -> char
    recommends
        0 <= value < 16,
{
    hex_digits()[value]
}

/// `c` with an upper-case hex digit turned into lower case.
pub open spec fn to_lower(c: char) -> char {
    if 'A' <= c <= 'F' {
        (c as int - 'A' as int + 'a' as int) as char
    } else {
        c
    }
}

/// A digit is worth what it writes: reading `hex_digit(value)` gives `value`
/// back.
pub proof fn lemma_value_of_digit(value: int)
    requires
        0 <= value < 16,
    ensures
        hex_value(hex_digit(value)) == Some(value as u8),
{
}

/// Writing the value of a hex digit gives the digit back in lower case.
pub proof fn lemma_digit_of_value(c: char)
    requires
        is_hex_digit(c),
    ensures
        hex_value(c)->Some_0 < 16,
        hex_digit(hex_value(c)->Some_0 as int) == to_lower(c),
{
}

/// The value of the byte `b` read as a hex digit.
pub fn digit_value(b: u8) -> (value: Option<u8>)
    ensures
        value == hex_value(b as char),
{
    if DIGIT_0 <= b && b <= DIGIT_9 {
        Some(b - DIGIT_0)
    } else if LOWER_A <= b && b <= LOWER_F {
        Some(b - LOWER_A + 10)
    } else if UPPER_A <= b && b <= UPPER_F {
        Some(b - UPPER_A + 10)
    } else {
        None
    }
}

} // verus!

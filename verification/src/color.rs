//! Colours and their hex notation: `#rgb` and `#rrggbb` are read, `#rrggbb`
//! is written.

use vstd::prelude::*;
use vstd::utf8::encode_utf8;
use crate::error::DecodeError;
use crate::hex::{digit_value, hex_digit, hex_digits, hex_value, is_hex_digit, to_lower};

verus! {

/// The byte `#`, which every colour begins with.
pub const PREFIX: u8 = 0x23;

/// A colour of three 8-bit channels.
#[derive(Debug, Clone, Copy, PartialEq, Eq, Structural)]
pub struct Color {
    pub red: u8,
    pub green: u8,
    pub blue: u8,
}

/// The channel that one digit of the short form stands for: the digit taken
/// twice, which is 17 times its value.
pub open spec fn short_channel(digit: char) -> Option<u8> {
    match hex_value(digit) {
        Some(value) => Some((17 * value) as u8),
        None => None,
    }
}

/// The channel that two digits of the long form stand for.
pub open spec fn long_channel(high: char, low: char) -> Option<u8> {
    match (hex_value(high), hex_value(low)) {
        (Some(h), Some(l)) => Some((16 * h + l) as u8),
        _ => None,
    }
}

/// The colour of three channels, if all three were read.
pub open spec fn color_of(red: Option<u8>, green: Option<u8>, blue: Option<u8>) -> Result<
    Color,
    DecodeError,
> {
    match (red, green, blue) {
        (Some(red), Some(green), Some(blue)) => Ok(Color { red, green, blue }),
        _ => Err(DecodeError::HexDigitError),
    }
}

/// What the bytes of a text parse to. The prefix is looked at first, then
/// the length, then the digits.
pub open spec fn parse_bytes(bytes: Seq<u8>) -> Result<Color, DecodeError> {
    if bytes.len() == 0 || bytes[0] as char != '#' {
        Err(DecodeError::MissingPrefix)
    } else if bytes.len() == 4 {
        color_of(
            short_channel(bytes[1] as char),
            short_channel(bytes[2] as char),
            short_channel(bytes[3] as char),
        )
    } else if bytes.len() == 7 {
        color_of(
            long_channel(bytes[1] as char, bytes[2] as char),
            long_channel(bytes[3] as char, bytes[4] as char),
            long_channel(bytes[5] as char, bytes[6] as char),
        )
    } else {
        Err(DecodeError::InvalidLength(bytes.len() as usize))
    }
}

/// What a text parses to. Lengths are counted as `str::len` counts them,
/// in bytes of the UTF-8 encoding.
pub open spec fn parse_color(text: Seq<char>) -> Result<Color, DecodeError> {
    parse_bytes(encode_utf8(text))
}

/// Whether `text` begins with `#`.
pub open spec fn has_prefix(text: Seq<char>) -> bool {
    text.len() > 0 && text[0] == '#'
}

/// Whether `text` is a short form: `#` and three hex digits.
pub open spec fn is_short_form(text: Seq<char>) -> bool {
    &&& text.len() == 4
    &&& text[0] == '#'
    &&& forall|i: int| 1 <= i < 4 ==> is_hex_digit(#[trigger] text[i])
}

/// Whether `text` is a long form: `#` and six hex digits.
pub open spec fn is_long_form(text: Seq<char>) -> bool {
    &&& text.len() == 7
    &&& text[0] == '#'
    &&& forall|i: int| 1 <= i < 7 ==> is_hex_digit(#[trigger] text[i])
}

/// Whether `text` holds none of the upper-case digits `A` to `F`.
pub open spec fn is_lower_case(text: Seq<char>) -> bool {
    forall|i: int| 0 <= i < text.len() ==> to_lower(#[trigger] text[i]) == text[i]
}

/// The two lower-case digits that write one channel.
pub open spec fn render_channel(channel: u8) -> Seq<char> {
    seq![hex_digit(channel as int / 16), hex_digit(channel as int % 16)]
}

/// The long form of a colour: `#`, then two lower-case digits for each of
/// red, green and blue.
pub open spec fn render(color: Color) -> Seq<char> {
    seq!['#'] + render_channel(color.red) + render_channel(color.green) + render_channel(
        color.blue,
    )
}

/// One channel of the short form.
fn read_short(digit: u8) -> (channel: Option<u8>)
    ensures
        channel == short_channel(digit as char),
{
    match digit_value(digit) {
        Some(value) => Some(17 * value),
        None => None,
    }
}

/// One channel of the long form.
fn read_long(high: u8, low: u8) -> (channel: Option<u8>)
    ensures
        channel == long_channel(high as char, low as char),
{
    match (digit_value(high), digit_value(low)) {
        (Some(h), Some(l)) => Some(16 * h + l),
        _ => None,
    }
}

/// Appends the two digits of `channel` to `out`.
fn write_channel(out: &mut String, channel: u8)
    ensures
        final(out)@ == old(out)@ + render_channel(channel),
{
    let digits = "0123456789abcdef";
    proof {
        reveal_strlit("0123456789abcdef");
        assert(digits@ =~= hex_digits());
    }
    let high: usize = (channel / 16) as usize;
    let low: usize = (channel % 16) as usize;
    out.append(digits.substring_ascii(high, high + 1));
    out.append(digits.substring_ascii(low, low + 1));
}

impl Color {
    /// Reads a colour from `#rgb` or `#rrggbb`; digits of either case are
    /// taken.
    pub fn from_str(s: &str) -> (parsed: Result<Color, DecodeError>)
        ensures
            parsed == parse_color(s@),
    {
        let bytes = s.as_bytes();
        let len: usize = bytes.len();
        if len == 0 || bytes[0] != PREFIX {
            return Err(DecodeError::MissingPrefix);
        }
        if len == 4 {
            match (read_short(bytes[1]), read_short(bytes[2]), read_short(bytes[3])) {
                (Some(red), Some(green), Some(blue)) => Ok(Color { red, green, blue }),
                _ => Err(DecodeError::HexDigitError),
            }
        } else if len == 7 {
            match (
                read_long(bytes[1], bytes[2]),
                read_long(bytes[3], bytes[4]),
                read_long(bytes[5], bytes[6]),
            ) {
                (Some(red), Some(green), Some(blue)) => Ok(Color { red, green, blue }),
                _ => Err(DecodeError::HexDigitError),
            }
        } else {
            Err(DecodeError::InvalidLength(len))
        }
    }

    /// Writes the colour in the long form, `#rrggbb`, in lower case.
    pub fn to_string(&self) -> (text: String)
        ensures
            text@ == render(*self),
    {
        let mut text = String::from_str("#");
        proof {
            reveal_strlit("#");
        }
        write_channel(&mut text, self.red);
        write_channel(&mut text, self.green);
        write_channel(&mut text, self.blue);
        text
    }
}

} // verus!

//! What holds of the codec as a whole: reading and writing undo each other,
//! and every failure is the one that the input calls for.

use vstd::prelude::*;
use vstd::utf8::{char_u32_cast, encode_utf8, is_ascii_chars, is_ascii_chars_encode_utf8};
use crate::color::{
    has_prefix, is_long_form, is_lower_case, is_short_form, long_channel, parse_color, render,
    render_channel, short_channel, Color, PREFIX,
};
use crate::error::DecodeError;
use crate::fill::{
    decode, decode_item, decode_items, decode_text, encode, is_first_failure,
    lemma_first_failure, rainbow, FillView,
};
use crate::hex::{hex_value, is_hex_digit, lemma_digit_of_value, lemma_value_of_digit, to_lower};
use crate::shape::ShapeView;
use crate::text::{lemma_ascii_text, lemma_first_byte};

verus! {

/// The bytes of a text of `#` and hex digits are its characters.
proof fn lemma_bytes_of_form(text: Seq<char>)
    requires
        is_short_form(text) || is_long_form(text),
    ensures
        encode_utf8(text).len() == text.len(),
        forall|i: int| 0 <= i < text.len() ==> (#[trigger] encode_utf8(text)[i]) as char == text[i],
{
    assert forall|i: int| 0 <= i < text.len() implies '\0' <= #[trigger] text[i] <= '\u{7f}' by {
        assert(i == 0 || is_hex_digit(text[i]));
    }
    is_ascii_chars_encode_utf8(text);
}

/// A text has bytes exactly if it has characters, and its first byte is
/// `#` exactly if its first character is.
proof fn lemma_prefix_byte(text: Seq<char>)
    ensures
        encode_utf8(text).len() > 0 <==> text.len() > 0,
        has_prefix(text) <==> encode_utf8(text).len() > 0 && encode_utf8(text)[0] as char == '#',
{
    if text.len() > 0 {
        lemma_first_byte(text, PREFIX);
    }
}

/// Reading the two digits that write a channel gives the channel back.
proof fn lemma_read_written_channel(channel: u8)
    ensures
        render_channel(channel).len() == 2,
        is_hex_digit(render_channel(channel)[0]),
        is_hex_digit(render_channel(channel)[1]),
        to_lower(render_channel(channel)[0]) == render_channel(channel)[0],
        to_lower(render_channel(channel)[1]) == render_channel(channel)[1],
        long_channel(render_channel(channel)[0], render_channel(channel)[1]) == Some(channel),
{
    lemma_value_of_digit(channel as int / 16);
    lemma_value_of_digit(channel as int % 16);
}

/// Writing the channel that two digits stand for gives the digits back in
/// lower case.
proof fn lemma_write_long_channel(high: char, low: char)
    requires
        is_hex_digit(high),
        is_hex_digit(low),
    ensures
        long_channel(high, low) is Some,
        render_channel(long_channel(high, low)->Some_0) == seq![to_lower(high), to_lower(low)],
{
    lemma_digit_of_value(high);
    lemma_digit_of_value(low);
    let h = hex_value(high)->Some_0;
    let l = hex_value(low)->Some_0;
    assert((16 * h + l) / 16 == h && (16 * h + l) % 16 == l);
}

/// Writing the channel that one digit of the short form stands for gives
/// the digit twice, in lower case.
proof fn lemma_write_short_channel(digit: char)
    requires
        is_hex_digit(digit),
    ensures
        short_channel(digit) is Some,
        render_channel(short_channel(digit)->Some_0) == seq![to_lower(digit), to_lower(digit)],
{
    lemma_digit_of_value(digit);
    let v = hex_value(digit)->Some_0;
    assert((17 * v) / 16 == v && (17 * v) % 16 == v);
}

/// Reading what was written gives the colour back: `render` loses nothing.
pub proof fn lemma_parse_render(color: Color)
    ensures
        is_long_form(render(color)),
        is_lower_case(render(color)),
        parse_color(render(color)) == Ok::<Color, DecodeError>(color),
{
    let text = render(color);
    lemma_read_written_channel(color.red);
    lemma_read_written_channel(color.green);
    lemma_read_written_channel(color.blue);
    assert(text =~= seq!['#'] + render_channel(color.red) + render_channel(color.green)
        + render_channel(color.blue));
    assert(is_long_form(text));
    lemma_bytes_of_form(text);
}

/// A short form `#xyz` is read, and written back as `#xxyyzz`: each digit
/// twice, in lower case. What is written is never the short form itself.
pub proof fn lemma_short_form_doubles(text: Seq<char>)
    requires
        is_short_form(text),
    ensures
        parse_color(text) is Ok,
        render(parse_color(text)->Ok_0) == seq![
            '#',
            to_lower(text[1]),
            to_lower(text[1]),
            to_lower(text[2]),
            to_lower(text[2]),
            to_lower(text[3]),
            to_lower(text[3]),
        ],
        render(parse_color(text)->Ok_0) != text,
{
    lemma_bytes_of_form(text);
    lemma_write_short_channel(text[1]);
    lemma_write_short_channel(text[2]);
    lemma_write_short_channel(text[3]);
    assert(render(parse_color(text)->Ok_0).len() == 7);
}

/// A long form is read, and written back digit for digit in lower case: so
/// it comes back unchanged exactly if it held no upper-case digit.
pub proof fn lemma_long_form_round_trip(text: Seq<char>)
    requires
        is_long_form(text),
    ensures
        parse_color(text) is Ok,
        render(parse_color(text)->Ok_0) == Seq::new(7, |i: int| to_lower(text[i])),
        render(parse_color(text)->Ok_0) == text <==> is_lower_case(text),
        parse_color(render(parse_color(text)->Ok_0)) == parse_color(text),
{
    lemma_bytes_of_form(text);
    lemma_write_long_channel(text[1], text[2]);
    lemma_write_long_channel(text[3], text[4]);
    lemma_write_long_channel(text[5], text[6]);
    let lowered = Seq::new(7, |i: int| to_lower(text[i]));
    assert(render(parse_color(text)->Ok_0) =~= lowered);
    assert(is_lower_case(text) ==> lowered =~= text);
    assert(lowered == text ==> is_lower_case(text)) by {
        assert forall|i: int| 0 <= i < 7 implies lowered[i] == to_lower(#[trigger] text[i]) by {}
    }
    lemma_parse_render(parse_color(text)->Ok_0);
}

/// A text is a colour exactly if it is a short form or a long form.
pub proof fn lemma_parse_succeeds(text: Seq<char>)
    ensures
        parse_color(text) is Ok <==> is_short_form(text) || is_long_form(text),
{
    if is_short_form(text) {
        lemma_short_form_doubles(text);
    }
    if is_long_form(text) {
        lemma_long_form_round_trip(text);
    }
    if parse_color(text) is Ok {
        let bytes = encode_utf8(text);
        assert forall|i: int| 0 <= i < bytes.len() implies bytes[i] < 0x80 by {
            assert(i == 0 || is_hex_digit(bytes[i] as char));
        }
        lemma_ascii_text(text);
        is_ascii_chars_encode_utf8(text);
        assert forall|i: int| 0 <= i < text.len() implies #[trigger] text[i] == bytes[i] as char by {
            char_u32_cast(text[i], text[i] as u32);
        }
    }
}

/// A text that begins with `#` and is 4 or 7 bytes long, but is neither a
/// short form nor a long form, fails with `HexDigitError`.
pub proof fn lemma_hex_digit_error(text: Seq<char>)
    requires
        has_prefix(text),
        encode_utf8(text).len() == 4 || encode_utf8(text).len() == 7,
        !is_short_form(text),
        !is_long_form(text),
    ensures
        parse_color(text) == Err::<Color, DecodeError>(DecodeError::HexDigitError),
        decode_text(text) == Err::<FillView, DecodeError>(DecodeError::HexDigitError),
{
    lemma_prefix_byte(text);
    lemma_parse_succeeds(text);
}

/// A text that does not begin with `#` is no colour, and unless it is the
/// rainbow token it is no fill: both fail with `MissingPrefix`.
pub proof fn lemma_missing_prefix(text: Seq<char>)
    requires
        !has_prefix(text),
    ensures
        parse_color(text) == Err::<Color, DecodeError>(DecodeError::MissingPrefix),
        text != rainbow() ==> decode_text(text) == Err::<FillView, DecodeError>(
            DecodeError::MissingPrefix,
        ),
        decode_item(ShapeView::Text(text)) == Err::<Color, DecodeError>(
            DecodeError::MissingPrefix,
        ),
{
    lemma_prefix_byte(text);
}

/// A text that begins with `#` and is neither 4 nor 7 bytes long fails with
/// `InvalidLength`, which carries the length of the whole text.
pub proof fn lemma_invalid_length(text: Seq<char>)
    requires
        has_prefix(text),
        encode_utf8(text).len() != 4,
        encode_utf8(text).len() != 7,
    ensures
        parse_color(text) == Err::<Color, DecodeError>(
            DecodeError::InvalidLength(encode_utf8(text).len() as usize),
        ),
        decode_text(text) == Err::<FillView, DecodeError>(
            DecodeError::InvalidLength(encode_utf8(text).len() as usize),
        ),
        is_ascii_chars(text) ==> encode_utf8(text).len() == text.len(),
{
    lemma_prefix_byte(text);
    if is_ascii_chars(text) {
        is_ascii_chars_encode_utf8(text);
    }
}

/// Encoding a fill and decoding the result gives the fill back, whichever
/// of the three it is and however many colours a gradient holds.
pub proof fn lemma_decode_encode(fill: FillView)
    ensures
        decode(encode(fill)) == Ok::<FillView, DecodeError>(fill),
{
    match fill {
        FillView::Rainbow => {},
        FillView::Solid(color) => {
            lemma_parse_render(color);
        },
        FillView::Gradient(colors) => {
            let items = encode(fill)->List_0;
            assert forall|i: int| 0 <= i < items.len() implies (#[trigger] decode_item(items[i]))
                == Ok::<Color, DecodeError>(colors[i]) by {
                lemma_parse_render(colors[i]);
            }
            assert(decode_items(items)->Ok_0 =~= colors);
        },
    }
}

/// Where an item up to index `n` fails, some item is the first to fail.
proof fn lemma_some_first_failure(items: Seq<ShapeView>, n: int)
    requires
        0 <= n < items.len(),
        decode_item(items[n]) is Err,
    ensures
        exists|k: int| is_first_failure(items, k),
    decreases n,
{
    if forall|j: int| 0 <= j < n ==> (#[trigger] decode_item(items[j])) is Ok {
        assert(is_first_failure(items, n));
    } else {
        let j = choose|j: int| 0 <= j < n && !((#[trigger] decode_item(items[j])) is Ok);
        lemma_some_first_failure(items, j);
    }
}

/// A sequence decodes as a whole or not at all. It decodes exactly if every
/// item does, to the colours of the items in order. If it does not, some
/// item is the first to fail, and its error is the error of the whole.
pub proof fn lemma_all_or_nothing(items: Seq<ShapeView>)
    ensures
        decode(ShapeView::List(items)) is Ok <==> forall|i: int|
            0 <= i < items.len() ==> (#[trigger] decode_item(items[i])) is Ok,
        decode(ShapeView::List(items)) matches Ok(fill) ==> {
            &&& fill matches FillView::Gradient(colors)
            &&& colors.len() == items.len()
            &&& forall|i: int|
                0 <= i < items.len() ==> decode_item(#[trigger] items[i]) == Ok::<
                    Color,
                    DecodeError,
                >(colors[i])
        },
        decode(ShapeView::List(items)) is Err ==> exists|k: int| is_first_failure(items, k),
        forall|k: int| #[trigger]
            is_first_failure(items, k) ==> decode(ShapeView::List(items)) == Err::<
                FillView,
                DecodeError,
            >(decode_item(items[k])->Err_0),
{
    if decode(ShapeView::List(items)) is Err {
        let n = choose|n: int| 0 <= n < items.len() && !((#[trigger] decode_item(items[n])) is Ok);
        lemma_some_first_failure(items, n);
    }
    assert forall|k: int| #[trigger] is_first_failure(items, k) implies decode(
        ShapeView::List(items),
    ) == Err::<FillView, DecodeError>(decode_item(items[k])->Err_0) by {
        lemma_first_failure(items, k);
    }
}

/// The rainbow token stands for a fill only on its own: a sequence that
/// holds it anywhere does not decode.
pub proof fn lemma_rainbow_in_sequence(items: Seq<ShapeView>, k: int)
    requires
        0 <= k < items.len(),
        items[k] == ShapeView::Text(rainbow()),
    ensures
        decode_item(items[k]) == Err::<Color, DecodeError>(DecodeError::MissingPrefix),
        decode(ShapeView::List(items)) is Err,
{
    lemma_missing_prefix(rainbow());
}

} // verus!

//! Texts and their bytes: how the characters of a `str` show in its UTF-8
//! encoding, as far as the codec needs it.

use vstd::prelude::*;
use vstd::utf8::{char_u32_cast, encode_scalar, encode_utf8, encode_utf8_decode_utf8, is_ascii_chars};

verus! {

/// An ASCII scalar is encoded as itself, in one byte; the encoding of any
/// other scalar begins with a byte from `0xC0` on.
pub proof fn lemma_leading_byte(scalar: u32)
    ensures
        scalar <= 0x7F ==> encode_scalar(scalar) == seq![scalar as u8],
        scalar > 0x7F ==> encode_scalar(scalar).len() >= 1 && encode_scalar(scalar)[0] >= 0xC0,
{
    assert(scalar <= 0x7F ==> (scalar & 0x7F) as u8 == scalar) by (bit_vector);
    assert((0xC0 | ((scalar >> 6) & 0x1F) as u8) >= 0xC0) by (bit_vector);
    assert((0xE0 | ((scalar >> 12) & 0x0F) as u8) >= 0xE0) by (bit_vector);
    assert((0xF0 | ((scalar >> 18) & 0x7) as u8) >= 0xF0) by (bit_vector);
}

/// A text with a character has a byte, and its first byte is a given ASCII
/// byte exactly if its first character is that byte's character.
pub proof fn lemma_first_byte(text: Seq<char>, byte: u8)
    requires
        text.len() > 0,
        byte <= 0x7F,
    ensures
        encode_utf8(text).len() > 0,
        encode_utf8(text)[0] == byte <==> text[0] == byte as char,
{
    let scalar = text[0] as u32;
    lemma_leading_byte(scalar);
    char_u32_cast(text[0], scalar);
}

/// A text whose bytes are all below `0x80` holds ASCII characters only.
pub proof fn lemma_ascii_text(text: Seq<char>)
    requires
        forall|i: int| 0 <= i < encode_utf8(text).len() ==> encode_utf8(text)[i] < 0x80,
    ensures
        is_ascii_chars(text),
    decreases text.len(),
{
    if text.len() > 0 {
        let scalar = text[0] as u32;
        let rest = text.drop_first();
        lemma_leading_byte(scalar);
        assert(encode_utf8(text)[0] == encode_scalar(scalar)[0]);
        assert forall|i: int| 0 <= i < encode_utf8(rest).len() implies encode_utf8(rest)[i]
            < 0x80 by {
            assert(encode_utf8(rest)[i] == encode_utf8(text)[i + 1]);
        }
        lemma_ascii_text(rest);
        assert forall|i: int| 0 <= i < text.len() implies '\0' <= #[trigger] text[i]
            <= '\u{7f}' by {
            if i > 0 {
                assert(text[i] == rest[i - 1]);
            } else {
                char_u32_cast(text[0], scalar);
            }
        }
    }
}

/// Whether two texts hold the same characters.
pub fn same_text(a: &str, b: &str) -> (same: bool)
    ensures
        same == (a@ == b@),
{
    let left = a.as_bytes();
    let right = b.as_bytes();
    proof {
        encode_utf8_decode_utf8(a@);
        encode_utf8_decode_utf8(b@);
    }
    if left.len() != right.len() {
        return false;
    }
    let mut i: usize = 0;
    while i < left.len()
        invariant
            i <= left.len(),
            left.len() == right.len(),
            forall|j: int| 0 <= j < i ==> left@[j] == right@[j],
            left@ == encode_utf8(a@),
            right@ == encode_utf8(b@),
        decreases left.len() - i,
    {
        if left[i] != right[i] {
            return false;
        }
        i += 1;
    }
    assert(left@ =~= right@);
    true
}

} // verus!

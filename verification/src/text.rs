//! Texts as sequences of characters, and the bytes that encode them.
//!
//! A text is read as the sequence of its characters. A position in a text is a
//! byte offset into its UTF-8 encoding, as the matcher reports it. The lemmas
//! of this module carry what is seen in the bytes over to the characters.

use vstd::prelude::*;
use vstd::utf8::*;

verus! {

/// The characters that `text` holds between the byte offsets `from` and `to`
/// of its encoding. Both offsets are meant to stand between two characters.
pub open spec fn text_between(text: Seq<char>, from: int, to: int) -> Seq<char> {
    decode_utf8(encode_utf8(text).subrange(from, to))
}

/// Whether the byte offset `at` stands between two characters of `text`, at
/// its start or at its end.
pub open spec fn is_text_boundary(text: Seq<char>, at: int) -> bool {
    0 <= at <= encode_utf8(text).len() && is_char_boundary(encode_utf8(text), at)
}

/// The texts that `strings` hold, in their order.
pub open spec fn texts(strings: Seq<String>) -> Seq<Seq<char>> {
    Seq::new(strings.len(), |i: int| strings[i]@)
}

/// A text is empty exactly when its encoding is.
pub proof fn lemma_empty_encoding(chars: Seq<char>)
    ensures
        chars.len() == 0 <==> encode_utf8(chars).len() == 0,
{
    if chars.len() > 0 {
        assert(encode_scalar(chars[0] as u32).len() >= 1);
    }
}

/// An encoding that starts with the byte of a character below 128 encodes a
/// text that starts with that character.
pub proof fn lemma_leading_ascii(chars: Seq<char>, first: char)
    requires
        (first as u32) < 0x80,
        encode_utf8(chars).len() > 0,
        encode_utf8(chars)[0] == first as u8,
    ensures
        chars.len() > 0,
        chars[0] == first,
{
    lemma_empty_encoding(chars);
    let bytes = encode_utf8(chars);
    encode_utf8_first_scalar(chars);
    let byte = bytes[0];
    assert(byte & 0x7F == byte) by (bit_vector)
        requires
            byte < 0x80,
    ;
    let scalar = byte as u32;
    char_u32_cast(chars[0], scalar);
    char_u32_cast(first, scalar);
}

/// The encoding of a character below 128 is the one byte of that number.
pub proof fn lemma_ascii_scalar(c: char)
    requires
        (c as u32) < 0x80,
    ensures
        encode_scalar(c as u32) =~= seq![c as u8],
{
    let scalar = c as u32;
    assert((scalar & 0x7F) as u8 == scalar as u8) by (bit_vector)
        requires
            scalar < 0x80,
    ;
}

/// A text that holds a character below 128 has that byte in its encoding.
pub proof fn lemma_ascii_char_has_byte(chars: Seq<char>, index: int)
    requires
        0 <= index < chars.len(),
        (chars[index] as u32) < 0x80,
    ensures
        exists|k: int|
            0 <= k < encode_utf8(chars).len() && #[trigger] encode_utf8(chars)[k]
                == chars[index] as u8,
    decreases chars.len(),
{
    let head = encode_scalar(chars[0] as u32);
    let tail = encode_utf8(chars.drop_first());
    assert(encode_utf8(chars) == head + tail);
    if index == 0 {
        lemma_ascii_scalar(chars[0]);
        assert(encode_utf8(chars)[0] == chars[0] as u8);
    } else {
        lemma_ascii_char_has_byte(chars.drop_first(), index - 1);
        let k = choose|k: int|
            0 <= k < tail.len() && #[trigger] tail[k] == chars.drop_first()[index - 1] as u8;
        assert(encode_utf8(chars)[head.len() + k] == tail[k]);
    }
}

/// A text that ends with a character below 128 has an encoding that ends
/// with that byte.
pub proof fn lemma_trailing_ascii(chars: Seq<char>)
    requires
        chars.len() > 0,
        (chars.last() as u32) < 0x80,
    ensures
        encode_utf8(chars).len() > 0,
        encode_utf8(chars).last() == chars.last() as u8,
    decreases chars.len(),
{
    let head = encode_scalar(chars[0] as u32);
    let tail = encode_utf8(chars.drop_first());
    assert(encode_utf8(chars) == head + tail);
    if chars.len() == 1 {
        lemma_ascii_scalar(chars[0]);
        lemma_empty_encoding(chars.drop_first());
    } else {
        lemma_trailing_ascii(chars.drop_first());
        assert(chars.drop_first().last() == chars.last());
    }
}

/// The one byte of a character below 128 encodes the text of that one
/// character.
pub proof fn lemma_single_ascii(chars: Seq<char>, only: char)
    requires
        (only as u32) < 0x80,
        encode_utf8(chars) =~= seq![only as u8],
    ensures
        chars =~= seq![only],
{
    lemma_leading_ascii(chars, only);
    lemma_ascii_scalar(chars[0]);
    lemma_empty_encoding(chars.drop_first());
}

/// Where an encoding is cut between two characters, the two parts encode the
/// two parts of the text.
pub proof fn lemma_split_characters(whole: Seq<char>, left: Seq<char>, right: Seq<char>, at: int)
    requires
        is_text_boundary(whole, at),
        encode_utf8(left) == encode_utf8(whole).subrange(0, at),
        encode_utf8(right) == encode_utf8(whole).subrange(at, encode_utf8(whole).len() as int),
    ensures
        whole == left + right,
        left == text_between(whole, 0, at),
        right == text_between(whole, at, encode_utf8(whole).len() as int),
{
    let bytes = encode_utf8(whole);
    encode_utf8_valid_utf8(whole);
    encode_utf8_decode_utf8(whole);
    encode_utf8_decode_utf8(left);
    encode_utf8_decode_utf8(right);
    decode_utf8_split(bytes, at);
}

/// The byte after a byte below 128 starts a character, or ends the text.
pub proof fn lemma_boundary_after_ascii(chars: Seq<char>)
    requires
        encode_utf8(chars).len() > 0,
        encode_utf8(chars)[0] < 0x80,
    ensures
        is_text_boundary(chars, 1),
{
    encode_utf8_valid_utf8(chars);
    reveal_with_fuel(is_char_boundary, 2);
    reveal_with_fuel(valid_utf8, 2);
}

/// A byte below 128 starts a character.
pub proof fn lemma_boundary_at_ascii(chars: Seq<char>, at: int)
    requires
        0 <= at < encode_utf8(chars).len(),
        encode_utf8(chars)[at] < 0x80,
    ensures
        is_text_boundary(chars, at),
{
    encode_utf8_valid_utf8(chars);
    is_char_boundary_iff_not_is_continuation_byte(encode_utf8(chars), at);
}

/// The start and the end of a text are boundaries.
pub proof fn lemma_boundary_at_ends(chars: Seq<char>)
    ensures
        is_text_boundary(chars, 0),
        is_text_boundary(chars, encode_utf8(chars).len() as int),
{
    encode_utf8_valid_utf8(chars);
    is_char_boundary_start_end_of_seq(encode_utf8(chars));
}

/// A boundary of a text is a boundary of the text's first part, cut off at
/// a later boundary or at the same one.
pub proof fn lemma_boundary_in_first_part(whole: Seq<char>, part: Seq<char>, cut: int, at: int)
    requires
        is_text_boundary(whole, cut),
        is_text_boundary(whole, at),
        at <= cut,
        encode_utf8(part) == encode_utf8(whole).subrange(0, cut),
    ensures
        is_text_boundary(part, at),
{
    encode_utf8_valid_utf8(whole);
    encode_utf8_valid_utf8(part);
    lemma_boundary_at_ends(part);
    if at < cut {
        is_char_boundary_iff_not_is_continuation_byte(encode_utf8(whole), at);
        is_char_boundary_iff_not_is_continuation_byte(encode_utf8(part), at);
    }
}

/// Cuts `text` in two at the byte offset `at`.
pub fn split_text<'a>(text: &'a str, at: usize) -> (parts: (&'a str, &'a str))
    requires
        is_text_boundary(text@, at as int),
    ensures
        text@ == parts.0@ + parts.1@,
        parts.0@ == text_between(text@, 0, at as int),
        parts.1@ == text_between(text@, at as int, encode_utf8(text@).len() as int),
        encode_utf8(parts.0@) == encode_utf8(text@).subrange(0, at as int),
        encode_utf8(parts.1@) == encode_utf8(text@).subrange(
            at as int,
            encode_utf8(text@).len() as int,
        ),
{
    let parts = text.split_at(at);
    proof {
        lemma_split_characters(text@, parts.0@, parts.1@, at as int);
    }
    parts
}

/// Cuts `text` in three: what stands before the byte offset `start`, what
/// stands from there up to the byte offset `end`, and what follows.
pub fn split_around<'a>(text: &'a str, start: usize, end: usize) -> (parts: (
    &'a str,
    &'a str,
    &'a str,
))
    requires
        start <= end,
        is_text_boundary(text@, start as int),
        is_text_boundary(text@, end as int),
    ensures
        text@ == parts.0@ + parts.1@ + parts.2@,
        parts.0@ == text_between(text@, 0, start as int),
        parts.1@ == text_between(text@, start as int, end as int),
        parts.2@ == text_between(text@, end as int, encode_utf8(text@).len() as int),
{
    let (head, after) = split_text(text, end);
    proof {
        lemma_boundary_in_first_part(text@, head@, end as int, start as int);
    }
    let (before, between) = split_text(head, start);
    proof {
        let bytes = encode_utf8(text@);
        assert(encode_utf8(head@).subrange(0, start as int) =~= bytes.subrange(0, start as int));
        assert(encode_utf8(head@).subrange(start as int, encode_utf8(head@).len() as int)
            =~= bytes.subrange(start as int, end as int));
    }
    (before, between, after)
}

} // verus!

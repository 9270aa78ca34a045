//! The lines of a text.
//!
//! A line ends at a line feed, or at a carriage return that a line feed
//! follows; neither belongs to the line. The last line may end with the text
//! instead. A text that ends with a line feed has no empty line after it, and
//! an empty text has no line at all. A carriage return that no line feed
//! follows is a character of its line like any other.

use vstd::prelude::*;
use vstd::utf8::*;
use crate::text::{
    lemma_ascii_char_has_byte, lemma_boundary_after_ascii, lemma_boundary_at_ascii,
    lemma_empty_encoding, lemma_single_ascii, lemma_trailing_ascii, split_text,
};

verus! {

/// How many characters stand before the first line feed of `text`; the
/// length of `text` where it holds none.
pub open spec fn first_line_feed(text: Seq<char>) -> nat
    decreases text.len(),
{
    if text.len() == 0 || text[0] == '\n' {
        0
    } else {
        1 + first_line_feed(text.drop_first())
    }
}

/// `line` without the carriage return at its end, if it has one there.
pub open spec fn without_carriage_return(line: Seq<char>) -> Seq<char> {
    if line.len() > 0 && line.last() == '\r' {
        line.drop_last()
    } else {
        line
    }
}

/// The first line of a text that is not empty: what stands before its
/// first line feed, without a carriage return just before that line feed; all
/// of the text where it holds no line feed.
pub open spec fn first_line(text: Seq<char>) -> Seq<char> {
    let end = first_line_feed(text) as int;
    if end < text.len() {
        without_carriage_return(text.take(end))
    } else {
        text
    }
}

/// What follows the first line of `text` and its line end.
pub open spec fn after_first_line(text: Seq<char>) -> Seq<char> {
    let end = first_line_feed(text) as int;
    if end < text.len() {
        text.skip(end + 1)
    } else {
        Seq::empty()
    }
}

/// The lines of `text`, first to last.
pub open spec fn lines_of(text: Seq<char>) -> Seq<Seq<char>>
    decreases text.len(),
{
    if text.len() == 0 {
        Seq::empty()
    } else {
        seq![first_line(text)] + lines_of(after_first_line(text))
    }
}

/// The first line feed of a text stands where the text's first part ends, if
/// that part holds no line feed and the rest is empty or starts with one.
pub proof fn lemma_first_line_feed(before: Seq<char>, after: Seq<char>)
    requires
        forall|i: int| 0 <= i < before.len() ==> before[i] != '\n',
        after.len() == 0 || after[0] == '\n',
    ensures
        first_line_feed(before + after) == before.len(),
    decreases before.len(),
{
    let whole = before + after;
    if before.len() == 0 {
        assert(whole =~= after);
    } else {
        assert(whole[0] == before[0]);
        assert(whole.drop_first() =~= before.drop_first() + after);
        assert forall|i: int| 0 <= i < before.drop_first().len() implies before.drop_first()[i]
            != '\n' by {
            assert(before.drop_first()[i] == before[i + 1]);
        }
        lemma_first_line_feed(before.drop_first(), after);
    }
}

/// Takes the first line off `rest`: returns it, without its line end, and
/// the text that follows that line end; `None` for a text without a line,
/// the empty one.
pub fn next_line<'a>(rest: &'a str) -> (parts: Option<(&'a str, &'a str)>)
    ensures
        parts is None <==> rest@.len() == 0,
        parts matches Some((line, remaining)) ==> {
            &&& line@ == first_line(rest@)
            &&& remaining@ == after_first_line(rest@)
            &&& remaining@.len() < rest@.len()
            &&& encode_utf8(remaining@).len() < encode_utf8(rest@).len()
        },
{
    if rest.is_empty() {
        return None;
    }
    let bytes = rest.as_bytes();
    let length = bytes.len();
    let mut end: usize = 0;
    while end < length && bytes[end] != 0x0A
        invariant
            bytes@ == encode_utf8(rest@),
            length == bytes@.len(),
            end <= length,
            forall|k: int| 0 <= k < end ==> bytes@[k] != 0x0A,
        decreases length - end,
    {
        end += 1;
    }
    proof {
        lemma_empty_encoding(rest@);
    }
    if end == length {
        proof {
            reveal_strlit("");
            assert forall|i: int| 0 <= i < rest@.len() implies rest@[i] != '\n' by {
                if rest@[i] == '\n' {
                    lemma_ascii_char_has_byte(rest@, i);
                }
            }
            lemma_first_line_feed(rest@, Seq::<char>::empty());
            assert(rest@ + Seq::<char>::empty() =~= rest@);
            assert(""@ =~= Seq::<char>::empty());
        }
        Some((rest, ""))
    } else {
        proof {
            lemma_boundary_at_ascii(rest@, end as int);
        }
        let (line, tail) = split_text(rest, end);
        proof {
            lemma_boundary_after_ascii(tail@);
        }
        let (feed, remaining) = split_text(tail, 1);
        proof {
            assert(encode_utf8(feed@)[0] == bytes@[end as int]);
            lemma_single_ascii(feed@, '\n');
            assert forall|i: int| 0 <= i < line@.len() implies line@[i] != '\n' by {
                if line@[i] == '\n' {
                    lemma_ascii_char_has_byte(line@, i);
                }
            }
            lemma_first_line_feed(line@, tail@);
            assert(rest@.take(line@.len() as int) =~= line@);
            assert(rest@.skip(line@.len() as int + 1) =~= remaining@);
            lemma_empty_encoding(line@);
        }
        let width = line.len();
        if width > 0 && line.as_bytes()[width - 1] == 0x0D {
            proof {
                lemma_boundary_at_ascii(line@, width - 1);
            }
            let (content, carriage) = split_text(line, width - 1);
            proof {
                lemma_single_ascii(carriage@, '\r');
                assert(content@ =~= line@.drop_last());
            }
            Some((content, remaining))
        } else {
            proof {
                if line@.len() > 0 && line@.last() == '\r' {
                    lemma_trailing_ascii(line@);
                }
            }
            Some((line, remaining))
        }
    }
}

} // verus!

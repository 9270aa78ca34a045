//! Styles for the terminal.
//!
//! Styling is the work of the `colored` crate, which takes from the process
//! and its environment whether styles are written at all. So of a styled
//! text only this is known: it is the text as it was, or the text between
//! the code of its style and the code that ends every style.

use vstd::prelude::*;
use colored::Colorize;

verus! {

/// The colours that a report uses. Each is written in bold.
#[derive(Debug, PartialEq, Eq, Clone, Copy)]
pub enum Tint {
    Green,
    Cyan,
    Red,
}

/// The escape character, with which every code starts.
pub open spec fn escape() -> char {
    '\u{1b}'
}

/// The code that switches to bold type in the colour `tint`.
pub open spec fn style_code(tint: Tint) -> Seq<char> {
    match tint {
        Tint::Green => seq![escape(), '[', '1', ';', '3', '2', 'm'],
        Tint::Cyan => seq![escape(), '[', '1', ';', '3', '6', 'm'],
        Tint::Red => seq![escape(), '[', '1', ';', '3', '1', 'm'],
    }
}

/// The code that ends every style.
pub open spec fn reset_code() -> Seq<char> {
    seq![escape(), '[', '0', 'm']
}

/// Whether `out` is `body` as it is, or `body` between the code of `tint`
/// and the code that ends every style, or `body` before that last code
/// alone.
pub open spec fn is_dressed(body: Seq<char>, tint: Tint, out: Seq<char>) -> bool {
    ||| out == body
    ||| out == style_code(tint) + body + reset_code()
    ||| out == body + reset_code()
}

/// Whether `text` holds the code that ends every style somewhere within it.
pub open spec fn holds_reset(text: Seq<char>) -> bool {
    exists|at: int|
        0 <= at && at + reset_code().len() <= text.len() && #[trigger] text.subrange(
            at,
            at + reset_code().len(),
        ) == reset_code()
}

/// Whether `out` can be what styling `text` in `tint` gives: the text, with
/// or without the codes around it. Only for a text that itself holds the code
/// that ends every style is no more said than that some text stands there in
/// its place.
pub open spec fn is_painted(text: Seq<char>, tint: Tint, out: Seq<char>) -> bool {
    ||| is_dressed(text, tint, out)
    ||| (holds_reset(text) && exists|body: Seq<char>| #[trigger] is_dressed(body, tint, out))
}

/// Calls `colored::Colorize::color` and `bold` on `text`, and writes the
/// result out with `to_string`. Trusted: with styles off the text comes back
/// unchanged; with styles on it comes back between `ESC [ 1 ; 3x m`, where
/// `3x` is the colour's number, and `ESC [ 0 m`, and only a text that holds
/// `ESC [ 0 m` is changed itself. Whether styles are on is read from the
/// process more than once while the text is written, so the closing code
/// without the opening one is not ruled out.
#[verifier::external_body]
pub(crate) fn paint(text: &str, tint: Tint) -> (out: String)
    ensures
        is_painted(text@, tint, out@),
{
    let color = match tint {
        Tint::Green => colored::Color::Green,
        Tint::Cyan => colored::Color::Cyan,
        Tint::Red => colored::Color::Red,
    };
    text.color(color).bold().to_string()
}

} // verus!

//! How many columns a character takes.

use unicode_width::UnicodeWidthChar;
use vstd::prelude::*;

verus! {

/// What [`UnicodeWidthChar::width`] says of `ch`: its displayed width in
/// columns, none for a control character.
pub uninterp spec fn unicode_width_of(ch: char) -> Option<usize>;

/// [`UnicodeWidthChar::width`] is a function of the character. It gives no
/// width to the characters below U+0020 and from U+007F up to, not including,
/// U+00A0, the width 1 to the printable ASCII characters, and a width of at
/// most 3 to every other character.
#[verifier::external_body]
pub(crate) fn char_width(ch: char) -> (w: Option<usize>)
    ensures
        w == unicode_width_of(ch),
        w is None <==> (ch as u32) < 0x20 || 0x7f <= (ch as u32) < 0xa0,
        0x20 <= (ch as u32) < 0x7f ==> w == Some(1usize),
        w matches Some(n) ==> n <= 3,
{
    ch.width()
}

/// The columns that `ch` takes on the screen: its width, and 1 where it has
/// none.
pub open spec fn columns_of(ch: char) -> int {
    match unicode_width_of(ch) {
        Some(w) => w as int,
        None => 1,
    }
}

/// The columns that `ch` takes on the screen.
pub fn columns(ch: char) -> (w: usize)
    ensures
        w == columns_of(ch),
        w <= 3,
        (ch as u32) < 0xa0 ==> w == 1,
{
    match char_width(ch) {
        Some(w) => w,
        None => 1,
    }
}

} // verus!

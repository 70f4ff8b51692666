//! Character classes used by the escape-sequence scanner, and the one string
//! building block the library needs from std.

use vstd::prelude::*;

verus! {

/// The escape introducer: ESC, the first byte of an ANSI control sequence.
pub open spec fn is_escape_start(c: char) -> bool {
    c == '\u{1b}'
}

/// An ASCII letter: the terminator of an escape sequence in the scanner's
/// two-state model (the sequence runs from ESC to the first letter).
pub open spec fn is_escape_end(c: char) -> bool {
    (97 <= c as u32 && c as u32 <= 122) || (65 <= c as u32 && c as u32 <= 90)
}

/// An ASCII decimal digit.
pub open spec fn is_digit(c: char) -> bool {
    48 <= c as u32 && c as u32 <= 57
}

/// A character that takes no width on the status line: the bell, and the
/// ellipsis glyph the truncator itself plants (so an already-truncated line
/// does not inflate width accounting).
pub open spec fn is_zero_width(c: char) -> bool {
    c == '\u{7}' || c == '\u{2026}'
}

pub fn exec_is_escape_end(c: char) -> (r: bool)
    ensures
        r == is_escape_end(c),
{
    let u = c as u32;
    (97 <= u && u <= 122) || (65 <= u && u <= 90)
}

pub fn exec_is_digit(c: char) -> (r: bool)
    ensures
        r == is_digit(c),
{
    let u = c as u32;
    48 <= u && u <= 57
}

/// Relies on `String::push`: appends exactly one character at the end.
#[verifier::external_body]
pub(crate) fn push_char(s: &mut String, c: char)
    ensures
        final(s)@ == old(s)@.push(c),
{
    s.push(c)
}

} // verus!

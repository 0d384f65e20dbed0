//! Character classes the lexer is built on: whitespace, ASCII letters and
//! digits, and the Unicode alphabetic class used to continue identifiers.

use vstd::prelude::*;

verus! {

/// The code points with the Unicode `White_Space` property, the set that
/// `char::is_whitespace` accepts.
pub open spec fn is_ws(c: char) -> bool {
    let u = c as u32;
    (0x09 <= u && u <= 0x0D) || u == 0x20 || u == 0x85 || u == 0xA0 || u == 0x1680 || (0x2000
        <= u && u <= 0x200A) || u == 0x2028 || u == 0x2029 || u == 0x202F || u == 0x205F || u
        == 0x3000
}

/// ASCII letters, `A` to `Z` and `a` to `z`.
pub open spec fn is_ascii_letter(c: char) -> bool {
    let u = c as u32;
    (0x41 <= u && u <= 0x5A) || (0x61 <= u && u <= 0x7A)
}

/// ASCII digits, `0` to `9`.
pub open spec fn is_digit_char(c: char) -> bool {
    let u = c as u32;
    0x30 <= u && u <= 0x39
}

/// The Unicode `Alphabetic` property on code points outside ASCII. It is
/// decided by tables this library does not restate, so it is left without a
/// body and pinned down only by `ch_is_alphabetic`.
pub uninterp spec fn unicode_letter(c: char) -> bool;

/// The characters that may continue an identifier: exactly those that
/// `char::is_alphabetic` accepts. On ASCII these are the letters, and no
/// whitespace character is among them.
pub open spec fn is_letter(c: char) -> bool {
    if (c as u32) < 0x80 {
        is_ascii_letter(c)
    } else if is_ws(c) {
        false
    } else {
        unicode_letter(c)
    }
}

pub fn ch_is_whitespace(c: char) -> (r: bool)
    ensures
        r == is_ws(c),
{
    let u = c as u32;
    (0x09 <= u && u <= 0x0D) || u == 0x20 || u == 0x85 || u == 0xA0 || u == 0x1680 || (0x2000
        <= u && u <= 0x200A) || u == 0x2028 || u == 0x2029 || u == 0x202F || u == 0x205F || u
        == 0x3000
}

pub fn ch_is_ascii_alphabetic(c: char) -> (r: bool)
    ensures
        r == is_ascii_letter(c),
{
    let u = c as u32;
    (0x41 <= u && u <= 0x5A) || (0x61 <= u && u <= 0x7A)
}

pub fn ch_is_ascii_digit(c: char) -> (r: bool)
    ensures
        r == is_digit_char(c),
{
    let u = c as u32;
    0x30 <= u && u <= 0x39
}

/// Relies on `char::is_alphabetic`: true exactly on code points with the
/// Unicode `Alphabetic` property. Among ASCII code points these are the
/// letters, and no `White_Space` code point has the property.
#[verifier::external_body]
pub fn ch_is_alphabetic(c: char) -> (r: bool)
    ensures
        r == is_letter(c),
        (c as u32) >= 0x80 && !is_ws(c) ==> r == unicode_letter(c),
{
    c.is_alphabetic()
}

} // verus!

//! The character classes that the tokenizer tests against.
//!
//! Each class is a fixed set of code points, given once as a predicate for
//! contracts and once as an executable test that is proved to agree with it.

use vstd::prelude::*;

verus! {

/// The code points that may separate tokens: space, line feed, carriage
/// return and tab.
pub open spec fn is_whitespace(c: char) -> bool {
    c == ' ' || c == '\n' || c == '\r' || c == '\t'
}

/// The decimal digits `0` to `9`.
pub open spec fn is_digit(c: char) -> bool {
    '0' <= c && c <= '9'
}

/// The hexadecimal digits, in either case.
pub open spec fn is_hex_digit(c: char) -> bool {
    is_digit(c) || ('a' <= c && c <= 'f') || ('A' <= c && c <= 'F')
}

/// The code points that may follow a backslash inside a string.
pub open spec fn is_escapable(c: char) -> bool {
    c == '"' || c == '\\' || c == '/' || c == 'b' || c == 'f' || c == 'n' || c == 'r' || c == 't'
        || c == 'u'
}

/// The control characters: U+0000 to U+001F and U+007F to U+009F.
pub open spec fn is_control(c: char) -> bool {
    c <= '\u{1f}' || ('\u{7f}' <= c && c <= '\u{9f}')
}

/// The code points that may not stand unescaped inside a string: the quote,
/// the backslash and every control character.
pub open spec fn is_unsafe(c: char) -> bool {
    c == '"' || c == '\\' || is_control(c)
}

/// Tests whether `c` separates tokens.
pub fn whitespace(c: char) -> (r: bool)
    ensures
        r == is_whitespace(c),
{
    c == ' ' || c == '\n' || c == '\r' || c == '\t'
}

/// Tests whether `c` is a decimal digit.
pub fn digit(c: char) -> (r: bool)
    ensures
        r == is_digit(c),
{
    '0' <= c && c <= '9'
}

/// Tests whether `c` is a hexadecimal digit.
pub fn hex_digit(c: char) -> (r: bool)
    ensures
        r == is_hex_digit(c),
{
    digit(c) || ('a' <= c && c <= 'f') || ('A' <= c && c <= 'F')
}

/// Tests whether `c` may follow a backslash inside a string.
pub fn escapable(c: char) -> (r: bool)
    ensures
        r == is_escapable(c),
{
    c == '"' || c == '\\' || c == '/' || c == 'b' || c == 'f' || c == 'n' || c == 'r' || c == 't'
        || c == 'u'
}

/// Tests whether `c` is a control character.
pub fn control(c: char) -> (r: bool)
    ensures
        r == is_control(c),
{
    c <= '\u{1f}' || ('\u{7f}' <= c && c <= '\u{9f}')
}

/// Tests whether `c` may not stand unescaped inside a string.
pub fn unsafe_code_point(c: char) -> (r: bool)
    ensures
        r == is_unsafe(c),
{
    c == '"' || c == '\\' || control(c)
}

} // verus!

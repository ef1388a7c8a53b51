//! Character classes used by the scanners.
//!
//! The ASCII classes are written out in full, so that every contract about
//! them is closed. The two Unicode classes (alphabetic, alphanumeric) come
//! from `char`'s own methods behind uninterpreted names: their exact tables
//! are the standard library's business, and the tokenizer only needs that
//! they are functions of the character.

use vstd::prelude::*;

verus! {

/// ASCII whitespace: space, tab, line feed, form feed, carriage return.
pub open spec fn is_ws(c: char) -> bool {
    c == ' ' || c == '\t' || c == '\n' || c == '\x0C' || c == '\r'
}

pub fn char_is_ws(c: char) -> (r: bool)
    ensures
        r == is_ws(c),
{
    c == ' ' || c == '\t' || c == '\n' || c == '\x0C' || c == '\r'
}

/// ASCII decimal digit.
pub open spec fn is_digit(c: char) -> bool {
    '0' <= c && c <= '9'
}

pub fn char_is_digit(c: char) -> (r: bool)
    ensures
        r == is_digit(c),
{
    '0' <= c && c <= '9'
}

/// ASCII hexadecimal digit, either case.
pub open spec fn is_hex_digit(c: char) -> bool {
    is_digit(c) || ('a' <= c && c <= 'f') || ('A' <= c && c <= 'F')
}

pub fn char_is_hex_digit(c: char) -> (r: bool)
    ensures
        r == is_hex_digit(c),
{
    ('0' <= c && c <= '9') || ('a' <= c && c <= 'f') || ('A' <= c && c <= 'F')
}

/// Whether the character is alphabetic in the Unicode sense; the table
/// behind `char::is_alphabetic` is left uninterpreted.
pub uninterp spec fn is_alphabetic(c: char) -> bool;

/// Whether the character is alphanumeric in the Unicode sense; the table
/// behind `char::is_alphanumeric` is left uninterpreted.
pub uninterp spec fn is_alphanumeric(c: char) -> bool;

/// Relies on `char::is_alphabetic`: a pure function of the character.
#[verifier::external_body]
pub fn char_is_alphabetic(c: char) -> (r: bool)
    ensures
        r == is_alphabetic(c),
{
    c.is_alphabetic()
}

/// Relies on `char::is_alphanumeric`: a pure function of the character.
#[verifier::external_body]
pub fn char_is_alphanumeric(c: char) -> (r: bool)
    ensures
        r == is_alphanumeric(c),
{
    c.is_alphanumeric()
}

} // verus!

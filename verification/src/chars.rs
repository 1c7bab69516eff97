//! Character classes of Cool source text, case folding, and decimal numerals.

use vstd::prelude::*;

verus! {

/// Whether a character is blank.
pub open spec fn spec_is_blank(c: char) -> bool {
    c == ' ' || c == '\t' || c == '\n' || c == '\r' || c == '\u{c}' || c == '\u{b}'
}

/// Blank characters separate lexemes: space, tab, line feed, carriage return,
/// form feed and vertical tab.
#[verifier::when_used_as_spec(spec_is_blank)]
pub fn is_blank(c: char) -> (b: bool)
    ensures
        b == spec_is_blank(c),
{
    c == ' ' || c == '\t' || c == '\n' || c == '\r' || c == '\u{c}' || c == '\u{b}'
}

/// Whether a character is a decimal digit.
pub open spec fn spec_is_digit(c: char) -> bool {
    '0' <= c <= '9'
}

/// A decimal digit, `0` to `9`.
#[verifier::when_used_as_spec(spec_is_digit)]
pub fn is_digit(c: char) -> (b: bool)
    ensures
        b == spec_is_digit(c),
{
    '0' <= c && c <= '9'
}

/// Whether a character is an upper-case ASCII letter.
pub open spec fn spec_is_upper(c: char) -> bool {
    'A' <= c <= 'Z'
}

/// An upper-case ASCII letter, `A` to `Z`.
#[verifier::when_used_as_spec(spec_is_upper)]
pub fn is_upper(c: char) -> (b: bool)
    ensures
        b == spec_is_upper(c),
{
    'A' <= c && c <= 'Z'
}

/// Whether a character is a lower-case ASCII letter.
pub open spec fn spec_is_lower(c: char) -> bool {
    'a' <= c <= 'z'
}

/// A lower-case ASCII letter, `a` to `z`.
#[verifier::when_used_as_spec(spec_is_lower)]
pub fn is_lower(c: char) -> (b: bool)
    ensures
        b == spec_is_lower(c),
{
    'a' <= c && c <= 'z'
}

/// Whether a character may begin a name.
pub open spec fn spec_is_name_start(c: char) -> bool {
    is_upper(c) || is_lower(c) || c == '_'
}

/// A name begins with a letter or an underscore.
#[verifier::when_used_as_spec(spec_is_name_start)]
pub fn is_name_start(c: char) -> (b: bool)
    ensures
        b == spec_is_name_start(c),
{
    is_upper(c) || is_lower(c) || c == '_'
}

/// Whether a character may stand in a name.
pub open spec fn spec_is_name_char(c: char) -> bool {
    is_upper(c) || is_lower(c) || is_digit(c) || c == '_'
}

/// A name continues with letters, digits and underscores.
#[verifier::when_used_as_spec(spec_is_name_char)]
pub fn is_name_char(c: char) -> (b: bool)
    ensures
        b == spec_is_name_char(c),
{
    is_upper(c) || is_lower(c) || is_digit(c) || c == '_'
}

/// A character with an upper-case ASCII letter turned to lower case.
pub open spec fn spec_to_lower(c: char) -> char {
    if is_upper(c) {
        ((c as int) + 32) as char
    } else {
        c
    }
}

/// The lower-case form of an ASCII letter; every other character is itself.
#[verifier::when_used_as_spec(spec_to_lower)]
pub fn to_lower(c: char) -> (l: char)
    ensures
        l == spec_to_lower(c),
{
    if is_upper(c) {
        let code: u8 = c as u8;
        (code + 32) as char
    } else {
        c
    }
}

/// The upper-case form of an ASCII letter; every other character is itself.
pub open spec fn to_upper(c: char) -> char {
    if is_lower(c) {
        ((c as int) - 32) as char
    } else {
        c
    }
}

} // verus!

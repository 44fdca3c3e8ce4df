//! The character classes that the tokenizer dispatches on.

use vstd::prelude::*;

verus! {

/// An ASCII decimal digit.
pub open spec fn is_digit(c: char) -> bool {
    '0' <= c <= '9'
}

/// An ASCII letter of either case.
pub open spec fn is_letter(c: char) -> bool {
    'a' <= c <= 'z' || 'A' <= c <= 'Z'
}

/// One of the punctuation characters that a symbol may hold anywhere.
pub open spec fn is_symbol_punct(c: char) -> bool {
    c == '!' || c == '$' || c == '%' || c == '&' || c == '*' || c == '/' || c == ':' || c == '<'
        || c == '=' || c == '>' || c == '?' || c == '^' || c == '_' || c == '~' || c == '+'
        || c == '-'
}

/// A character that may begin a symbol.
pub open spec fn is_symbol_start(c: char) -> bool {
    is_letter(c) || is_symbol_punct(c)
}

/// A character that may continue a symbol.
pub open spec fn is_symbol_char(c: char) -> bool {
    is_symbol_start(c) || is_digit(c) || c == '.' || c == '@'
}

/// A character of a number's text: a digit or a dot.
pub open spec fn is_number_char(c: char) -> bool {
    is_digit(c) || c == '.'
}

/// Space, tab, carriage return or line feed.
pub open spec fn is_blank(c: char) -> bool {
    c == ' ' || c == '\t' || c == '\r' || c == '\n'
}

/// One of the six bracket characters.
pub open spec fn is_delim_char(c: char) -> bool {
    c == '(' || c == ')' || c == '[' || c == ']' || c == '{' || c == '}'
}

/// A character at which a symbol or a boolean literal ends.
pub open spec fn is_boundary(c: char) -> bool {
    is_blank(c) || is_delim_char(c)
}

/// A character outside the ASCII range.
pub open spec fn is_non_ascii(c: char) -> bool {
    c > '\x7f'
}

/// Tests for a decimal digit.
pub fn digit(c: char) -> (b: bool)
    ensures
        b == is_digit(c),
{
    '0' <= c && c <= '9'
}

/// Tests for a letter.
pub fn letter(c: char) -> (b: bool)
    ensures
        b == is_letter(c),
{
    ('a' <= c && c <= 'z') || ('A' <= c && c <= 'Z')
}

/// Tests whether `c` may begin a symbol.
pub fn symbol_start(c: char) -> (b: bool)
    ensures
        b == is_symbol_start(c),
{
    letter(c) || c == '!' || c == '$' || c == '%' || c == '&' || c == '*' || c == '/' || c == ':'
        || c == '<' || c == '=' || c == '>' || c == '?' || c == '^' || c == '_' || c == '~'
        || c == '+' || c == '-'
}

/// Tests whether `c` may continue a symbol.
pub fn symbol_char(c: char) -> (b: bool)
    ensures
        b == is_symbol_char(c),
{
    symbol_start(c) || digit(c) || c == '.' || c == '@'
}

/// Tests for a digit or a dot.
pub fn number_char(c: char) -> (b: bool)
    ensures
        b == is_number_char(c),
{
    digit(c) || c == '.'
}

/// Tests for a blank.
pub fn blank(c: char) -> (b: bool)
    ensures
        b == is_blank(c),
{
    c == ' ' || c == '\t' || c == '\r' || c == '\n'
}

/// Tests for a bracket character.
pub fn delim_char(c: char) -> (b: bool)
    ensures
        b == is_delim_char(c),
{
    c == '(' || c == ')' || c == '[' || c == ']' || c == '{' || c == '}'
}

/// Tests whether a symbol or a boolean literal ends at `c`.
pub fn boundary(c: char) -> (b: bool)
    ensures
        b == is_boundary(c),
{
    blank(c) || delim_char(c)
}

} // verus!

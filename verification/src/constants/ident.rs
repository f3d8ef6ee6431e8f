//! Character classes of Kumir identifiers, whitespace and numbers.

use vstd::prelude::*;

verus! {

/// What `char::is_alphabetic` answers for `c` (Unicode `Alphabetic`).
pub uninterp spec fn unicode_alphabetic(c: char) -> bool;

/// What `char::is_numeric` answers for `c` (Unicode `Nd`, `Nl` or `No`).
pub uninterp spec fn unicode_numeric(c: char) -> bool;

/// `char::is_alphabetic`: whether `c` has the Unicode `Alphabetic` property.
/// The table is Unicode's; the contract names the answer and states that an
/// ASCII character is alphabetic exactly when it is a letter.
#[verifier::external_body]
fn char_is_alphabetic(c: char) -> (r: bool)
    ensures
        r == unicode_alphabetic(c),
        (c as u32) < 0x80 ==> (r <==> (('a' <= c && c <= 'z') || ('A' <= c && c <= 'Z'))),
{
    c.is_alphabetic()
}

/// `char::is_numeric`: whether `c` is in a Unicode numeric category. The
/// contract names the answer and states that an ASCII character is numeric
/// exactly when it is a digit.
#[verifier::external_body]
fn char_is_numeric(c: char) -> (r: bool)
    ensures
        r == unicode_numeric(c),
        (c as u32) < 0x80 ==> (r <==> ('0' <= c && c <= '9')),
{
    c.is_numeric()
}

/// Combining diacritical marks (the five Unicode combining blocks).
pub open spec fn spec_is_unicode_combining_mark(c: char) -> bool {
    let u = c as u32;
    (0x0300 <= u && u <= 0x036F) || (0x1AB0 <= u && u <= 0x1AFF) || (0x1DC0 <= u && u <= 0x1DFF)
        || (0x20D0 <= u && u <= 0x20FF) || (0xFE20 <= u && u <= 0xFE2F)
}

/// Whether `c` is a combining diacritical mark.
pub fn is_unicode_combining_mark(c: char) -> (r: bool)
    ensures
        r == spec_is_unicode_combining_mark(c),
{
    let u = c as u32;
    (0x0300 <= u && u <= 0x036F) || (0x1AB0 <= u && u <= 0x1AFF) || (0x1DC0 <= u && u <= 0x1DFF)
        || (0x20D0 <= u && u <= 0x20FF) || (0xFE20 <= u && u <= 0xFE2F)
}

pub open spec fn spec_is_ident_start(c: char) -> bool {
    unicode_alphabetic(c) || c == '_'
}

/// Letters (any script) and underscore start an identifier.
pub fn is_ident_start(c: char) -> (r: bool)
    ensures
        r == spec_is_ident_start(c),
{
    c == '_' || char_is_alphabetic(c)
}

pub open spec fn spec_is_ident_continue(c: char) -> bool {
    unicode_alphabetic(c) || unicode_numeric(c) || c == '_' || spec_is_unicode_combining_mark(c)
}

/// Letters, digits, underscore and combining marks continue an identifier.
pub fn is_ident_continue(c: char) -> (r: bool)
    ensures
        r == spec_is_ident_continue(c),
{
    c == '_' || is_unicode_combining_mark(c) || char_is_alphabetic(c) || char_is_numeric(c)
}

pub open spec fn spec_is_whitespace(c: char) -> bool {
    c == ' ' || c == '\t' || c == '\r'
}

/// Insignificant whitespace: spaces, tabs and carriage returns. Newlines are
/// significant in Kumir and are not whitespace here.
pub fn is_whitespace(c: char) -> (r: bool)
    ensures
        r == spec_is_whitespace(c),
{
    c == ' ' || c == '\t' || c == '\r'
}

pub open spec fn spec_is_digit_start(c: char) -> bool {
    '0' <= c && c <= '9'
}

/// Checks if a character can start a number literal.
pub fn is_digit_start(c: char) -> (r: bool)
    ensures
        r == spec_is_digit_start(c),
{
    '0' <= c && c <= '9'
}

} // verus!

//! Laws of the lexical grammar's escapes.

use vstd::prelude::*;
use crate::text::{spec_hex_value, spec_is_ascii_hexdigit};
use super::model::spec_escape;

verus! {

/// A hexadecimal digit's value is below sixteen.
pub proof fn lemma_hex_digit_below_sixteen(c: char)
    requires
        spec_is_ascii_hexdigit(c),
    ensures
        spec_hex_value(c) < 16,
{
}

/// A `\xHH` escape (here `k` is the index right after the backslash)
/// names the character whose code point has `H` `H` as its two base-16
/// digits: divided by sixteen it gives the first digit's value, and the
/// remainder is the second's. The escape takes three characters.
pub proof fn lemma_hex_escape_value(s: Seq<char>, k: int)
    requires
        0 <= k,
        k + 3 <= s.len(),
        s[k] == 'x',
        spec_is_ascii_hexdigit(s[k + 1]),
        spec_is_ascii_hexdigit(s[k + 2]),
    ensures
        spec_escape(s, k).next == k + 3,
        spec_escape(s, k).ch matches Ok(c) && (c as u32) / 16 == spec_hex_value(s[k + 1])
            && (c as u32) % 16 == spec_hex_value(s[k + 2]),
        (spec_escape(s, k).ch matches Ok(c) && (c as u32) < 256),
{
    lemma_hex_digit_below_sixteen(s[k + 1]);
    lemma_hex_digit_below_sixteen(s[k + 2]);
    let hi = spec_hex_value(s[k + 1]);
    let lo = spec_hex_value(s[k + 2]);
    let v = (hi * 16 + lo) as u32;
    assert(v < 256);
    assert((v as char) as u32 == v);
}

} // verus!

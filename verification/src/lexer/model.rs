//! The lexical grammar of Kumir as functions on character sequences.
//!
//! Every scanner of the lexer is specified here as a function from the
//! source characters and a starting index to a [`Step`]: the token (or the
//! error) it produces, the index where scanning stopped, and the lexer state
//! afterwards.

use vstd::prelude::*;
use crate::constants::ident::{
    spec_is_digit_start, spec_is_ident_continue, spec_is_ident_start, spec_is_whitespace,
};
use crate::constants::keywords::keyword_of;
use crate::constants::operators::operator_of;
use crate::text::{without_underscores, is_scalar_value, spec_hex_value, spec_is_ascii_digit, spec_is_ascii_hexdigit, unicode_white_space};
use crate::types::{Token, TokenV};
use super::{LexerErrorKind, LexerState};

verus! {

/// The character at index `i`, if there is one.
pub open spec fn at(s: Seq<char>, i: int) -> Option<char> {
    if 0 <= i < s.len() {
        Some(s[i])
    } else {
        None
    }
}

/// Whether the character at index `i` is `c`.
pub open spec fn is_at(s: Seq<char>, i: int, c: char) -> bool {
    at(s, i) == Some(c)
}

/// Character classes that the scanners skip over.
#[derive(Clone, Copy, PartialEq, Eq, Structural)]
pub enum CharClass {
    Whitespace,
    NotNewline,
    DecimalPart,
    HexPart,
    BinaryPart,
    OctalPart,
    IdentContinue,
}

pub open spec fn in_class(cls: CharClass, c: char) -> bool {
    match cls {
        CharClass::Whitespace => spec_is_whitespace(c),
        CharClass::NotNewline => c != '\n',
        CharClass::DecimalPart => spec_is_ascii_digit(c) || c == '_',
        CharClass::HexPart => spec_is_ascii_hexdigit(c) || c == '_',
        CharClass::BinaryPart => c == '0' || c == '1' || c == '_',
        CharClass::OctalPart => ('0' <= c && c <= '7') || c == '_',
        CharClass::IdentContinue => spec_is_ident_continue(c),
    }
}

/// The first index at or after `i` whose character is not in `cls`.
pub open spec fn skip_while(s: Seq<char>, i: int, cls: CharClass) -> int
    decreases s.len() - i,
{
    if 0 <= i < s.len() && in_class(cls, s[i]) {
        skip_while(s, i + 1, cls)
    } else {
        i
    }
}

pub proof fn lemma_skip_while_bounds(s: Seq<char>, i: int, cls: CharClass)
    requires
        0 <= i <= s.len(),
    ensures
        i <= skip_while(s, i, cls) <= s.len(),
        forall|k: int| i <= k < skip_while(s, i, cls) ==> in_class(cls, #[trigger] s[k]),
        skip_while(s, i, cls) < s.len() ==> !in_class(cls, s[skip_while(s, i, cls)]),
    decreases s.len() - i,
{
    if i < s.len() && in_class(cls, s[i]) {
        lemma_skip_while_bounds(s, i + 1, cls);
    }
}

/// How an error is reported: its kind, the index whose position it carries,
/// and, for errors that cover a range, the index where that range ends.
pub struct Fail {
    pub kind: LexerErrorKind,
    pub at: int,
    pub span_end: Option<int>,
}

/// One scanning step: what it yields, where it stops and the state after it.
pub struct Step {
    pub out: Result<Option<TokenV>, Fail>,
    pub next: int,
    pub state: LexerState,
}

pub open spec fn ok_token(t: TokenV, next: int, state: LexerState) -> Step {
    Step { out: Ok(Some(t)), next, state }
}

pub open spec fn fail_at(kind: LexerErrorKind, at: int, span_end: Option<int>, next: int, state: LexerState) -> Step {
    Step { out: Err(Fail { kind, at, span_end }), next, state }
}

/// The result of scanning an escape sequence: a character or an error.
pub struct Escape {
    pub ch: Result<char, Fail>,
    pub next: int,
}

pub open spec fn esc_ok(v: u32, next: int) -> Escape {
    Escape { ch: Ok(v as char), next }
}

pub open spec fn esc_fail(kind: LexerErrorKind, at: int, next: int) -> Escape {
    Escape { ch: Err(Fail { kind, at, span_end: None }), next }
}

// ---------------------------------------------------------------------------
//                               ESCAPES
// ---------------------------------------------------------------------------

/// `\xNN` after the `x`: exactly two hex digits.
pub open spec fn spec_hex_escape(s: Seq<char>, j: int) -> Escape {
    if !(at(s, j) matches Some(c) && spec_is_ascii_hexdigit(c)) {
        esc_fail(LexerErrorKind::InvalidEscape, j, j)
    } else if !(at(s, j + 1) matches Some(c) && spec_is_ascii_hexdigit(c)) {
        esc_fail(LexerErrorKind::InvalidEscape, j, j + 1)
    } else {
        esc_ok((spec_hex_value(s[j]) * 16 + spec_hex_value(s[j + 1])) as u32, j + 2)
    }
}

/// The digits of `\u{...}` from index `k` on, `count` digits with value `v` read so far.
pub open spec fn spec_unicode_digits(s: Seq<char>, j: int, k: int, count: int, v: u32) -> Escape
    decreases s.len() - k,
{
    match at(s, k) {
        Some(c) => {
            if c == '}' {
                if count == 0 {
                    esc_fail(LexerErrorKind::InvalidUnicodeEscape, j, k + 1)
                } else if !is_scalar_value(v) {
                    esc_fail(LexerErrorKind::InvalidUnicodeEscape, j, k + 1)
                } else {
                    esc_ok(v, k + 1)
                }
            } else if spec_is_ascii_hexdigit(c) {
                if count >= 6 {
                    esc_fail(LexerErrorKind::InvalidUnicodeEscape, j, k)
                } else {
                    spec_unicode_digits(s, j, k + 1, count + 1, (v * 16 + spec_hex_value(c)) as u32)
                }
            } else {
                esc_fail(LexerErrorKind::InvalidUnicodeEscape, j, k)
            }
        },
        None => esc_fail(LexerErrorKind::InvalidUnicodeEscape, j, k),
    }
}

/// `\u{N...}` after the `u`: one to six hex digits naming a scalar value.
pub open spec fn spec_unicode_escape(s: Seq<char>, j: int) -> Escape {
    if !is_at(s, j, '{') {
        esc_fail(LexerErrorKind::InvalidUnicodeEscape, j, j)
    } else {
        spec_unicode_digits(s, j, j + 1, 0, 0)
    }
}

/// An escape sequence; `k` is the index right after the backslash.
pub open spec fn spec_escape(s: Seq<char>, k: int) -> Escape {
    match at(s, k) {
        Some(c) => {
            if c == 'n' {
                esc_ok('\n' as u32, k + 1)
            } else if c == 'r' {
                esc_ok('\r' as u32, k + 1)
            } else if c == 't' {
                esc_ok('\t' as u32, k + 1)
            } else if c == '\\' {
                esc_ok('\\' as u32, k + 1)
            } else if c == '"' {
                esc_ok('"' as u32, k + 1)
            } else if c == '\'' {
                esc_ok('\'' as u32, k + 1)
            } else if c == '0' {
                esc_ok(0, k + 1)
            } else if c == 'x' {
                spec_hex_escape(s, k + 1)
            } else if c == 'u' {
                spec_unicode_escape(s, k + 1)
            } else {
                esc_fail(LexerErrorKind::InvalidEscape, k, k + 1)
            }
        },
        None => esc_fail(LexerErrorKind::InvalidEscape, k, k),
    }
}

pub proof fn lemma_unicode_digits_bounds(s: Seq<char>, j: int, k: int, count: int, v: u32)
    requires
        0 <= k <= s.len(),
    ensures
        k <= spec_unicode_digits(s, j, k, count, v).next <= s.len(),
    decreases s.len() - k,
{
    if k < s.len() {
        let c = s[k];
        if c != '}' && spec_is_ascii_hexdigit(c) && count < 6 {
            lemma_unicode_digits_bounds(s, j, k + 1, count + 1, (v * 16 + spec_hex_value(c)) as u32);
        }
    }
}

/// An escape never moves backwards and never past the end.
pub proof fn lemma_escape_bounds(s: Seq<char>, k: int)
    requires
        0 <= k <= s.len(),
    ensures
        k <= spec_escape(s, k).next <= s.len(),
        k < s.len() ==> k < spec_escape(s, k).next,
{
    if k < s.len() && s[k] == 'u' && k + 1 < s.len() && s[k + 1] == '{' {
        lemma_unicode_digits_bounds(s, k + 1, k + 2, 0, 0);
    }
}

// ---------------------------------------------------------------------------
//                               COMMENTS
// ---------------------------------------------------------------------------

/// `| text` up to the end of the line.
pub open spec fn spec_scan_comment(s: Seq<char>, i: int, st: LexerState) -> Step {
    let j = skip_while(s, i + 1, CharClass::NotNewline);
    ok_token(TokenV::Comment(s.subrange(i + 1, j)), j, st)
}

/// `// text` or the doc comment `/// text`; one leading space is dropped.
pub open spec fn spec_scan_line_comment(s: Seq<char>, i: int, st: LexerState) -> Step {
    let is_doc = is_at(s, i + 2, '/');
    let k1 = if is_doc { i + 3 } else { i + 2 };
    let k2 = if is_at(s, k1, ' ') { k1 + 1 } else { k1 };
    let j = skip_while(s, k2, CharClass::NotNewline);
    let content = s.subrange(k2, j);
    ok_token(if is_doc { TokenV::DocComment(seq![content]) } else { TokenV::Comment(content) }, j, st)
}

// ---------------------------------------------------------------------------
//                               STRINGS
// ---------------------------------------------------------------------------

/// The body of a string literal from index `k`, with `acc` decoded so far.
pub open spec fn spec_string_body(s: Seq<char>, start: int, k: int, multiline: bool, acc: Seq<char>, st: LexerState) -> Step
    decreases s.len() - k,
{
    match at(s, k) {
        None => fail_at(LexerErrorKind::UnterminatedString, start, Some(k), k, st),
        Some(c) => {
            if c == '"' {
                if !multiline {
                    ok_token(TokenV::StringLiteral(acc), k + 1, st)
                } else if is_at(s, k + 1, '"') && is_at(s, k + 2, '"') {
                    ok_token(TokenV::StringLiteral(acc), k + 3, st)
                } else {
                    spec_string_body(s, start, k + 1, multiline, acc.push('"'), st)
                }
            } else if c == '\n' && !multiline {
                fail_at(LexerErrorKind::UnterminatedString, start, Some(k), k, st)
            } else if c == '\\' {
                let e = spec_escape(s, k + 1);
                proof {
                    lemma_escape_bounds(s, k + 1);
                }
                match e.ch {
                    Ok(ch) => spec_string_body(s, start, e.next, multiline, acc.push(ch), st),
                    Err(f) => Step { out: Err(f), next: e.next, state: st },
                }
            } else {
                spec_string_body(s, start, k + 1, multiline, acc.push(c), st)
            }
        },
    }
}

/// A string literal `"..."` or `"""..."""` starting at its opening quote.
pub open spec fn spec_scan_string(s: Seq<char>, i: int, st: LexerState) -> Step {
    if is_at(s, i + 1, '"') && is_at(s, i + 2, '"') {
        spec_string_body(s, i, i + 3, true, Seq::empty(), st)
    } else if is_at(s, i + 1, '"') {
        ok_token(TokenV::StringLiteral(Seq::empty()), i + 2, st)
    } else {
        spec_string_body(s, i, i + 1, false, Seq::empty(), st)
    }
}

/// The number of `#` at and after index `k`, up to `limit`.
pub open spec fn count_hashes(s: Seq<char>, k: int, limit: int) -> int
    decreases s.len() - k,
{
    if 0 < limit && is_at(s, k, '#') {
        1 + count_hashes(s, k + 1, limit - 1)
    } else {
        0
    }
}

/// `n` copies of `#`.
pub open spec fn hashes(n: int) -> Seq<char>
    decreases n,
{
    if n <= 0 {
        Seq::empty()
    } else {
        hashes(n - 1).push('#')
    }
}

/// The body of a raw string from index `k`, closed by `"` and `hash_count` hashes.
pub open spec fn spec_raw_body(s: Seq<char>, start: int, k: int, hash_count: int, acc: Seq<char>, st: LexerState) -> Step
    decreases s.len() - k,
{
    match at(s, k) {
        None => fail_at(LexerErrorKind::UnterminatedString, start, Some(k), k, st),
        Some(c) => {
            if c == '"' {
                let closing = count_hashes(s, k + 1, hash_count);
                proof {
                    lemma_count_hashes_bounds(s, k + 1, hash_count);
                }
                if closing == hash_count {
                    ok_token(TokenV::RawStringLiteral(acc), k + 1 + closing, st)
                } else {
                    spec_raw_body(s, start, k + 1 + closing, hash_count, acc.push('"') + hashes(closing), st)
                }
            } else {
                spec_raw_body(s, start, k + 1, hash_count, acc.push(c), st)
            }
        },
    }
}

pub proof fn lemma_count_hashes_bounds(s: Seq<char>, k: int, limit: int)
    requires
        0 <= k <= s.len(),
    ensures
        0 <= count_hashes(s, k, limit),
        limit >= 0 ==> count_hashes(s, k, limit) <= limit,
        k + count_hashes(s, k, limit) <= s.len(),
        forall|m: int| k <= m < k + count_hashes(s, k, limit) ==> s[m] == '#',
        count_hashes(s, k, limit) < limit ==> !is_at(s, k + count_hashes(s, k, limit), '#'),
    decreases s.len() - k,
{
    if 0 < limit && is_at(s, k, '#') {
        lemma_count_hashes_bounds(s, k + 1, limit - 1);
    }
}

/// A raw string `r"..."` or `r#"..."#` starting at the `r`.
pub open spec fn spec_scan_raw_string(s: Seq<char>, i: int, st: LexerState) -> Step {
    let j = skip_hashes(s, i + 1);
    let hash_count = j - (i + 1);
    if !is_at(s, j, '"') {
        fail_at(LexerErrorKind::UnterminatedString, j, None, j, st)
    } else {
        spec_raw_body(s, i, j + 1, hash_count, Seq::empty(), st)
    }
}

/// The first index at or after `k` that does not hold `#`.
pub open spec fn skip_hashes(s: Seq<char>, k: int) -> int
    decreases s.len() - k,
{
    if is_at(s, k, '#') {
        skip_hashes(s, k + 1)
    } else {
        k
    }
}

pub proof fn lemma_skip_hashes_bounds(s: Seq<char>, k: int)
    requires
        0 <= k <= s.len(),
    ensures
        k <= skip_hashes(s, k) <= s.len(),
    decreases s.len() - k,
{
    if is_at(s, k, '#') {
        lemma_skip_hashes_bounds(s, k + 1);
    }
}

// ---------------------------------------------------------------------------
//                          INTERPOLATED STRINGS
// ---------------------------------------------------------------------------

/// The text part of an interpolated string from index `k`.
pub open spec fn spec_interp_text(s: Seq<char>, start: int, k: int, acc: Seq<char>) -> Step
    decreases s.len() - k,
{
    let st = LexerState::InterpolatedStringText;
    match at(s, k) {
        None => fail_at(LexerErrorKind::UnterminatedString, start, Some(k), k, st),
        Some(c) => {
            if c == '\n' {
                fail_at(LexerErrorKind::UnterminatedString, start, Some(k), k, st)
            } else if c == '"' {
                if acc.len() == 0 {
                    ok_token(TokenV::InterpolatedStringEnd, k + 1, LexerState::Normal)
                } else {
                    ok_token(TokenV::InterpolatedStringPart(acc), k, st)
                }
            } else if c == '{' {
                if is_at(s, k + 1, '{') {
                    spec_interp_text(s, start, k + 2, acc.push('{'))
                } else if acc.len() != 0 {
                    ok_token(TokenV::InterpolatedStringPart(acc), k, st)
                } else {
                    Step { out: Ok(None), next: k + 1, state: LexerState::InterpolatedStringExpr { brace_depth: 1 } }
                }
            } else if c == '}' {
                if is_at(s, k + 1, '}') {
                    spec_interp_text(s, start, k + 2, acc.push('}'))
                } else {
                    fail_at(LexerErrorKind::UnexpectedChar, k, None, k, st)
                }
            } else if c == '\\' {
                let e = spec_escape(s, k + 1);
                proof {
                    lemma_escape_bounds(s, k + 1);
                }
                match e.ch {
                    Ok(ch) => spec_interp_text(s, start, e.next, acc.push(ch)),
                    Err(f) => Step { out: Err(f), next: e.next, state: st },
                }
            } else {
                spec_interp_text(s, start, k + 1, acc.push(c))
            }
        },
    }
}

// ---------------------------------------------------------------------------
//                           CHARACTER LITERALS
// ---------------------------------------------------------------------------

/// The closing quote of a character literal after its one character.
pub open spec fn spec_char_close(s: Seq<char>, i: int, c: char, k: int, st: LexerState) -> Step {
    if !is_at(s, k, '\'') {
        if at(s, k) is Some && !is_at(s, k, '\n') {
            fail_at(LexerErrorKind::MultiCharLiteral, i, None, k, st)
        } else {
            fail_at(LexerErrorKind::UnterminatedChar, i, None, k, st)
        }
    } else {
        ok_token(TokenV::CharLiteral(c), k + 1, st)
    }
}

/// A character literal `'x'` starting at its opening quote.
pub open spec fn spec_scan_char(s: Seq<char>, i: int, st: LexerState) -> Step {
    let k = i + 1;
    match at(s, k) {
        None => fail_at(LexerErrorKind::UnterminatedChar, i, None, k, st),
        Some(c) => {
            if c == '\n' {
                fail_at(LexerErrorKind::UnterminatedChar, i, None, k, st)
            } else if c == '\'' {
                fail_at(LexerErrorKind::EmptyCharLiteral, i, None, k, st)
            } else if c == '\\' {
                let e = spec_escape(s, k + 1);
                match e.ch {
                    Ok(ch) => spec_char_close(s, i, ch, e.next, st),
                    Err(f) => Step { out: Err(f), next: e.next, state: st },
                }
            } else {
                spec_char_close(s, i, c, k + 1, st)
            }
        },
    }
}

// ---------------------------------------------------------------------------
//                               NUMBERS
// ---------------------------------------------------------------------------

/// Value of a digit in any radix up to 16 (digits and ASCII letters).
pub open spec fn digit_value(c: char) -> int {
    spec_hex_value(c) as int
}

/// The value of a digit string in the given radix, most significant first.
pub open spec fn digits_value(s: Seq<char>, radix: int) -> int
    decreases s.len(),
{
    if s.len() == 0 {
        0
    } else {
        digits_value(s.drop_last(), radix) * radix + digit_value(s.last())
    }
}

/// An integer literal: its digits (underscores removed) must be non-empty and
/// their value must fit in `i64`.
pub open spec fn int_literal(text: Seq<char>, radix: int, start: int, next: int, st: LexerState) -> Step {
    let digits = without_underscores(text);
    if digits.len() > 0 && digits_value(digits, radix) <= i64::MAX {
        ok_token(TokenV::IntLiteral(digits_value(digits, radix) as i64), next, st)
    } else {
        fail_at(LexerErrorKind::InvalidNumber, start, None, next, st)
    }
}

/// A prefixed integer (`0x`, `0b`, `0o`); `k` is the index of the radix letter.
pub open spec fn spec_radix_number(s: Seq<char>, i: int, k: int, radix: int, cls: CharClass, st: LexerState) -> Step {
    let ds = k + 1;
    let de = skip_while(s, ds, cls);
    if de == ds {
        fail_at(LexerErrorKind::InvalidNumber, i, None, de, st)
    } else {
        int_literal(s.subrange(ds, de), radix, i, de, st)
    }
}

/// Whether the exponent of a float literal, after removing underscores, has a digit.
pub open spec fn float_text_parses(s: Seq<char>, exp_digits_start: int, end: int, has_exp: bool) -> bool {
    !has_exp || without_underscores(s.subrange(exp_digits_start, end)).len() > 0
}

/// A decimal number (integer or float) starting at index `i`; `k0` is where
/// the integer digits start to be skipped.
pub open spec fn spec_decimal_number(s: Seq<char>, i: int, k0: int, st: LexerState) -> Step {
    let j1 = skip_while(s, k0, CharClass::DecimalPart);
    let has_frac = is_at(s, j1, '.') && (at(s, j1 + 1) matches Some(d) && spec_is_ascii_digit(d));
    let j2 = if has_frac { skip_while(s, j1 + 1, CharClass::DecimalPart) } else { j1 };
    let has_exp = is_at(s, j2, 'e') || is_at(s, j2, 'E');
    let k = if is_at(s, j2 + 1, '+') || is_at(s, j2 + 1, '-') { j2 + 2 } else { j2 + 1 };
    let j3 = if has_exp { skip_while(s, k, CharClass::DecimalPart) } else { j2 };
    if has_exp && j3 == k {
        fail_at(LexerErrorKind::InvalidNumber, i, None, j3, st)
    } else if has_frac || has_exp {
        if float_text_parses(s, k, j3, has_exp) {
            ok_token(TokenV::FloatLiteral(without_underscores(s.subrange(i, j3))), j3, st)
        } else {
            fail_at(LexerErrorKind::InvalidNumber, i, None, j3, st)
        }
    } else {
        int_literal(s.subrange(i, j3), 10, i, j3, st)
    }
}

/// A number literal starting at index `i`.
pub open spec fn spec_scan_number(s: Seq<char>, i: int, st: LexerState) -> Step {
    if is_at(s, i, '0') {
        if is_at(s, i + 1, 'x') || is_at(s, i + 1, 'X') {
            spec_radix_number(s, i, i + 1, 16, CharClass::HexPart, st)
        } else if is_at(s, i + 1, 'b') || is_at(s, i + 1, 'B') {
            spec_radix_number(s, i, i + 1, 2, CharClass::BinaryPart, st)
        } else if is_at(s, i + 1, 'o') || is_at(s, i + 1, 'O') {
            spec_radix_number(s, i, i + 1, 8, CharClass::OctalPart, st)
        } else {
            spec_decimal_number(s, i, i + 1, st)
        }
    } else {
        spec_decimal_number(s, i, i, st)
    }
}

// ---------------------------------------------------------------------------
//                        IDENTIFIERS AND KEYWORDS
// ---------------------------------------------------------------------------

/// After `ржавчина`/`rust`: whether the next word (after whitespace) is `нач`,
/// and where that word ends.
pub open spec fn spec_alt_start(s: Seq<char>, j: int) -> (bool, int) {
    let k = skip_while(s, j, CharClass::Whitespace);
    if at(s, k) matches Some(c) && spec_is_ident_start(c) {
        let e = skip_while(s, k, CharClass::IdentContinue);
        if s.subrange(k, e) == "нач"@ {
            (true, e)
        } else {
            (false, j)
        }
    } else {
        (false, j)
    }
}

/// An identifier, keyword or the start of an embedded Rust block.
pub open spec fn spec_scan_identifier(s: Seq<char>, i: int, st: LexerState) -> Step {
    let j = skip_while(s, i + 1, CharClass::IdentContinue);
    let ident = s.subrange(i, j);
    if ident == "РастВставкаНЦ"@ {
        ok_token(TokenV::RustBlockStart, j, LexerState::RustBlock)
    } else if (ident == "ржавчина"@ || ident == "Ржавчина"@ || ident == "rust"@) && spec_alt_start(s, j).0 {
        ok_token(TokenV::RustBlockStart, spec_alt_start(s, j).1, LexerState::RustAltBlock)
    } else {
        match keyword_of(ident) {
            Some(t) => ok_token(t@, j, st),
            None => ok_token(TokenV::Ident(ident), j, st),
        }
    }
}

// ---------------------------------------------------------------------------
//                               OPERATORS
// ---------------------------------------------------------------------------

/// The longest operator (three, two, then one character) at index `i`.
pub open spec fn spec_scan_operator(s: Seq<char>, i: int, st: LexerState) -> Step {
    if i + 2 < s.len() && operator_of(s.subrange(i, i + 3)) is Some {
        ok_token(operator_of(s.subrange(i, i + 3))->0@, i + 3, st)
    } else if i + 1 < s.len() && operator_of(s.subrange(i, i + 2)) is Some {
        ok_token(operator_of(s.subrange(i, i + 2))->0@, i + 2, st)
    } else if operator_of(s.subrange(i, i + 1)) is Some {
        ok_token(operator_of(s.subrange(i, i + 1))->0@, i + 1, st)
    } else {
        fail_at(LexerErrorKind::UnexpectedChar, i, None, i + 1, st)
    }
}

// ---------------------------------------------------------------------------
//                              RUST BLOCKS
// ---------------------------------------------------------------------------

/// Whether every character is Unicode white space (what `str::trim` removes).
pub open spec fn all_white(s: Seq<char>) -> bool {
    forall|k: int| 0 <= k < s.len() ==> unicode_white_space(#[trigger] s[k])
}

/// The token that ends an embedded Rust block with the given content.
pub open spec fn rust_block_token(content: Seq<char>) -> TokenV {
    if all_white(content) {
        TokenV::RustBlockEnd
    } else {
        TokenV::RustInline(content)
    }
}

/// Whether `t` occurs in `s` at index `k`.
pub open spec fn starts_at(s: Seq<char>, k: int, t: Seq<char>) -> bool {
    0 <= k && k + t.len() <= s.len() && s.subrange(k, k + t.len()) == t
}

/// The content of `РастВставкаНЦ ... РастВставкаКЦ` from index `k` on.
pub open spec fn spec_rust_block(s: Seq<char>, start: int, k: int) -> Step
    decreases s.len() - k,
{
    if k >= s.len() || k < 0 {
        fail_at(LexerErrorKind::UnterminatedRustBlock, start, Some(k), k, LexerState::RustBlock)
    } else if starts_at(s, k, "РастВставкаКЦ"@) {
        ok_token(rust_block_token(s.subrange(start, k)), k + "РастВставкаКЦ"@.len(), LexerState::Normal)
    } else {
        spec_rust_block(s, start, k + 1)
    }
}

/// Whether `кон` at index `k` ends a word.
pub open spec fn alt_end_at(s: Seq<char>, k: int) -> bool {
    starts_at(s, k, "кон"@) && !(at(s, k + 3) matches Some(c) && spec_is_ident_continue(c))
}

/// The content of `ржавчина нач ... кон` from index `k` on.
pub open spec fn spec_rust_alt_block(s: Seq<char>, start: int, k: int) -> Step
    decreases s.len() - k,
{
    if k >= s.len() || k < 0 {
        fail_at(LexerErrorKind::UnterminatedRustBlock, start, Some(k), k, LexerState::RustAltBlock)
    } else if alt_end_at(s, k) {
        ok_token(rust_block_token(s.subrange(start, k)), k + 3, LexerState::Normal)
    } else {
        spec_rust_alt_block(s, start, k + 1)
    }
}

// ---------------------------------------------------------------------------
//                               DISPATCH
// ---------------------------------------------------------------------------

/// One step of the lexer in its normal state at index `i` (whitespace skipped).
pub open spec fn spec_scan_normal(s: Seq<char>, i: int) -> Step {
    let st = LexerState::Normal;
    let c = s[i];
    if c == '\n' {
        ok_token(TokenV::Newline, i + 1, st)
    } else if c == '|' && !is_at(s, i + 1, '>') {
        spec_scan_comment(s, i, st)
    } else if c == '/' && is_at(s, i + 1, '/') {
        spec_scan_line_comment(s, i, st)
    } else if c == '"' {
        spec_scan_string(s, i, st)
    } else if c == 'r' && (is_at(s, i + 1, '"') || is_at(s, i + 1, '#')) {
        spec_scan_raw_string(s, i, st)
    } else if c == 'f' && is_at(s, i + 1, '"') {
        ok_token(TokenV::InterpolatedStringStart, i + 2, LexerState::InterpolatedStringText)
    } else if c == '\'' {
        spec_scan_char(s, i, st)
    } else if spec_is_digit_start(c) || (c == '.' && (at(s, i + 1) matches Some(d) && spec_is_ascii_digit(d))) {
        spec_scan_number(s, i, st)
    } else if spec_is_ident_start(c) {
        spec_scan_identifier(s, i, st)
    } else {
        spec_scan_operator(s, i, st)
    }
}

/// The lexer state after a token inside an interpolated expression at the
/// given brace depth: braces open and close nesting levels.
pub open spec fn expr_after(step: Step, depth: usize) -> Step {
    match step.out {
        Ok(Some(t)) => {
            if t == TokenV::LBrace {
                Step { out: step.out, next: step.next, state: LexerState::InterpolatedStringExpr { brace_depth: (depth + 1) as usize } }
            } else if t == TokenV::RBrace && depth == 1 {
                Step { out: Ok(None), next: step.next, state: LexerState::InterpolatedStringText }
            } else if t == TokenV::RBrace {
                Step { out: step.out, next: step.next, state: LexerState::InterpolatedStringExpr { brace_depth: (depth - 1) as usize } }
            } else {
                Step { out: step.out, next: step.next, state: LexerState::InterpolatedStringExpr { brace_depth: depth } }
            }
        },
        _ => Step { out: step.out, next: step.next, state: LexerState::InterpolatedStringExpr { brace_depth: depth } },
    }
}

/// One call of `next_token` from index `i` in state `st`: white space is
/// skipped (but not in the text of an interpolated string), then the state
/// and the next character choose the scanner. The end of input gives `EOF`
/// in the normal state; in any other state the scanner reports what is
/// left unterminated.
pub open spec fn spec_next_token(s: Seq<char>, i: int, st: LexerState) -> Step {
    let k = token_start(s, i, st);
    match st {
        LexerState::RustBlock => spec_rust_block(s, k, k),
        LexerState::RustAltBlock => spec_rust_alt_block(s, k, k),
        LexerState::InterpolatedStringText => spec_interp_text(s, k, k, Seq::empty()),
        LexerState::InterpolatedStringExpr { brace_depth } => {
            if k >= s.len() {
                fail_at(LexerErrorKind::UnterminatedString, k, None, k, st)
            } else if s[k] == '}' && brace_depth == 1 {
                Step { out: Ok(None), next: k + 1, state: LexerState::InterpolatedStringText }
            } else {
                expr_after(spec_next_token_normal(s, k), brace_depth)
            }
        },
        LexerState::Normal => {
            if k >= s.len() {
                ok_token(TokenV::EOF, k, st)
            } else {
                spec_scan_normal(s, k)
            }
        },
    }
}

/// Where the next token starts: at `i` in the text of an interpolated
/// string (its white space is part of the text), else after white space.
pub open spec fn token_start(s: Seq<char>, i: int, st: LexerState) -> int {
    if st == LexerState::InterpolatedStringText {
        i
    } else {
        skip_while(s, i, CharClass::Whitespace)
    }
}

/// `next_token` in the normal state from index `i` (the inner call made
/// inside an interpolated expression).
pub open spec fn spec_next_token_normal(s: Seq<char>, i: int) -> Step {
    let k = skip_while(s, i, CharClass::Whitespace);
    if k >= s.len() {
        ok_token(TokenV::EOF, k, LexerState::Normal)
    } else {
        spec_scan_normal(s, k)
    }
}

} // verus!

//! The scanners of the lexer, one per kind of token.

use vstd::prelude::*;
use crate::constants::ident::{
    is_digit_start, is_ident_continue, is_ident_start, is_whitespace, spec_is_ident_continue,
};
use crate::constants::keywords::get_keyword_token;
use crate::constants::operators::operator_token;
use crate::text::{
    char_from_u32, char_is_whitespace, chars_of, hex_value, is_ascii_digit, is_ascii_hexdigit,
    str_eq, string_from_chars, subrange_vec, without_underscores, without_underscores_vec,
    spec_hex_value, push_chars, u32_to_upper_hex, upper_hex_digits, zero_padded, u64_to_decimal,
    decimal_digits,
};
use crate::types::{Token, TokenV};
use super::model::{
    at, is_at, CharClass, in_class, skip_while, lemma_skip_while_bounds, Fail, Step, ok_token, fail_at, Escape, esc_ok, esc_fail, spec_hex_escape, spec_unicode_digits, spec_unicode_escape, spec_escape, lemma_unicode_digits_bounds, lemma_escape_bounds, spec_scan_comment, spec_scan_line_comment, spec_string_body, spec_scan_string, count_hashes, hashes, spec_raw_body, lemma_count_hashes_bounds, spec_scan_raw_string, skip_hashes, lemma_skip_hashes_bounds, spec_interp_text, spec_char_close, spec_scan_char, digit_value, digits_value, int_literal, spec_radix_number, float_text_parses, spec_decimal_number, spec_scan_number, spec_alt_start, spec_scan_identifier, spec_scan_operator, all_white, rust_block_token, starts_at, spec_rust_block, alt_end_at, spec_rust_alt_block, spec_scan_normal, expr_after, spec_next_token, spec_next_token_normal,
};
use super::{
    pos_of, step_matches, error_matches, Lexer, LexerError, LexerErrorKind, LexerResult, LexerState,
    Position, Span, SpannedToken,
};

verus! {

/// `prefix`, the character, then `suffix`.
pub(super) fn message_with_char(prefix: &str, c: char, suffix: &str) -> (r: String)
    ensures
        r@ == prefix@ + seq![c] + suffix@,
{
    let mut v = chars_of(prefix);
    v.push(c);
    push_chars(&mut v, &chars_of(suffix));
    string_from_chars(v.as_slice())
}

/// `prefix` followed by a piece of source text.
pub(super) fn message_with_text(prefix: &str, text: &str) -> (r: String)
    ensures
        r@ == prefix@ + text@,
{
    let mut v = chars_of(prefix);
    push_chars(&mut v, &chars_of(text));
    string_from_chars(v.as_slice())
}

/// `prefix` followed by a code point as `U+XXXX`: upper-case hexadecimal,
/// at least four digits.
pub(super) fn message_with_code_point(prefix: &str, v: u32) -> (r: String)
    ensures
        r@ == prefix@ + seq!['U', '+'] + zero_padded(upper_hex_digits(v as nat), 4),
{
    let mut m = chars_of(prefix);
    m.push('U');
    m.push('+');
    push_chars(&mut m, &u32_to_upper_hex(v, 4));
    proof {
        assert(m@ =~= prefix@ + seq!['U', '+'] + zero_padded(upper_hex_digits(v as nat), 4));
    }
    string_from_chars(m.as_slice())
}

/// `prefix`, a count in decimal, then `suffix`.
pub(super) fn message_with_count(prefix: &str, n: usize, suffix: &str) -> (r: String)
    ensures
        r@ == prefix@ + decimal_digits(n as nat) + suffix@,
{
    let mut m = chars_of(prefix);
    let d = u64_to_decimal(n as u64);
    push_chars(&mut m, &chars_of(d.as_str()));
    push_chars(&mut m, &chars_of(suffix));
    proof {
        assert(m@ =~= prefix@ + decimal_digits(n as nat) + suffix@);
    }
    string_from_chars(m.as_slice())
}

/// Whether `c` is in the class, as the grammar defines the class.
fn class_contains(cls: CharClass, c: char) -> (r: bool)
    ensures
        r == in_class(cls, c),
{
    match cls {
        CharClass::Whitespace => is_whitespace(c),
        CharClass::NotNewline => c != '\n',
        CharClass::DecimalPart => is_ascii_digit(c) || c == '_',
        CharClass::HexPart => is_ascii_hexdigit(c) || c == '_',
        CharClass::BinaryPart => c == '0' || c == '1' || c == '_',
        CharClass::OctalPart => ('0' <= c && c <= '7') || c == '_',
        CharClass::IdentContinue => is_ident_continue(c),
    }
}

/// Whether an exec escape result is the grammar's escape `e`.
pub open spec fn escape_matches(res: LexerResult<char>, s: Seq<char>, e: Escape) -> bool {
    match e.ch {
        Ok(c) => res == Ok::<char, LexerError>(c),
        Err(f) => res matches Err(err) && error_matches(err, s, f),
    }
}

/// The value of digits in a radix, as long as it fits in `i64`.
pub(super) fn parse_digits(digits: &Vec<char>, radix: u64) -> (r: Option<i64>)
    requires
        radix == 2 || radix == 8 || radix == 10 || radix == 16,
        forall|k: int| 0 <= k < digits@.len() ==> crate::text::spec_is_ascii_hexdigit(#[trigger] digits@[k]),
    ensures
        r is Some <==> digits@.len() > 0 && digits_value(digits@, radix as int) <= i64::MAX,
        r matches Some(v) ==> v == digits_value(digits@, radix as int),
{
    if digits.len() == 0 {
        return None;
    }
    let mut acc: u64 = 0;
    let mut k: usize = 0;
    while k < digits.len()
        invariant
            radix == 2 || radix == 8 || radix == 10 || radix == 16,
            forall|m: int| 0 <= m < digits@.len() ==> crate::text::spec_is_ascii_hexdigit(#[trigger] digits@[m]),
            k <= digits.len(),
            acc == digits_value(digits@.take(k as int), radix as int),
            acc <= i64::MAX,
        decreases digits.len() - k,
    {
        proof {
            assert(digits@.take(k + 1).drop_last() =~= digits@.take(k as int));
        }
        let d = hex_value(digits[k]) as u64;
        if acc > (i64::MAX as u64 - d) / radix {
            proof {
                lemma_digits_value_grows(digits@, radix as int, k as int + 1);
                assert(acc * radix + d > i64::MAX) by (nonlinear_arith)
                    requires acc > (i64::MAX - d) / radix as int, radix > 0, d < 16, d <= i64::MAX;
            }
            return None;
        }
        proof {
            assert(acc * radix + d <= i64::MAX) by (nonlinear_arith)
                requires acc <= (i64::MAX - d) / radix as int, radix > 0, d < 16;
        }
        acc = acc * radix + d;
        k = k + 1;
    }
    proof {
        assert(digits@.take(k as int) =~= digits@);
    }
    Some(acc as i64)
}

/// A longer prefix never has a smaller value.
proof fn lemma_digits_value_grows(s: Seq<char>, radix: int, k: int)
    requires
        radix >= 2,
        0 <= k <= s.len(),
        forall|m: int| 0 <= m < s.len() ==> crate::text::spec_is_ascii_hexdigit(#[trigger] s[m]),
    ensures
        digits_value(s.take(k), radix) <= digits_value(s, radix),
    decreases s.len() - k,
{
    if k < s.len() {
        lemma_digits_value_grows(s, radix, k + 1);
        assert(s.take(k + 1).drop_last() =~= s.take(k));
        let v = digits_value(s.take(k), radix);
        assert(v >= 0) by {
            lemma_digits_value_nonneg(s.take(k), radix);
        }
        assert(v * radix >= v) by (nonlinear_arith)
            requires v >= 0, radix >= 2;
    } else {
        assert(s.take(k) =~= s);
    }
}

proof fn lemma_digits_value_nonneg(s: Seq<char>, radix: int)
    requires
        radix >= 2,
    ensures
        digits_value(s, radix) >= 0,
    decreases s.len(),
{
    if s.len() > 0 {
        lemma_digits_value_nonneg(s.drop_last(), radix);
        let v = digits_value(s.drop_last(), radix);
        assert(v * radix >= 0) by (nonlinear_arith)
            requires v >= 0, radix >= 2;
    }
}

/// `16` to the power `n`.
pub open spec fn pow16(n: nat) -> nat
    decreases n,
{
    if n == 0 {
        1
    } else {
        16 * pow16((n - 1) as nat)
    }
}

proof fn lemma_pow16_step(n: nat, v: u32, d: u32)
    requires
        n < 6,
        v < pow16(n),
        d < 16,
    ensures
        v * 16 + d < pow16(n + 1),
        pow16(n + 1) <= 0x1000000,
{
    reveal_with_fuel(pow16, 7);
    assert(pow16(n) <= 0x100000);
    assert(v * 16 + d < pow16(n) * 16) by (nonlinear_arith)
        requires v < pow16(n), d < 16;
}

impl Lexer {

    /// Advances while the current character is in the class.
    pub(super) fn skip_class(&mut self, cls: CharClass)
        requires
            old(self).wf(),
        ensures
            final(self).wf(),
            final(self).same_source(old(self)),
            final(self).state == old(self).state,
            final(self).idx == skip_while(old(self).chars@, old(self).idx as int, cls),
            old(self).idx <= final(self).idx <= final(self).chars.len(),
    {
        proof {
            lemma_skip_while_bounds(self.chars@, self.idx as int, cls);
        }
        let ghost s = self.chars@;
        let ghost i0 = self.idx as int;
        while self.idx < self.chars.len() && class_contains(cls, self.chars[self.idx])
            invariant
                self.wf(),
                self.chars@ == s,
                self.errors@ == old(self).errors@,
                self.error_recovery == old(self).error_recovery,
                self.state == old(self).state,
                s == old(self).chars@,
                skip_while(s, self.idx as int, cls) == skip_while(s, i0, cls),
                i0 == old(self).idx,
            decreases self.chars.len() - self.idx,
        {
            self.advance();
        }
    }

    /// Skips whitespace (except newlines).
    pub(super) fn skip_whitespace(&mut self)
        requires
            old(self).wf(),
        ensures
            final(self).wf(),
            final(self).same_source(old(self)),
            final(self).state == old(self).state,
            final(self).idx == skip_while(old(self).chars@, old(self).idx as int, CharClass::Whitespace),
            old(self).idx <= final(self).idx <= final(self).chars.len(),
    {
        self.skip_class(CharClass::Whitespace)
    }

    /// Advances `n` characters (stopping at the end).
    pub(super) fn advance_n(&mut self, n: usize)
        requires
            old(self).wf(),
            old(self).idx + n <= old(self).chars.len(),
        ensures
            final(self).wf(),
            final(self).same_source(old(self)),
            final(self).state == old(self).state,
            final(self).idx == old(self).idx + n,
    {
        let mut k: usize = 0;
        while k < n
            invariant
                self.wf(),
                self.same_source(old(self)),
                self.state == old(self).state,
                k <= n,
                self.idx == old(self).idx + k,
                old(self).idx + n <= old(self).chars.len(),
            decreases n - k,
        {
            self.advance();
            k = k + 1;
        }
    }

    /// The characters from index `a` to the current index, as a string.
    pub(super) fn text_from(&self, a: usize) -> (r: String)
        requires
            self.wf(),
            a <= self.idx,
        ensures
            r@ == self.chars@.subrange(a as int, self.idx as int),
    {
        let v = subrange_vec(&self.chars, a, self.idx);
        string_from_chars(v.as_slice())
    }

    /// Whether the source holds `lit` at the current index.
    pub(super) fn starts_with_here(&self, lit: &str) -> (r: bool)
        requires
            self.wf(),
        ensures
            r == starts_at(self.chars@, self.idx as int, lit@),
    {
        let t = chars_of(lit);
        if t.len() > self.chars.len() - self.idx {
            return false;
        }
        let mut k: usize = 0;
        while k < t.len()
            invariant
                self.wf(),
                t@ == lit@,
                t.len() <= self.chars.len() - self.idx,
                k <= t.len(),
                forall|m: int| 0 <= m < k ==> self.chars@[self.idx + m] == t@[m],
            decreases t.len() - k,
        {
            if self.chars[self.idx + k] != t[k] {
                proof {
                    assert(self.chars@.subrange(self.idx as int, self.idx + t@.len())[k as int] != t@[k as int]);
                }
                return false;
            }
            k = k + 1;
        }
        proof {
            assert(self.chars@.subrange(self.idx as int, self.idx + t@.len()) =~= t@);
        }
        true
    }

    /// An error at `position`, carrying `message`.
    pub(super) fn error_at(kind: LexerErrorKind, message: String, position: Position) -> (r: LexerError)
        ensures
            r.kind == kind,
            r.position == position,
            r.span is None,
    {
        LexerError { kind, message, position, span: None }
    }

    // =========================================================================
    //         COMMENTS
    // =========================================================================

    /// Scans a pipe comment (`| ...`).
    pub(super) fn scan_comment(&mut self, start: Position) -> (res: LexerResult<Option<SpannedToken>>)
        requires
            old(self).wf(),
            old(self).state == LexerState::Normal,
            is_at(old(self).chars@, old(self).idx as int, '|'),
            start == pos_of(old(self).chars@, old(self).idx as int),
        ensures
            final(self).did_step(old(self), old(self).idx as int, res,
                spec_scan_comment(old(self).chars@, old(self).idx as int, LexerState::Normal)),
    {
        self.advance();
        let content_start = self.idx;
        self.skip_class(CharClass::NotNewline);
        let content = self.text_from(content_start);
        Ok(Some(SpannedToken::new(Token::Comment(content), Span::new(start, self.position))))
    }

    /// Scans a line comment (`//` or `///`).
    pub(super) fn scan_line_comment(&mut self, start: Position) -> (res: LexerResult<Option<SpannedToken>>)
        requires
            old(self).wf(),
            old(self).state == LexerState::Normal,
            is_at(old(self).chars@, old(self).idx as int, '/'),
            is_at(old(self).chars@, old(self).idx + 1, '/'),
            start == pos_of(old(self).chars@, old(self).idx as int),
        ensures
            final(self).did_step(old(self), old(self).idx as int, res,
                spec_scan_line_comment(old(self).chars@, old(self).idx as int, LexerState::Normal)),
    {
        self.advance();
        self.advance();
        let is_doc = self.peek() == Some('/');
        if is_doc {
            self.advance();
        }
        if self.peek() == Some(' ') {
            self.advance();
        }
        let content_start = self.idx;
        self.skip_class(CharClass::NotNewline);
        let content = self.text_from(content_start);
        let token = if is_doc {
            let v = vec![content];
            proof {
                assert(v@.map_values(|e: String| e@) =~= seq![self.chars@.subrange(content_start as int, self.idx as int)]);
            }
            Token::DocComment(v)
        } else {
            Token::Comment(content)
        };
        Ok(Some(SpannedToken::new(token, Span::new(start, self.position))))
    }

    // =========================================================================
    //         ESCAPE SEQUENCES
    // =========================================================================

    /// Scans an escape sequence (the backslash is already consumed).
    pub(super) fn scan_escape_sequence(&mut self) -> (res: LexerResult<char>)
        requires
            old(self).wf(),
        ensures
            final(self).wf(),
            final(self).same_source(old(self)),
            final(self).state == old(self).state,
            final(self).idx == spec_escape(old(self).chars@, old(self).idx as int).next,
            escape_matches(res, old(self).chars@, spec_escape(old(self).chars@, old(self).idx as int)),
    {
        let pos = self.position;
        match self.peek() {
            Some(c) => {
                if c == 'n' {
                    self.advance();
                    Ok('\n')
                } else if c == 'r' {
                    self.advance();
                    Ok('\r')
                } else if c == 't' {
                    self.advance();
                    Ok('\t')
                } else if c == '\\' {
                    self.advance();
                    Ok('\\')
                } else if c == '"' {
                    self.advance();
                    Ok('"')
                } else if c == '\'' {
                    self.advance();
                    Ok('\'')
                } else if c == '0' {
                    self.advance();
                    Ok('\0')
                } else if c == 'x' {
                    self.advance();
                    self.scan_hex_escape(2)
                } else if c == 'u' {
                    self.advance();
                    self.scan_unicode_escape()
                } else {
                    self.advance();
                    Err(Self::error_at(
                        LexerErrorKind::InvalidEscape,
                        message_with_char("Invalid escape sequence: \\", c, ""),
                        pos,
                    ))
                }
            },
            None => Err(LexerError::new(LexerErrorKind::InvalidEscape, "Escape sequence at end of input", pos)),
        }
    }

    /// Scans a hex escape (`\xNN`, the `x` already consumed).
    fn scan_hex_escape(&mut self, digits: usize) -> (res: LexerResult<char>)
        requires
            old(self).wf(),
            digits == 2,
        ensures
            final(self).wf(),
            final(self).same_source(old(self)),
            final(self).state == old(self).state,
            final(self).idx == spec_hex_escape(old(self).chars@, old(self).idx as int).next,
            escape_matches(res, old(self).chars@, spec_hex_escape(old(self).chars@, old(self).idx as int)),
    {
        let pos = self.position;
        let ghost s = self.chars@;
        let ghost j = self.idx as int;
        let mut value: u32 = 0;
        let mut n: usize = 0;
        while n < digits
            invariant
                self.wf(),
                self.same_source(old(self)),
                self.state == old(self).state,
                s == old(self).chars@,
                j == old(self).idx,
                pos == pos_of(s, j),
                digits == 2,
                n <= 2,
                self.idx == j + n,
                n >= 1 ==> crate::text::spec_is_ascii_hexdigit(s[j]),
                n >= 2 ==> crate::text::spec_is_ascii_hexdigit(s[j + 1]),
                n == 0 ==> value == 0,
                n == 1 ==> value == spec_hex_value(s[j]),
                n == 2 ==> value == spec_hex_value(s[j]) * 16 + spec_hex_value(s[j + 1]),
            decreases digits - n,
        {
            match self.peek() {
                Some(c) => {
                    if is_ascii_hexdigit(c) {
                        value = value * 16 + hex_value(c);
                        self.advance();
                    } else {
                        return Err(Self::error_at(
                            LexerErrorKind::InvalidEscape,
                            message_with_count("Invalid hex escape (expected ", digits, " hex digits)"),
                            pos,
                        ));
                    }
                },
                None => {
                    return Err(Self::error_at(
                        LexerErrorKind::InvalidEscape,
                        message_with_count("Invalid hex escape (expected ", digits, " hex digits)"),
                        pos,
                    ));
                },
            }
            n = n + 1;
        }
        proof {
            assert(spec_hex_value(s[j]) < 16 && spec_hex_value(s[j + 1]) < 16);
            assert(value < 256);
        }
        match char_from_u32(value) {
            Some(c) => {
                Ok(c)
            },
            None => Err(Self::error_at(
                LexerErrorKind::InvalidUnicodeEscape,
                message_with_code_point("Invalid Unicode code point: ", value),
                pos,
            )),
        }
    }

    /// Scans a unicode escape (`\u{NNNN}`, the `u` already consumed).
    fn scan_unicode_escape(&mut self) -> (res: LexerResult<char>)
        requires
            old(self).wf(),
        ensures
            final(self).wf(),
            final(self).same_source(old(self)),
            final(self).state == old(self).state,
            final(self).idx == spec_unicode_escape(old(self).chars@, old(self).idx as int).next,
            escape_matches(res, old(self).chars@, spec_unicode_escape(old(self).chars@, old(self).idx as int)),
    {
        let pos = self.position;
        let ghost s = self.chars@;
        let ghost j = self.idx as int;
        if self.peek() != Some('{') {
            return Err(LexerError::new(LexerErrorKind::InvalidUnicodeEscape, "Expected '{' after \\u", pos));
        }
        self.advance();
        let mut value: u32 = 0;
        let mut digit_count: usize = 0;
        loop
            invariant
                self.wf(),
                self.same_source(old(self)),
                self.state == old(self).state,
                s == old(self).chars@,
                j == old(self).idx,
                pos == pos_of(s, j),
                digit_count <= 6,
                value < pow16(digit_count as nat),
                spec_unicode_escape(s, j) == spec_unicode_digits(s, j, self.idx as int, digit_count as int, value),
            decreases self.chars.len() - self.idx,
        {
            match self.peek() {
                Some(c) => {
                    if c == '}' {
                        self.advance();
                        if digit_count == 0 {
                            return Err(LexerError::new(LexerErrorKind::InvalidUnicodeEscape, "Empty unicode escape", pos));
                        }
                        return match char_from_u32(value) {
                            Some(ch) => {
                                Ok(ch)
                            },
                            None => Err(Self::error_at(
                                LexerErrorKind::InvalidUnicodeEscape,
                                message_with_code_point("Invalid Unicode code point: ", value),
                                pos,
                            )),
                        };
                    } else if is_ascii_hexdigit(c) {
                        if digit_count >= 6 {
                            return Err(LexerError::new(
                                LexerErrorKind::InvalidUnicodeEscape,
                                "Unicode escape too long (max 6 hex digits)",
                                pos,
                            ));
                        }
                        let d = hex_value(c);
                        proof {
                            lemma_pow16_step(digit_count as nat, value, d);
                        }
                        value = value * 16 + d;
                        digit_count = digit_count + 1;
                        self.advance();
                    } else {
                        return Err(LexerError::new(
                            LexerErrorKind::InvalidUnicodeEscape,
                            "Invalid character in unicode escape",
                            pos,
                        ));
                    }
                },
                None => {
                    return Err(LexerError::new(
                        LexerErrorKind::InvalidUnicodeEscape,
                        "Invalid character in unicode escape",
                        pos,
                    ));
                },
            }
        }
    }

    // =========================================================================
    //         STRING LITERALS
    // =========================================================================

    /// Scans a string literal (`"..."` or `"""..."""`).
    pub(super) fn scan_string(&mut self, start: Position) -> (res: LexerResult<Option<SpannedToken>>)
        requires
            old(self).wf(),
            old(self).state == LexerState::Normal,
            is_at(old(self).chars@, old(self).idx as int, '"'),
            start == pos_of(old(self).chars@, old(self).idx as int),
        ensures
            final(self).did_step(old(self), old(self).idx as int, res,
                spec_scan_string(old(self).chars@, old(self).idx as int, LexerState::Normal)),
    {
        let ghost s = self.chars@;
        let ghost i = self.idx as int;
        let ghost target = spec_scan_string(s, i, LexerState::Normal);
        self.advance();
        let is_multiline = if self.peek() == Some('"') && self.peek_at(1) == Some('"') {
            self.advance();
            self.advance();
            true
        } else if self.peek() == Some('"') {
            self.advance();
            return Ok(Some(SpannedToken::new(
                Token::StringLiteral(string_from_chars(Vec::<char>::new().as_slice())),
                Span::new(start, self.position),
            )));
        } else {
            false
        };
        let mut value: Vec<char> = Vec::new();
        loop
            invariant
                self.wf(),
                self.same_source(old(self)),
                self.state == LexerState::Normal,
                s == old(self).chars@,
                i == old(self).idx,
                start == pos_of(s, i),
                target == spec_scan_string(s, i, LexerState::Normal),
                spec_string_body(s, i, self.idx as int, is_multiline, value@, LexerState::Normal) == target,
            decreases self.chars.len() - self.idx,
        {
            match self.peek() {
                None => {
                    return Err(LexerError::with_span(
                        LexerErrorKind::UnterminatedString,
                        "Unterminated string literal",
                        Span::new(start, self.position),
                    ));
                },
                Some(c) => {
                    if c == '"' {
                        if is_multiline {
                            if self.peek_at(1) == Some('"') && self.peek_at(2) == Some('"') {
                                self.advance();
                                self.advance();
                                self.advance();
                                return Ok(Some(SpannedToken::new(
                                    Token::StringLiteral(string_from_chars(value.as_slice())),
                                    Span::new(start, self.position),
                                )));
                            }
                            value.push('"');
                            self.advance();
                        } else {
                            self.advance();
                            return Ok(Some(SpannedToken::new(
                                Token::StringLiteral(string_from_chars(value.as_slice())),
                                Span::new(start, self.position),
                            )));
                        }
                    } else if c == '\n' && !is_multiline {
                        return Err(LexerError::with_span(
                            LexerErrorKind::UnterminatedString,
                            "Unterminated string literal (use triple quotes for multiline)",
                            Span::new(start, self.position),
                        ));
                    } else if c == '\\' {
                        self.advance();
                        proof {
                            lemma_escape_bounds(s, self.idx as int);
                        }
                        match self.scan_escape_sequence() {
                            Ok(ch) => value.push(ch),
                            Err(e) => return Err(e),
                        }
                    } else {
                        value.push(c);
                        self.advance();
                    }
                },
            }
        }
    }

    /// Scans a raw string literal (`r"..."` or `r#"..."#`).
    pub(super) fn scan_raw_string(&mut self, start: Position) -> (res: LexerResult<Option<SpannedToken>>)
        requires
            old(self).wf(),
            old(self).state == LexerState::Normal,
            is_at(old(self).chars@, old(self).idx as int, 'r'),
            start == pos_of(old(self).chars@, old(self).idx as int),
        ensures
            final(self).did_step(old(self), old(self).idx as int, res,
                spec_scan_raw_string(old(self).chars@, old(self).idx as int, LexerState::Normal)),
    {
        let ghost s = self.chars@;
        let ghost i = self.idx as int;
        let ghost target = spec_scan_raw_string(s, i, LexerState::Normal);
        self.advance();
        let mut hash_count: usize = 0;
        while self.peek() == Some('#')
            invariant
                self.wf(),
                self.same_source(old(self)),
                self.state == LexerState::Normal,
                s == old(self).chars@,
                i == old(self).idx,
                self.idx == i + 1 + hash_count,
                skip_hashes(s, self.idx as int) == skip_hashes(s, i + 1),
                target == spec_scan_raw_string(s, i, LexerState::Normal),
                start == pos_of(s, i),
            decreases self.chars.len() - self.idx,
        {
            hash_count = hash_count + 1;
            self.advance();
        }
        if self.peek() != Some('"') {
            return Err(LexerError::new(LexerErrorKind::UnterminatedString, "Expected '\"' after r#", self.position));
        }
        self.advance();
        let mut value: Vec<char> = Vec::new();
        loop
            invariant
                self.wf(),
                self.same_source(old(self)),
                self.state == LexerState::Normal,
                s == old(self).chars@,
                i == old(self).idx,
                start == pos_of(s, i),
                hash_count <= self.idx,
                target == spec_scan_raw_string(s, i, LexerState::Normal),
                spec_raw_body(s, i, self.idx as int, hash_count as int, value@, LexerState::Normal) == target,
            decreases self.chars.len() - self.idx,
        {
            match self.peek() {
                None => {
                    return Err(LexerError::with_span(
                        LexerErrorKind::UnterminatedString,
                        "Unterminated raw string literal",
                        Span::new(start, self.position),
                    ));
                },
                Some(c) => {
                    if c == '"' {
                        self.advance();
                        let ghost k1 = self.idx as int;
                        proof {
                            lemma_count_hashes_bounds(s, k1, hash_count as int);
                        }
                        let mut closing: usize = 0;
                        while closing < hash_count && self.peek() == Some('#')
                            invariant
                                self.wf(),
                                self.same_source(old(self)),
                                self.state == LexerState::Normal,
                                s == old(self).chars@,
                                closing <= hash_count,
                                self.idx == k1 + closing,
                                count_hashes(s, k1, hash_count as int) == closing + count_hashes(s, self.idx as int, hash_count - closing),
                            decreases hash_count - closing,
                        {
                            closing = closing + 1;
                            self.advance();
                        }
                        if closing == hash_count {
                            return Ok(Some(SpannedToken::new(
                                Token::RawStringLiteral(string_from_chars(value.as_slice())),
                                Span::new(start, self.position),
                            )));
                        }
                        value.push('"');
                        let ghost before = value@;
                        let mut m: usize = 0;
                        while m < closing
                            invariant
                                m <= closing,
                                value@ == before + hashes(m as int),
                            decreases closing - m,
                        {
                            value.push('#');
                            m = m + 1;
                            proof {
                                assert(hashes(m as int) == hashes(m - 1).push('#'));
                                assert(value@ =~= before + hashes(m as int));
                            }
                        }
                    } else {
                        value.push(c);
                        self.advance();
                    }
                },
            }
        }
    }

    /// Scans start of interpolated string (`f"`): emits its start token and
    /// switches to scanning its text.
    pub(super) fn scan_interpolated_string(&mut self, start: Position) -> (res: LexerResult<Option<SpannedToken>>)
        requires
            old(self).wf(),
            old(self).state == LexerState::Normal,
            is_at(old(self).chars@, old(self).idx as int, 'f'),
            is_at(old(self).chars@, old(self).idx + 1, '"'),
            start == pos_of(old(self).chars@, old(self).idx as int),
        ensures
            final(self).did_step(old(self), old(self).idx as int, res,
                ok_token(TokenV::InterpolatedStringStart, old(self).idx + 2, LexerState::InterpolatedStringText)),
    {
        self.advance();
        self.advance();
        self.state = LexerState::InterpolatedStringText;
        Ok(Some(SpannedToken::new(Token::InterpolatedStringStart, Span::new(start, self.position))))
    }

    /// Scans text portion of interpolated string until `{` or `"`.
    ///
    /// `"` ends the string (its last text part, if any, is the last token);
    /// `{` first emits the text collected so far, then opens an expression;
    /// `{{` and `}}` stand for literal braces.
    pub(super) fn scan_interpolated_text(&mut self, start: Position) -> (res: LexerResult<Option<SpannedToken>>)
        requires
            old(self).wf(),
            old(self).state == LexerState::InterpolatedStringText,
            start == pos_of(old(self).chars@, old(self).idx as int),
        ensures
            final(self).did_step(old(self), old(self).idx as int, res,
                spec_interp_text(old(self).chars@, old(self).idx as int, old(self).idx as int, Seq::empty())),
    {
        let ghost s = self.chars@;
        let ghost i = self.idx as int;
        let ghost target = spec_interp_text(s, i, i, Seq::empty());
        let mut value: Vec<char> = Vec::new();
        loop
            invariant
                self.wf(),
                self.same_source(old(self)),
                self.state == LexerState::InterpolatedStringText,
                s == old(self).chars@,
                i == old(self).idx,
                start == pos_of(s, i),
                target == spec_interp_text(s, i, i, Seq::empty()),
                spec_interp_text(s, i, self.idx as int, value@) == target,
            decreases self.chars.len() - self.idx,
        {
            match self.peek() {
                None => {
                    return Err(LexerError::with_span(
                        LexerErrorKind::UnterminatedString,
                        "Unterminated interpolated string",
                        Span::new(start, self.position),
                    ));
                },
                Some(c) => {
                    if c == '\n' {
                        return Err(LexerError::with_span(
                            LexerErrorKind::UnterminatedString,
                            "Unterminated interpolated string",
                            Span::new(start, self.position),
                        ));
                    } else if c == '"' {
                        if value.len() == 0 {
                            self.advance();
                            self.state = LexerState::Normal;
                            return Ok(Some(SpannedToken::new(Token::InterpolatedStringEnd, Span::new(start, self.position))));
                        } else {
                            // The part first; the closing quote gives the end next time.
                            return Ok(Some(SpannedToken::new(
                                Token::InterpolatedStringPart(string_from_chars(value.as_slice())),
                                Span::new(start, self.position),
                            )));
                        }
                    } else if c == '{' {
                        if self.peek_at(1) == Some('{') {
                            self.advance();
                            self.advance();
                            value.push('{');
                        } else if value.len() != 0 {
                            return Ok(Some(SpannedToken::new(
                                Token::InterpolatedStringPart(string_from_chars(value.as_slice())),
                                Span::new(start, self.position),
                            )));
                        } else {
                            self.advance();
                            self.state = LexerState::InterpolatedStringExpr { brace_depth: 1 };
                            return Ok(None);
                        }
                    } else if c == '}' {
                        if self.peek_at(1) == Some('}') {
                            self.advance();
                            self.advance();
                            value.push('}');
                        } else {
                            return Err(LexerError::new(
                                LexerErrorKind::UnexpectedChar,
                                "Unexpected '}' in interpolated string (use '}}' to escape)",
                                self.position,
                            ));
                        }
                    } else if c == '\\' {
                        self.advance();
                        proof {
                            lemma_escape_bounds(s, self.idx as int);
                        }
                        match self.scan_escape_sequence() {
                            Ok(ch) => value.push(ch),
                            Err(e) => return Err(e),
                        }
                    } else {
                        value.push(c);
                        self.advance();
                    }
                },
            }
        }
    }

    // =========================================================================
    //         CHARACTER LITERALS
    // =========================================================================

    /// Scans a character literal (`'x'`).
    pub(super) fn scan_char(&mut self, start: Position) -> (res: LexerResult<Option<SpannedToken>>)
        requires
            old(self).wf(),
            old(self).state == LexerState::Normal,
            is_at(old(self).chars@, old(self).idx as int, '\''),
            start == pos_of(old(self).chars@, old(self).idx as int),
        ensures
            final(self).did_step(old(self), old(self).idx as int, res,
                spec_scan_char(old(self).chars@, old(self).idx as int, LexerState::Normal)),
    {
        let ghost s = self.chars@;
        let ghost i = self.idx as int;
        self.advance();
        let c = match self.peek() {
            None => {
                return Err(LexerError::new(LexerErrorKind::UnterminatedChar, "Unterminated character literal", start));
            },
            Some(ch) => {
                if ch == '\n' {
                    return Err(LexerError::new(LexerErrorKind::UnterminatedChar, "Unterminated character literal", start));
                } else if ch == '\'' {
                    return Err(LexerError::new(LexerErrorKind::EmptyCharLiteral, "Empty character literal", start));
                } else if ch == '\\' {
                    self.advance();
                    match self.scan_escape_sequence() {
                        Ok(e) => e,
                        Err(e) => return Err(e),
                    }
                } else {
                    self.advance();
                    ch
                }
            },
        };
        if self.peek() != Some('\'') {
            if self.peek().is_some() && self.peek() != Some('\n') {
                return Err(LexerError::new(
                    LexerErrorKind::MultiCharLiteral,
                    "Character literal may only contain one character",
                    start,
                ));
            }
            return Err(LexerError::new(LexerErrorKind::UnterminatedChar, "Unterminated character literal", start));
        }
        self.advance();
        Ok(Some(SpannedToken::new(Token::CharLiteral(c), Span::new(start, self.position))))
    }
}

} // verus!

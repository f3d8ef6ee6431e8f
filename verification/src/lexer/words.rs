//! Scanners for numbers, identifiers, operators and embedded Rust blocks.

use vstd::prelude::*;
use crate::constants::ident::{is_ident_continue, is_ident_start, spec_is_ident_continue, spec_is_ident_start};
use crate::constants::keywords::get_keyword_token;
use crate::constants::operators::operator_token;
use crate::text::{
    char_is_whitespace, is_ascii_digit, str_eq, string_from_chars, subrange_vec, without_underscores,
    without_underscores_vec, spec_is_ascii_hexdigit, lemma_without_underscores_chars,
    unicode_white_space,
};
use crate::types::{Token, TokenV};
use super::model::{
    at, is_at, CharClass, in_class, skip_while, lemma_skip_while_bounds, ok_token, fail_at,
    int_literal, spec_radix_number, float_text_parses, spec_decimal_number, spec_scan_number,
    spec_alt_start, spec_scan_identifier, spec_scan_operator, all_white, rust_block_token,
    starts_at, spec_rust_block, alt_end_at, spec_rust_alt_block,
};
use super::scan::{message_with_char, message_with_text};
use super::{pos_of, Lexer, LexerError, LexerErrorKind, LexerResult, LexerState, Position, Span, SpannedToken};

verus! {

/// The characters of a digit class other than `_` are hexadecimal digits.
proof fn lemma_class_digits(s: Seq<char>, a: int, b: int, cls: CharClass)
    requires
        0 <= a <= b <= s.len(),
        cls == CharClass::DecimalPart || cls == CharClass::HexPart || cls == CharClass::BinaryPart
            || cls == CharClass::OctalPart,
        forall|k: int| a <= k < b ==> in_class(cls, #[trigger] s[k]),
    ensures
        forall|k: int| 0 <= k < without_underscores(s.subrange(a, b)).len()
            ==> spec_is_ascii_hexdigit(#[trigger] without_underscores(s.subrange(a, b))[k]),
{
    let t = s.subrange(a, b);
    let p = |c: char| spec_is_ascii_hexdigit(c);
    assert forall|k: int| 0 <= k < t.len() && t[k] != '_' implies p(#[trigger] t[k]) by {
        assert(t[k] == s[a + k]);
        assert(in_class(cls, s[a + k]));
    }
    lemma_without_underscores_chars(t, p);
    assert forall|k: int| 0 <= k < without_underscores(t).len()
        implies spec_is_ascii_hexdigit(#[trigger] without_underscores(t)[k]) by {
        assert(p(without_underscores(t)[k]));
    }
}

impl Lexer {
    // =========================================================================
    //         NUMBERS
    // =========================================================================

    /// Scans a number literal: decimal, float, or with a `0x`, `0b`, `0o` prefix.
    pub(super) fn scan_number(&mut self, start: Position) -> (res: LexerResult<Option<SpannedToken>>)
        requires
            old(self).wf(),
            old(self).state == LexerState::Normal,
            old(self).idx < old(self).chars.len(),
            start == pos_of(old(self).chars@, old(self).idx as int),
        ensures
            final(self).did_step(old(self), old(self).idx as int, res,
                spec_scan_number(old(self).chars@, old(self).idx as int, LexerState::Normal)),
    {
        let ghost s = self.chars@;
        let ghost i = self.idx as int;
        let num_start = self.idx;
        if self.peek() == Some('0') {
            self.advance();
            let p = self.peek();
            if p == Some('x') || p == Some('X') {
                return self.scan_radix_number(start, 16, CharClass::HexPart, "Expected hex digits after 0x", "Invalid hex literal: 0x");
            } else if p == Some('b') || p == Some('B') {
                return self.scan_radix_number(start, 2, CharClass::BinaryPart, "Expected binary digits after 0b", "Invalid binary literal: 0b");
            } else if p == Some('o') || p == Some('O') {
                return self.scan_radix_number(start, 8, CharClass::OctalPart, "Expected octal digits after 0o", "Invalid octal literal: 0o");
            }
        }
        self.scan_decimal_number(start, num_start)
    }

    /// Scans a decimal integer or float literal that starts at `num_start`;
    /// a leading `0` may already have been consumed.
    #[verifier::rlimit(30)]
    fn scan_decimal_number(&mut self, start: Position, num_start: usize) -> (res: LexerResult<Option<SpannedToken>>)
        requires
            old(self).wf(),
            old(self).state == LexerState::Normal,
            num_start <= old(self).idx <= num_start + 1,
            old(self).idx == num_start + 1 ==> is_at(old(self).chars@, num_start as int, '0'),
            start == pos_of(old(self).chars@, num_start as int),
        ensures
            final(self).did_step(old(self), num_start as int, res,
                spec_decimal_number(old(self).chars@, num_start as int, old(self).idx as int, LexerState::Normal)),
    {
        let ghost s = self.chars@;
        let ghost k0 = self.idx as int;
        let ghost i = num_start as int;
        self.skip_class(CharClass::DecimalPart);
        let ghost j1 = self.idx as int;
        let mut is_float = false;
        let frac = match self.peek_at(1) {
            Some(d) => self.peek() == Some('.') && is_ascii_digit(d),
            None => false,
        };
        if frac {
            is_float = true;
            self.advance();
            self.skip_class(CharClass::DecimalPart);
        }
        let ghost j2 = self.idx as int;
        let mut exp_ok = true;
        let p = self.peek();
        if p == Some('e') || p == Some('E') {
            is_float = true;
            self.advance();
            let p2 = self.peek();
            if p2 == Some('+') || p2 == Some('-') {
                self.advance();
            }
            let exp_start = self.idx;
            self.skip_class(CharClass::DecimalPart);
            if self.idx == exp_start {
                return Err(LexerError::new(LexerErrorKind::InvalidNumber, "Expected exponent digits", start));
            }
            let exp_digits = without_underscores_vec(&self.chars, exp_start, self.idx);
            exp_ok = exp_digits.len() > 0;
            proof {
                assert(float_text_parses(s, exp_start as int, self.idx as int, true) == exp_ok);
            }
        }
        proof {
            lemma_skip_while_bounds(s, k0, CharClass::DecimalPart);
        }
        let text = without_underscores_vec(&self.chars, num_start, self.idx);
        if is_float {
            if !exp_ok {
                let shown = string_from_chars(text.as_slice());
                return Err(Self::error_at(
                    LexerErrorKind::InvalidNumber,
                    message_with_text("Invalid float literal: ", shown.as_str()),
                    start,
                ));
            }
            Ok(Some(SpannedToken::new(Token::FloatLiteral(string_from_chars(text.as_slice())), Span::new(start, self.position))))
        } else {
            proof {
                lemma_class_digits(s, i, self.idx as int, CharClass::DecimalPart);
            }
            match super::scan::parse_digits(&text, 10) {
                Some(n) => Ok(Some(SpannedToken::new(Token::IntLiteral(n), Span::new(start, self.position)))),
                None => {
                    let shown = string_from_chars(text.as_slice());
                    Err(Self::error_at(
                        LexerErrorKind::InvalidNumber,
                        message_with_text("Invalid integer literal: ", shown.as_str()),
                        start,
                    ))
                },
            }
        }
    }

    /// Scans the digits of a prefixed integer; the current character is the
    /// radix letter after the leading `0`.
    fn scan_radix_number(
        &mut self,
        start: Position,
        radix: u64,
        cls: CharClass,
        empty_message: &str,
        bad_prefix: &str,
    ) -> (res: LexerResult<Option<SpannedToken>>)
        requires
            old(self).wf(),
            old(self).state == LexerState::Normal,
            1 <= old(self).idx < old(self).chars.len(),
            start == pos_of(old(self).chars@, old(self).idx - 1),
            (radix == 16 && cls == CharClass::HexPart) || (radix == 2 && cls == CharClass::BinaryPart)
                || (radix == 8 && cls == CharClass::OctalPart),
        ensures
            final(self).did_step(old(self), old(self).idx - 1, res,
                spec_radix_number(old(self).chars@, old(self).idx - 1, old(self).idx as int, radix as int, cls, LexerState::Normal)),
    {
        let ghost s = self.chars@;
        self.advance();
        let ds = self.idx;
        self.skip_class(cls);
        if self.idx == ds {
            return Err(LexerError::new(LexerErrorKind::InvalidNumber, empty_message, start));
        }
        proof {
            lemma_skip_while_bounds(s, ds as int, cls);
            lemma_class_digits(s, ds as int, self.idx as int, cls);
        }
        let digits = without_underscores_vec(&self.chars, ds, self.idx);
        match super::scan::parse_digits(&digits, radix) {
            Some(n) => Ok(Some(SpannedToken::new(Token::IntLiteral(n), Span::new(start, self.position)))),
            None => {
                let shown = string_from_chars(digits.as_slice());
                Err(Self::error_at(LexerErrorKind::InvalidNumber, message_with_text(bad_prefix, shown.as_str()), start))
            },
        }
    }
    // =========================================================================
    //         IDENTIFIERS & KEYWORDS
    // =========================================================================

    /// Scans an identifier, a keyword, or the marker that opens a Rust block.
    pub(super) fn scan_identifier(&mut self, start: Position) -> (res: LexerResult<Option<SpannedToken>>)
        requires
            old(self).wf(),
            old(self).state == LexerState::Normal,
            old(self).idx < old(self).chars.len(),
            start == pos_of(old(self).chars@, old(self).idx as int),
        ensures
            final(self).did_step(old(self), old(self).idx as int, res,
                spec_scan_identifier(old(self).chars@, old(self).idx as int, LexerState::Normal)),
    {
        let ghost s = self.chars@;
        let ident_start = self.idx;
        self.advance();
        self.skip_class(CharClass::IdentContinue);
        let ident = self.text_from(ident_start);
        if str_eq(ident.as_str(), "РастВставкаНЦ") {
            self.state = LexerState::RustBlock;
            return Ok(Some(SpannedToken::new(Token::RustBlockStart, Span::new(start, self.position))));
        }
        if str_eq(ident.as_str(), "ржавчина") || str_eq(ident.as_str(), "Ржавчина") || str_eq(ident.as_str(), "rust") {
            if self.try_scan_rust_alt_start() {
                self.state = LexerState::RustAltBlock;
                return Ok(Some(SpannedToken::new(Token::RustBlockStart, Span::new(start, self.position))));
            }
        }
        let token = match get_keyword_token(ident.as_str()) {
            Some(t) => t,
            None => Token::Ident(ident),
        };
        Ok(Some(SpannedToken::new(token, Span::new(start, self.position))))
    }

    /// After `ржавчина`: moves past `нач` (after whitespace) and answers
    /// `true`, or stays where it was and answers `false`.
    fn try_scan_rust_alt_start(&mut self) -> (r: bool)
        requires
            old(self).wf(),
            old(self).state == LexerState::Normal,
        ensures
            final(self).wf(),
            final(self).same_source(old(self)),
            final(self).state == old(self).state,
            r == spec_alt_start(old(self).chars@, old(self).idx as int).0,
            final(self).idx == spec_alt_start(old(self).chars@, old(self).idx as int).1,
    {
        let saved_idx = self.idx;
        let saved_pos = self.pos;
        let saved_position = self.position;
        self.skip_whitespace();
        match self.peek() {
            Some(c) => {
                if is_ident_start(c) {
                    let word_start = self.idx;
                    self.skip_class(CharClass::IdentContinue);
                    let word = self.text_from(word_start);
                    if str_eq(word.as_str(), "нач") {
                        return true;
                    }
                }
            },
            None => {},
        }
        self.restore(saved_idx, saved_pos, saved_position);
        false
    }

    // =========================================================================
    //         OPERATORS
    // =========================================================================

    /// Scans the longest operator (three, two, then one character); any other
    /// character is consumed and reported as unexpected.
    pub(super) fn try_scan_operator(&mut self, start: Position) -> (res: LexerResult<Option<SpannedToken>>)
        requires
            old(self).wf(),
            old(self).state == LexerState::Normal,
            old(self).idx < old(self).chars.len(),
            start == pos_of(old(self).chars@, old(self).idx as int),
        ensures
            final(self).did_step(old(self), old(self).idx as int, res,
                spec_scan_operator(old(self).chars@, old(self).idx as int, LexerState::Normal)),
    {
        let c1 = self.chars[self.idx];
        let rest = self.chars.len() - self.idx;
        if rest > 2 {
            let v = subrange_vec(&self.chars, self.idx, self.idx + 3);
            let s3 = string_from_chars(v.as_slice());
            match operator_token(s3.as_str()) {
                Some(token) => {
                    self.advance_n(3);
                    return Ok(Some(SpannedToken::new(token, Span::new(start, self.position))));
                },
                None => {},
            }
        }
        if rest > 1 {
            let v = subrange_vec(&self.chars, self.idx, self.idx + 2);
            let s2 = string_from_chars(v.as_slice());
            match operator_token(s2.as_str()) {
                Some(token) => {
                    self.advance_n(2);
                    return Ok(Some(SpannedToken::new(token, Span::new(start, self.position))));
                },
                None => {},
            }
        }
        let v = subrange_vec(&self.chars, self.idx, self.idx + 1);
        let s1 = string_from_chars(v.as_slice());
        match operator_token(s1.as_str()) {
            Some(token) => {
                self.advance();
                Ok(Some(SpannedToken::new(token, Span::new(start, self.position))))
            },
            None => {
                self.advance();
                Err(Self::error_at(
                    LexerErrorKind::UnexpectedChar,
                    message_with_char("Unexpected character: '", c1, "'"),
                    start,
                ))
            },
        }
    }
    // =========================================================================
    //         RUST BLOCKS
    // =========================================================================

    /// Scans the content of `РастВставкаНЦ ... РастВставкаКЦ` up to and past
    /// the end marker.
    pub(super) fn scan_rust_block(&mut self, start: Position) -> (res: LexerResult<Option<SpannedToken>>)
        requires
            old(self).wf(),
            old(self).state == LexerState::RustBlock,
            start == pos_of(old(self).chars@, old(self).idx as int),
        ensures
            final(self).did_step(old(self), old(self).idx as int, res,
                spec_rust_block(old(self).chars@, old(self).idx as int, old(self).idx as int)),
    {
        let ghost s = self.chars@;
        let content_start = self.idx;
        proof {
            reveal_strlit("РастВставкаКЦ");
        }
        loop
            invariant
                self.wf(),
                self.same_source(old(self)),
                self.state == LexerState::RustBlock,
                s == old(self).chars@,
                content_start == old(self).idx,
                content_start <= self.idx,
                start == pos_of(s, content_start as int),
                "РастВставкаКЦ"@.len() == 13,
                spec_rust_block(s, content_start as int, self.idx as int)
                    == spec_rust_block(s, content_start as int, content_start as int),
            decreases self.chars.len() - self.idx,
        {
            if self.is_eof() {
                return Err(LexerError::with_span(
                    LexerErrorKind::UnterminatedRustBlock,
                    "Unterminated Rust block (expected РастВставкаКЦ)",
                    Span::new(start, self.position),
                ));
            }
            if self.starts_with_here("РастВставкаКЦ") {
                let content = subrange_vec(&self.chars, content_start, self.idx);
                self.advance_n(13);
                self.state = LexerState::Normal;
                return Ok(Some(SpannedToken::new(block_end_token(content), Span::new(start, self.position))));
            }
            self.advance();
        }
    }

    /// Scans the content of `ржавчина нач ... кон` up to and past `кон`
    /// standing as a word of its own.
    pub(super) fn scan_rust_alt_block(&mut self, start: Position) -> (res: LexerResult<Option<SpannedToken>>)
        requires
            old(self).wf(),
            old(self).state == LexerState::RustAltBlock,
            start == pos_of(old(self).chars@, old(self).idx as int),
        ensures
            final(self).did_step(old(self), old(self).idx as int, res,
                spec_rust_alt_block(old(self).chars@, old(self).idx as int, old(self).idx as int)),
    {
        let ghost s = self.chars@;
        let content_start = self.idx;
        proof {
            reveal_strlit("кон");
        }
        loop
            invariant
                self.wf(),
                self.same_source(old(self)),
                self.state == LexerState::RustAltBlock,
                s == old(self).chars@,
                content_start == old(self).idx,
                content_start <= self.idx,
                start == pos_of(s, content_start as int),
                "кон"@.len() == 3,
                spec_rust_alt_block(s, content_start as int, self.idx as int)
                    == spec_rust_alt_block(s, content_start as int, content_start as int),
            decreases self.chars.len() - self.idx,
        {
            if self.is_eof() {
                return Err(LexerError::with_span(
                    LexerErrorKind::UnterminatedRustBlock,
                    "Unterminated Rust block (expected кон)",
                    Span::new(start, self.position),
                ));
            }
            if self.starts_with_here("кон") {
                let is_end = match self.peek_at(3) {
                    Some(c) => !is_ident_continue(c),
                    None => true,
                };
                if is_end {
                    let content = subrange_vec(&self.chars, content_start, self.idx);
                    self.advance_n(3);
                    self.state = LexerState::Normal;
                    return Ok(Some(SpannedToken::new(block_end_token(content), Span::new(start, self.position))));
                }
            }
            self.advance();
        }
    }
}

/// The token that ends a Rust block: `RustBlockEnd` when the content is only
/// white space (as `str::trim` sees it), else the content itself.
fn block_end_token(content: Vec<char>) -> (t: Token)
    ensures
        t@ == rust_block_token(content@),
{
    let mut k: usize = 0;
    while k < content.len()
        invariant
            k <= content.len(),
            forall|m: int| 0 <= m < k ==> unicode_white_space(#[trigger] content@[m]),
        decreases content.len() - k,
    {
        if !char_is_whitespace(content[k]) {
            return Token::RustInline(string_from_chars(content.as_slice()));
        }
        k = k + 1;
    }
    Token::RustBlockEnd
}

} // verus!

//! Every step of the lexical grammar moves forward: a step never stops
//! before where it started, and a step that yields a token (other than the
//! end of input) or switches state stops strictly later.

use vstd::prelude::*;
use crate::constants::ident::spec_is_digit_start;
use crate::types::TokenV;
use super::model::{
    at, is_at, CharClass, skip_while, lemma_skip_while_bounds, spec_escape, lemma_escape_bounds,
    spec_string_body, spec_scan_string, count_hashes, lemma_count_hashes_bounds, spec_raw_body,
    spec_scan_raw_string, skip_hashes, lemma_skip_hashes_bounds, spec_interp_text, spec_scan_char,
    spec_radix_number, spec_decimal_number, spec_scan_number, spec_alt_start, spec_scan_identifier,
    spec_rust_block, spec_rust_alt_block, spec_scan_normal, expr_after, spec_next_token,
    spec_next_token_normal, Step, token_start,
};
use super::LexerState;

verus! {

/// Whether a step starting at `i` stops no earlier than `i`, and strictly
/// later when it yields anything but an error or the end of input.
pub open spec fn moves_on(step: Step, i: int) -> bool {
    &&& i <= step.next
    &&& (step.out is Ok && step.out != Ok::<Option<TokenV>, super::model::Fail>(Some(TokenV::EOF)))
        ==> i < step.next
}

proof fn lemma_string_body_next(s: Seq<char>, start: int, k: int, ml: bool, acc: Seq<char>, st: LexerState)
    requires
        0 <= k <= s.len(),
    ensures
        k <= spec_string_body(s, start, k, ml, acc, st).next,
    decreases s.len() - k,
{
    if k < s.len() {
        let c = s[k];
        if c == '"' {
            if ml && !(is_at(s, k + 1, '"') && is_at(s, k + 2, '"')) {
                lemma_string_body_next(s, start, k + 1, ml, acc.push('"'), st);
            }
        } else if c == '\n' && !ml {
        } else if c == '\\' {
            lemma_escape_bounds(s, k + 1);
            let e = spec_escape(s, k + 1);
            if let Ok(ch) = e.ch {
                lemma_string_body_next(s, start, e.next, ml, acc.push(ch), st);
            }
        } else {
            lemma_string_body_next(s, start, k + 1, ml, acc.push(c), st);
        }
    }
}

proof fn lemma_raw_body_next(s: Seq<char>, start: int, k: int, hc: int, acc: Seq<char>, st: LexerState)
    requires
        0 <= k <= s.len(),
    ensures
        k <= spec_raw_body(s, start, k, hc, acc, st).next,
    decreases s.len() - k,
{
    if k < s.len() {
        let c = s[k];
        if c == '"' {
            lemma_count_hashes_bounds(s, k + 1, hc);
            let closing = count_hashes(s, k + 1, hc);
            if closing != hc {
                lemma_raw_body_next(s, start, k + 1 + closing, hc, acc.push('"') + super::model::hashes(closing), st);
            }
        } else {
            lemma_raw_body_next(s, start, k + 1, hc, acc.push(c), st);
        }
    }
}

proof fn lemma_interp_text_next(s: Seq<char>, start: int, k: int, acc: Seq<char>)
    requires
        0 <= k <= s.len(),
    ensures
        k <= spec_interp_text(s, start, k, acc).next,
        spec_interp_text(s, start, k, acc).out is Ok ==> (k < spec_interp_text(s, start, k, acc).next
            || acc.len() > 0),
    decreases s.len() - k,
{
    if k < s.len() {
        let c = s[k];
        if c == '{' && is_at(s, k + 1, '{') {
            lemma_interp_text_next(s, start, k + 2, acc.push('{'));
        } else if c == '}' && is_at(s, k + 1, '}') {
            lemma_interp_text_next(s, start, k + 2, acc.push('}'));
        } else if c == '\\' {
            lemma_escape_bounds(s, k + 1);
            let e = spec_escape(s, k + 1);
            if let Ok(ch) = e.ch {
                lemma_interp_text_next(s, start, e.next, acc.push(ch));
            }
        } else if c != '\n' && c != '"' && c != '{' && c != '}' {
            lemma_interp_text_next(s, start, k + 1, acc.push(c));
        }
    }
}

proof fn lemma_rust_block_next(s: Seq<char>, start: int, k: int)
    requires
        0 <= k <= s.len(),
    ensures
        k <= spec_rust_block(s, start, k).next,
        spec_rust_block(s, start, k).out is Ok ==> k < spec_rust_block(s, start, k).next,
    decreases s.len() - k,
{
    reveal_strlit("РастВставкаКЦ");
    if k < s.len() && !super::model::starts_at(s, k, "РастВставкаКЦ"@) {
        lemma_rust_block_next(s, start, k + 1);
    }
}

proof fn lemma_rust_alt_block_next(s: Seq<char>, start: int, k: int)
    requires
        0 <= k <= s.len(),
    ensures
        k <= spec_rust_alt_block(s, start, k).next,
        spec_rust_alt_block(s, start, k).out is Ok ==> k < spec_rust_alt_block(s, start, k).next,
    decreases s.len() - k,
{
    if k < s.len() && !super::model::alt_end_at(s, k) {
        lemma_rust_alt_block_next(s, start, k + 1);
    }
}

/// A token of the normal state is at least one character long.
proof fn lemma_scan_normal_next(s: Seq<char>, k: int)
    requires
        0 <= k < s.len(),
    ensures
        k < spec_scan_normal(s, k).next,
{
    let c = s[k];
    let st = LexerState::Normal;
    if c == '\n' {
    } else if c == '|' && !is_at(s, k + 1, '>') {
        lemma_skip_while_bounds(s, k + 1, CharClass::NotNewline);
    } else if c == '/' && is_at(s, k + 1, '/') {
        lemma_skip_while_bounds(s, k + 2, CharClass::NotNewline);
        if is_at(s, k + 2, '/') {
            lemma_skip_while_bounds(s, k + 3, CharClass::NotNewline);
            if is_at(s, k + 3, ' ') {
                lemma_skip_while_bounds(s, k + 4, CharClass::NotNewline);
            }
        } else if is_at(s, k + 2, ' ') {
            lemma_skip_while_bounds(s, k + 3, CharClass::NotNewline);
        }
    } else if c == '"' {
        if is_at(s, k + 1, '"') && is_at(s, k + 2, '"') {
            lemma_string_body_next(s, k, k + 3, true, Seq::empty(), st);
        } else if !is_at(s, k + 1, '"') {
            lemma_string_body_next(s, k, k + 1, false, Seq::empty(), st);
        }
    } else if c == 'r' && (is_at(s, k + 1, '"') || is_at(s, k + 1, '#')) {
        lemma_skip_hashes_bounds(s, k + 1);
        let j = skip_hashes(s, k + 1);
        if is_at(s, j, '"') {
            lemma_raw_body_next(s, k, j + 1, j - (k + 1), Seq::empty(), st);
        }
    } else if c == 'f' && is_at(s, k + 1, '"') {
    } else if c == '\'' {
        if k + 1 < s.len() && s[k + 1] == '\\' {
            lemma_escape_bounds(s, k + 2);
        }
    } else if spec_is_digit_start(c) || (c == '.' && (at(s, k + 1) matches Some(d) && crate::text::spec_is_ascii_digit(d))) {
        lemma_scan_number_next(s, k);
    } else if crate::constants::ident::spec_is_ident_start(c) {
        lemma_skip_while_bounds(s, k + 1, CharClass::IdentContinue);
        let j = skip_while(s, k + 1, CharClass::IdentContinue);
        lemma_skip_while_bounds(s, j, CharClass::Whitespace);
        let w = skip_while(s, j, CharClass::Whitespace);
        if w < s.len() {
            lemma_skip_while_bounds(s, w, CharClass::IdentContinue);
        }
    } else {
    }
}

proof fn lemma_scan_number_next(s: Seq<char>, k: int)
    requires
        0 <= k < s.len(),
        spec_is_digit_start(s[k]) || (s[k] == '.' && (at(s, k + 1) matches Some(d) && crate::text::spec_is_ascii_digit(d))),
    ensures
        k < spec_scan_number(s, k, LexerState::Normal).next,
{
    if is_at(s, k, '0') && k + 1 < s.len() && (s[k + 1] == 'x' || s[k + 1] == 'X' || s[k + 1] == 'b'
        || s[k + 1] == 'B' || s[k + 1] == 'o' || s[k + 1] == 'O') {
        lemma_skip_while_bounds(s, k + 2, CharClass::HexPart);
        lemma_skip_while_bounds(s, k + 2, CharClass::BinaryPart);
        lemma_skip_while_bounds(s, k + 2, CharClass::OctalPart);
    } else {
        let k0 = if is_at(s, k, '0') { k + 1 } else { k };
        lemma_skip_while_bounds(s, k0, CharClass::DecimalPart);
        lemma_skip_while_bounds(s, k, CharClass::DecimalPart);
        let j1 = skip_while(s, k0, CharClass::DecimalPart);
        if j1 + 1 < s.len() {
            lemma_skip_while_bounds(s, j1 + 1, CharClass::DecimalPart);
        }
        let has_frac = is_at(s, j1, '.') && (at(s, j1 + 1) matches Some(d) && crate::text::spec_is_ascii_digit(d));
        let j2 = if has_frac { skip_while(s, j1 + 1, CharClass::DecimalPart) } else { j1 };
        if j2 + 1 <= s.len() {
            lemma_skip_while_bounds(s, j2 + 1, CharClass::DecimalPart);
        }
        if j2 + 2 <= s.len() {
            lemma_skip_while_bounds(s, j2 + 2, CharClass::DecimalPart);
        }
    }
}

/// Each step of the grammar moves forward (see [`moves_on`]).
pub proof fn lemma_next_token_moves_on(s: Seq<char>, i: int, st: LexerState)
    requires
        0 <= i <= s.len(),
    ensures
        moves_on(spec_next_token(s, i, st), i),
        i <= token_start(s, i, st) <= spec_next_token(s, i, st).next,
{
    lemma_skip_while_bounds(s, i, CharClass::Whitespace);
    let k = token_start(s, i, st);
    match st {
        LexerState::RustBlock => lemma_rust_block_next(s, k, k),
        LexerState::RustAltBlock => lemma_rust_alt_block_next(s, k, k),
        LexerState::InterpolatedStringText => lemma_interp_text_next(s, k, k, Seq::empty()),
        LexerState::InterpolatedStringExpr { brace_depth } => {
            if k < s.len() && !(s[k] == '}' && brace_depth == 1) {
                lemma_skip_while_bounds(s, k, CharClass::Whitespace);
                lemma_scan_normal_next(s, k);
            }
        },
        LexerState::Normal => {
            if k < s.len() {
                lemma_scan_normal_next(s, k);
            }
        },
    }
}

} // verus!

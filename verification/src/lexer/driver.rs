//! Choosing a scanner for the next token, and running the lexer to the end.

use vstd::prelude::*;
use crate::constants::ident::{is_digit_start, is_ident_start};
use crate::text::is_ascii_digit;
use crate::types::{Token, TokenV};
use super::model::{
    at, is_at, CharClass, skip_while, lemma_skip_while_bounds, Step, spec_scan_normal, expr_after,
    spec_next_token, spec_next_token_normal, token_start,
};
use super::model::Fail;
use super::progress::lemma_next_token_moves_on;
use super::run::{lemma_recovering_step, lex_run, lex_run_recovering, after_error, prepend, tokens_match, errors_match, next_item, RunToken};
use super::{error_matches, pos_of, step_matches, TokenIterator, Lexer, LexerError, LexerErrorKind, LexerResult, LexerState, Position, Span, SpannedToken};

verus! {

impl Lexer {
    /// Returns the next token, or `None` for something that yields no token
    /// (the boundaries of an interpolated expression).
    ///
    /// White space is skipped first, except in the text of an interpolated
    /// string, where it belongs to the text. At the end of the input the
    /// token is `EOF` in the normal state; in any other state the scanner
    /// reports what is left unterminated. What follows is the grammar's step
    /// for the current state.
    pub fn next_token(&mut self) -> (res: LexerResult<Option<SpannedToken>>)
        requires
            old(self).wf(),
        ensures
            final(self).did_step(
                old(self),
                token_start(old(self).source(), old(self).index(), old(self).lex_state()),
                res,
                spec_next_token(old(self).source(), old(self).index(), old(self).lex_state()),
            ),
    {
        proof {
            lemma_skip_while_bounds(self.chars@, self.idx as int, CharClass::Whitespace);
        }
        if self.state != LexerState::InterpolatedStringText {
            self.skip_whitespace();
        }
        let start = self.position;
        match self.state {
            LexerState::RustBlock => self.scan_rust_block(start),
            LexerState::RustAltBlock => self.scan_rust_alt_block(start),
            LexerState::InterpolatedStringText => self.scan_interpolated_text(start),
            LexerState::InterpolatedStringExpr { .. } => {
                if self.is_eof() {
                    return Err(LexerError::new(
                        LexerErrorKind::UnterminatedString,
                        "Unterminated interpolated string",
                        self.position,
                    ));
                }
                self.scan_interpolated_expr(start)
            },
            LexerState::Normal => {
                if self.is_eof() {
                    return Ok(Some(SpannedToken::new(Token::EOF, Span::point(self.position))));
                }
                self.scan_normal(start)
            },
        }
    }

    /// `next_token` in the normal state.
    fn next_token_normal(&mut self) -> (res: LexerResult<Option<SpannedToken>>)
        requires
            old(self).wf(),
            old(self).state == LexerState::Normal,
        ensures
            final(self).did_step(
                old(self),
                skip_while(old(self).chars@, old(self).idx as int, CharClass::Whitespace),
                res,
                spec_next_token_normal(old(self).chars@, old(self).idx as int),
            ),
    {
        self.skip_whitespace();
        if self.is_eof() {
            return Ok(Some(SpannedToken::new(Token::EOF, Span::point(self.position))));
        }
        let start = self.position;
        self.scan_normal(start)
    }

    /// Chooses the scanner for the current character in the normal state.
    fn scan_normal(&mut self, start: Position) -> (res: LexerResult<Option<SpannedToken>>)
        requires
            old(self).wf(),
            old(self).state == LexerState::Normal,
            old(self).idx < old(self).chars.len(),
            start == pos_of(old(self).chars@, old(self).idx as int),
        ensures
            final(self).did_step(old(self), old(self).idx as int, res,
                spec_scan_normal(old(self).chars@, old(self).idx as int)),
    {
        let c = self.chars[self.idx];
        if c == '\n' {
            self.advance();
            return Ok(Some(SpannedToken::new(Token::Newline, Span::new(start, self.position))));
        }
        if c == '|' && self.peek_at(1) != Some('>') {
            return self.scan_comment(start);
        }
        if c == '/' && self.peek_at(1) == Some('/') {
            return self.scan_line_comment(start);
        }
        if c == '"' {
            return self.scan_string(start);
        }
        if c == 'r' && (self.peek_at(1) == Some('"') || self.peek_at(1) == Some('#')) {
            return self.scan_raw_string(start);
        }
        if c == 'f' && self.peek_at(1) == Some('"') {
            return self.scan_interpolated_string(start);
        }
        if c == '\'' {
            return self.scan_char(start);
        }
        let dot_number = c == '.' && match self.peek_at(1) {
            Some(d) => is_ascii_digit(d),
            None => false,
        };
        if is_digit_start(c) || dot_number {
            return self.scan_number(start);
        }
        if is_ident_start(c) {
            return self.scan_identifier(start);
        }
        self.try_scan_operator(start)
    }

    /// Scans inside an interpolated expression `{ ... }`: a `}` at depth one
    /// ends it; any other token is a normal token, and braces change the depth.
    fn scan_interpolated_expr(&mut self, start: Position) -> (res: LexerResult<Option<SpannedToken>>)
        requires
            old(self).wf(),
            old(self).state is InterpolatedStringExpr,
            old(self).idx < old(self).chars.len(),
            !crate::constants::ident::spec_is_whitespace(old(self).chars@[old(self).idx as int]),
        ensures
            ({
                let s = old(self).chars@;
                let k = old(self).idx as int;
                let depth = old(self).state->brace_depth;
                final(self).did_step(old(self), k, res,
                    if s[k] == '}' && depth == 1 {
                        Step { out: Ok(None), next: k + 1, state: LexerState::InterpolatedStringText }
                    } else {
                        expr_after(spec_next_token_normal(s, k), depth)
                    })
            }),
    {
        let ghost s = self.chars@;
        let ghost k = self.idx as int;
        let depth = match self.state {
            LexerState::InterpolatedStringExpr { brace_depth } => brace_depth,
            _ => 1,
        };
        if self.peek() == Some('}') && depth == 1 {
            self.advance();
            self.state = LexerState::InterpolatedStringText;
            return Ok(None);
        }
        proof {
            super::progress::lemma_next_token_moves_on(s, k, LexerState::Normal);
            lemma_skip_while_bounds(s, k, CharClass::Whitespace);
        }
        self.state = LexerState::Normal;
        let result = self.next_token_normal();
        let mut new_depth = depth;
        match &result {
            Ok(Some(tok)) => {
                match tok.token {
                    Token::LBrace => {
                        new_depth = depth + 1;
                    },
                    Token::RBrace => {
                        new_depth = depth - 1;
                        if new_depth == 0 {
                            self.state = LexerState::InterpolatedStringText;
                            return Ok(None);
                        }
                    },
                    _ => {},
                }
            },
            _ => {},
        }
        self.state = LexerState::InterpolatedStringExpr { brace_depth: new_depth };
        result
    }
    /// Tokenizes the rest of the input, up to and including `EOF`.
    ///
    /// Without error recovery the first error is returned. With it, each
    /// error is collected, one character is skipped, and lexing goes on; the
    /// result is then always the tokens.
    pub fn tokenize(&mut self) -> (res: LexerResult<Vec<SpannedToken>>)
        requires
            old(self).wf(),
        ensures
            final(self).wf(),
            final(self).source() == old(self).source(),
            final(self).recovers() == old(self).recovers(),
            !old(self).recovers() ==> final(self).collected() == old(self).collected(),
            !old(self).recovers() ==> match lex_run(old(self).source(), old(self).index(), old(self).lex_state()) {
                Ok(ts) => res matches Ok(v) && tokens_match(v@, old(self).source(), ts),
                Err(f) => res matches Err(e) && error_matches(e, old(self).source(), f),
            },
            old(self).recovers() ==> ({
                let r = lex_run_recovering(old(self).source(), old(self).index(), old(self).lex_state());
                &&& res matches Ok(v) && tokens_match(v@, old(self).source(), r.0)
                &&& final(self).collected().len() == old(self).collected().len() + r.1.len()
                &&& final(self).collected().take(old(self).collected().len() as int) == old(self).collected()
                &&& errors_match(final(self).collected().skip(old(self).collected().len() as int), old(self).source(), r.1)
            }),
            res matches Ok(v) ==> v@.len() > 0 && v@.last().token is EOF,
    {
        if self.error_recovery {
            Ok(self.tokenize_recovering())
        } else {
            self.tokenize_strict()
        }
    }

    /// `tokenize` without error recovery.
    #[verifier::rlimit(80)]
    #[verifier::spinoff_prover]
    fn tokenize_strict(&mut self) -> (res: LexerResult<Vec<SpannedToken>>)
        requires
            old(self).wf(),
            !old(self).error_recovery,
        ensures
            final(self).wf(),
            final(self).same_source(old(self)),
            match lex_run(old(self).chars@, old(self).idx as int, old(self).state) {
                Ok(ts) => res matches Ok(v) && tokens_match(v@, old(self).chars@, ts),
                Err(f) => res matches Err(e) && error_matches(e, old(self).chars@, f),
            },
            res matches Ok(v) ==> v@.len() > 0 && v@.last().token is EOF,
    {
        let ghost s = self.chars@;
        let ghost i0 = self.idx as int;
        let ghost st0 = self.state;
        let mut tokens: Vec<SpannedToken> = Vec::new();
        let ghost mut acc: Seq<RunToken> = Seq::empty();
        proof {
            match lex_run(s, i0, st0) {
                Ok(ts) => assert(acc + ts =~= ts),
                Err(f) => {},
            }
        }
        loop
            invariant
                self.wf(),
                self.same_source(old(self)),
                s == old(self).chars@,
                i0 == old(self).idx,
                st0 == old(self).state,
                tokens_match(tokens@, s, acc),
                lex_run(s, i0, st0) == prepend(acc, lex_run(s, self.idx as int, self.state)),
            decreases self.chars.len() - self.idx,
        {
            let ghost i = self.idx as int;
            let ghost st = self.state;
            let ghost k = token_start(s, i, st);
            proof {
                lemma_next_token_moves_on(s, i, st);
            }
            match self.next_token() {
                Ok(Some(tok)) => {
                    let is_eof = tok.is_eof();
                    let ghost item: RunToken = (tok.token@, k, self.idx as int);
                    tokens.push(tok);
                    proof {
                        match lex_run(s, self.idx as int, self.state) {
                            Ok(ts) => assert(acc.push(item) + ts =~= acc + (seq![item] + ts)),
                            Err(f) => {},
                        }
                        acc = acc.push(item);
                    }
                    if is_eof {
                        return Ok(tokens);
                    }
                },
                Ok(None) => {},
                Err(e) => {
                    return Err(e);
                },
            }
        }
    }

    /// `tokenize` with error recovery: errors are collected, one character
    /// is skipped after each, and lexing goes on to `EOF`.
    #[verifier::rlimit(100)]
    #[verifier::spinoff_prover]
    fn tokenize_recovering(&mut self) -> (v: Vec<SpannedToken>)
        requires
            old(self).wf(),
            old(self).error_recovery,
        ensures
            ({
                let s = old(self).chars@;
                let r = lex_run_recovering(s, old(self).idx as int, old(self).state);
                &&& final(self).wf()
                &&& final(self).chars@ == s
                &&& final(self).error_recovery
                &&& tokens_match(v@, s, r.0)
                &&& final(self).errors@.len() == old(self).errors@.len() + r.1.len()
                &&& final(self).errors@.take(old(self).errors@.len() as int) == old(self).errors@
                &&& errors_match(final(self).errors@.skip(old(self).errors@.len() as int), s, r.1)
            }),
            v@.len() > 0 && v@.last().token is EOF,
    {
        let ghost s = self.chars@;
        let ghost i0 = self.idx as int;
        let ghost st0 = self.state;
        let ghost e0 = self.errors@;
        let mut tokens: Vec<SpannedToken> = Vec::new();
        let ghost mut acc: Seq<RunToken> = Seq::empty();
        let ghost mut facc: Seq<Fail> = Seq::empty();
        proof {
            assert(self.errors@.take(e0.len() as int) =~= e0);
            assert(self.errors@.skip(e0.len() as int) =~= Seq::<LexerError>::empty());
            assert(lex_run_recovering(s, i0, st0).0 =~= acc + lex_run_recovering(s, i0, st0).0);
            assert(lex_run_recovering(s, i0, st0).1 =~= facc + lex_run_recovering(s, i0, st0).1);
        }
        loop
            invariant
                self.wf(),
                self.chars@ == s,
                s == old(self).chars@,
                self.error_recovery,
                i0 == old(self).idx,
                st0 == old(self).state,
                e0 == old(self).errors@,
                tokens_match(tokens@, s, acc),
                lex_run_recovering(s, i0, st0).0 == acc + lex_run_recovering(s, self.idx as int, self.state).0,
                lex_run_recovering(s, i0, st0).1 == facc + lex_run_recovering(s, self.idx as int, self.state).1,
                self.errors@.len() == e0.len() + facc.len(),
                self.errors@.take(e0.len() as int) == e0,
                errors_match(self.errors@.skip(e0.len() as int), s, facc),
            decreases self.chars.len() - self.idx,
        {
            let ghost i = self.idx as int;
            let ghost st = self.state;
            let ghost k = token_start(s, i, st);
            let ghost step = spec_next_token(s, i, st);
            proof {
                lemma_next_token_moves_on(s, i, st);
            }
            let at_end = self.is_eof();
            let r = self.next_token();
            proof {
                lemma_recovering_step(s, i, st);
            }
            match r {
                Ok(Some(tok)) => {
                    let is_eof = tok.is_eof();
                    let ghost item: RunToken = (tok.token@, k, self.idx as int);
                    tokens.push(tok);
                    proof {
                        let rrest = lex_run_recovering(s, self.idx as int, self.state);
                        assert(acc.push(item) + rrest.0 =~= acc + (seq![item] + rrest.0));
                        acc = acc.push(item);
                    }
                    if is_eof {
                        proof {
                            assert(acc =~= acc + Seq::<RunToken>::empty());
                            assert(facc =~= facc + Seq::<Fail>::empty());
                        }
                        return tokens;
                    }
                },
                Ok(None) => {},
                Err(e) => {
                    let ghost f = step.out->Err_0;
                    let ghost before = self.errors@;
                    self.errors.push(e);
                    if at_end {
                        let eof = SpannedToken::new(Token::EOF, Span::point(self.position));
                        let ghost item: RunToken = (TokenV::EOF, s.len() as int, s.len() as int);
                        tokens.push(eof);
                        proof {
                            assert(self.errors@.take(e0.len() as int) =~= e0);
                            assert(self.errors@.skip(e0.len() as int) =~= before.skip(e0.len() as int).push(e));
                            acc = acc.push(item);
                            facc = facc.push(f);
                            assert(acc =~= acc + Seq::<RunToken>::empty());
                        }
                        return tokens;
                    }
                    self.advance();
                    proof {
                        assert(self.errors@.take(e0.len() as int) =~= e0);
                        assert(self.errors@.skip(e0.len() as int) =~= before.skip(e0.len() as int).push(e));
                        let rrest = lex_run_recovering(s, self.idx as int, self.state);
                        assert(facc.push(f) + rrest.1 =~= facc + (seq![f] + rrest.1));
                        facc = facc.push(f);
                    }
                },
            }
        }
    }
    /// Returns an iterator over the tokens.
    pub fn tokens(self) -> (it: TokenIterator)
        requires
            self.wf(),
        ensures
            it.lexer() == self,
            !it.is_done(),
    {
        TokenIterator { lexer: self, done: false }
    }
}

impl TokenIterator {
    /// The next token, or the error that ends the tokens; `None` once `EOF`
    /// or an error has been yielded.
    pub fn next(&mut self) -> (r: Option<LexerResult<SpannedToken>>)
        requires
            old(self).lexer().wf(),
        ensures
            final(self).lexer().wf(),
            final(self).lexer().source() == old(self).lexer().source(),
            old(self).is_done() ==> r is None && *final(self) == *old(self),
            !old(self).is_done() ==> ({
                let l = old(self).lexer();
                let (k, step) = next_item(l.source(), l.index(), l.lex_state());
                &&& final(self).lexer().index() == step.next
                &&& final(self).lexer().lex_state() == step.state
                &&& r matches Some(x) && step_matches(
                    match x { Ok(t) => Ok(Some(t)), Err(e) => Err(e) }, l.source(), k, step)
                &&& final(self).is_done() == (step.out is Err || step.out == Ok::<Option<TokenV>, Fail>(Some(TokenV::EOF)))
            }),
    {
        if self.done {
            return None;
        }
        let ghost s = self.lexer.chars@;
        let ghost i0 = self.lexer.idx as int;
        let ghost st0 = self.lexer.state;
        loop
            invariant
                self.lexer.wf(),
                self.lexer.chars@ == s,
                s == old(self).lexer.chars@,
                !self.done,
                !old(self).done,
                next_item(s, i0, st0) == next_item(s, self.lexer.idx as int, self.lexer.state),
                i0 == old(self).lexer.idx,
                st0 == old(self).lexer.state,
            decreases self.lexer.chars.len() - self.lexer.idx,
        {
            let ghost i = self.lexer.idx as int;
            let ghost st = self.lexer.state;
            proof {
                lemma_next_token_moves_on(s, i, st);
            }
            match self.lexer.next_token() {
                Ok(Some(tok)) => {
                    if tok.is_eof() {
                        self.done = true;
                    }
                    return Some(Ok(tok));
                },
                Ok(None) => {},
                Err(e) => {
                    self.done = true;
                    return Some(Err(e));
                },
            }
        }
    }
}

} // verus!

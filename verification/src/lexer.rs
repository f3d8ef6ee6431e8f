//! Kumir 3 lexer: turns UTF-8 source text into tokens with source spans.
//!
//! Supported: Cyrillic identifiers, Kumir 2/3 keywords, string literals
//! (`"..."`, `"""..."""`, `r"..."`, `r#"..."#`, `f"...{expr}..."`), number
//! literals (decimal, `0x`, `0b`, `0o`, float, scientific), embedded Rust
//! (`РастВставкаНЦ...РастВставкаКЦ`, `ржавчина нач...кон`), comments
//! (`| ...`, `// ...`, `/// ...`) and all operators and delimiters.
//!
//! The grammar each scanner follows is stated in [`model`].

pub mod model;
mod scan;
mod words;
pub mod progress;
mod driver;
pub mod run;
pub mod laws;

use vstd::prelude::*;
use crate::text::{chars_of, char_utf8_len, len_utf8, lemma_utf8_len_prefix, utf8_len};
use crate::text::{decimal_digits, push_chars, string_from_chars, u64_to_decimal};
use crate::types::{token_tag, spec_token_tag, Token, TokenV};
use self::model::{at, spec_next_token, skip_while, CharClass, Fail, Step};

verus! {

// =============================================================================
//         POSITION
// =============================================================================

/// Source code position.
#[derive(Debug, Clone, Copy, PartialEq, Eq, Structural, Default)]
pub struct Position {
    /// Line number (1-based)
    pub line: usize,
    /// Column number (1-based, in characters)
    pub column: usize,
    /// Byte offset from source start
    pub offset: usize,
}

impl Position {
    /// Creates a new position.
    pub fn new(line: usize, column: usize, offset: usize) -> (r: Self)
        ensures
            r == (Position { line, column, offset }),
    {
        Position { line, column, offset }
    }

    /// Creates position at start of file.
    pub fn start() -> (r: Self)
        ensures
            r == (Position { line: 1, column: 1, offset: 0 }),
    {
        Position { line: 1, column: 1, offset: 0 }
    }
}

/// Line and column (both 1-based) after the first `i` characters of `s`:
/// a newline starts the next line at column 1, any other character moves
/// one column right.
pub open spec fn line_col(s: Seq<char>, i: int) -> (int, int)
    decreases i,
{
    if i <= 0 {
        (1, 1)
    } else {
        let p = line_col(s, i - 1);
        if s[i - 1] == '\n' {
            (p.0 + 1, 1)
        } else {
            (p.0, p.1 + 1)
        }
    }
}

/// The position of character index `i` in `s`.
pub open spec fn pos_of(s: Seq<char>, i: int) -> Position {
    Position {
        line: line_col(s, i).0 as usize,
        column: line_col(s, i).1 as usize,
        offset: utf8_len(s.take(i)) as usize,
    }
}

pub proof fn lemma_line_col_bounds(s: Seq<char>, i: int)
    requires
        0 <= i,
    ensures
        1 <= line_col(s, i).0 <= i + 1,
        1 <= line_col(s, i).1 <= i + 1,
    decreases i,
{
    if i > 0 {
        lemma_line_col_bounds(s, i - 1);
    }
}

// =============================================================================
//         SPAN
// =============================================================================

/// Source code span (range of positions).
#[derive(Debug, Clone, Copy, PartialEq, Eq, Structural, Default)]
pub struct Span {
    /// Start position (inclusive)
    pub start: Position,
    /// End position (exclusive)
    pub end: Position,
}

impl Span {
    /// Creates a new span.
    pub fn new(start: Position, end: Position) -> (r: Self)
        ensures
            r == (Span { start, end }),
    {
        Span { start, end }
    }

    /// Creates a zero-length span at position.
    pub fn point(pos: Position) -> (r: Self)
        ensures
            r == (Span { start: pos, end: pos }),
    {
        Span { start: pos, end: pos }
    }

    /// Merges two spans into one covering both: the earlier start and the
    /// later end (by byte offset).
    pub fn merge(self, other: Span) -> (r: Span)
        ensures
            r.start == (if self.start.offset <= other.start.offset { self.start } else { other.start }),
            r.end == (if self.end.offset >= other.end.offset { self.end } else { other.end }),
    {
        Span {
            start: if self.start.offset <= other.start.offset {
                self.start
            } else {
                other.start
            },
            end: if self.end.offset >= other.end.offset {
                self.end
            } else {
                other.end
            },
        }
    }

    /// Returns the length in bytes (zero for an inverted span).
    pub fn len(&self) -> (r: usize)
        ensures
            r == (if self.end.offset >= self.start.offset { self.end.offset - self.start.offset } else { 0 }),
    {
        self.end.offset.saturating_sub(self.start.offset)
    }

    /// Checks if span is empty.
    pub fn is_empty(&self) -> (r: bool)
        ensures
            r == (self.start.offset >= self.end.offset),
    {
        self.start.offset >= self.end.offset
    }
}

/// A merged span covers both spans: it starts no later and ends no earlier.
pub proof fn lemma_merge_covers(a: Span, b: Span)
    ensures
        ({
            let m = Span {
                start: if a.start.offset <= b.start.offset { a.start } else { b.start },
                end: if a.end.offset >= b.end.offset { a.end } else { b.end },
            };
            &&& m.start.offset <= a.start.offset && m.start.offset <= b.start.offset
            &&& m.end.offset >= a.end.offset && m.end.offset >= b.end.offset
        }),
{
}

// =============================================================================
//         SPANNED TOKEN
// =============================================================================

/// Token with source location information.
#[derive(Debug, Clone, PartialEq)]
pub struct SpannedToken {
    /// The token variant
    pub token: Token,
    /// Source span
    pub span: Span,
}

impl SpannedToken {
    /// Creates a new spanned token.
    pub fn new(token: Token, span: Span) -> (r: Self)
        ensures
            r.token == token,
            r.span == span,
    {
        SpannedToken { token, span }
    }

    /// Checks if this is the same token variant (payloads are ignored).
    pub fn is(&self, token: &Token) -> (r: bool)
        ensures
            r == (spec_token_tag(self.token@) == spec_token_tag(token@)),
    {
        token_tag(&self.token) == token_tag(token)
    }

    /// Checks if this is EOF.
    pub fn is_eof(&self) -> (r: bool)
        ensures
            r == (self.token is EOF),
    {
        matches!(self.token, Token::EOF)
    }

    /// Checks if this is a newline.
    pub fn is_newline(&self) -> (r: bool)
        ensures
            r == (self.token is Newline),
    {
        matches!(self.token, Token::Newline)
    }

    /// Checks if this is a comment.
    pub fn is_comment(&self) -> (r: bool)
        ensures
            r == (self.token is Comment || self.token is DocComment),
    {
        matches!(self.token, Token::Comment(_) | Token::DocComment(_))
    }
}

// =============================================================================
//         LEXER ERROR
// =============================================================================

/// Lexical analysis error.
#[derive(Debug, Clone, PartialEq)]
pub struct LexerError {
    /// Error kind
    pub kind: LexerErrorKind,
    /// Error message
    pub message: String,
    /// Error position
    pub position: Position,
    /// Optional span (for errors covering multiple characters)
    pub span: Option<Span>,
}

/// Kinds of lexer errors.
#[derive(Debug, Clone, Copy, PartialEq, Eq, Structural)]
pub enum LexerErrorKind {
    /// Unexpected character
    UnexpectedChar,
    /// Unterminated string literal
    UnterminatedString,
    /// Unterminated character literal
    UnterminatedChar,
    /// Invalid escape sequence
    InvalidEscape,
    /// Invalid number format
    InvalidNumber,
    /// Unterminated Rust block
    UnterminatedRustBlock,
    /// Empty character literal
    EmptyCharLiteral,
    /// Multi-character in char literal
    MultiCharLiteral,
    /// Invalid Unicode escape
    InvalidUnicodeEscape,
    /// Unexpected EOF
    UnexpectedEof,
}

impl LexerErrorKind {
    /// The stable error code of the kind: `E` and three digits, numbered in
    /// the order in which the kinds are declared.
    pub open spec fn code_text(self) -> Seq<char> {
        let d = match self {
            LexerErrorKind::UnexpectedChar => seq!['0', '1'],
            LexerErrorKind::UnterminatedString => seq!['0', '2'],
            LexerErrorKind::UnterminatedChar => seq!['0', '3'],
            LexerErrorKind::InvalidEscape => seq!['0', '4'],
            LexerErrorKind::InvalidNumber => seq!['0', '5'],
            LexerErrorKind::UnterminatedRustBlock => seq!['0', '6'],
            LexerErrorKind::EmptyCharLiteral => seq!['0', '7'],
            LexerErrorKind::MultiCharLiteral => seq!['0', '8'],
            LexerErrorKind::InvalidUnicodeEscape => seq!['0', '9'],
            LexerErrorKind::UnexpectedEof => seq!['1', '0'],
        };
        seq!['E', '0'] + d
    }

    /// The stable error code (`E001` ... `E010`) used when reporting.
    pub fn code(&self) -> (r: &'static str)
        ensures
            r@ == self.code_text(),
    {
        let r = match self {
            LexerErrorKind::UnexpectedChar => "E001",
            LexerErrorKind::UnterminatedString => "E002",
            LexerErrorKind::UnterminatedChar => "E003",
            LexerErrorKind::InvalidEscape => "E004",
            LexerErrorKind::InvalidNumber => "E005",
            LexerErrorKind::UnterminatedRustBlock => "E006",
            LexerErrorKind::EmptyCharLiteral => "E007",
            LexerErrorKind::MultiCharLiteral => "E008",
            LexerErrorKind::InvalidUnicodeEscape => "E009",
            LexerErrorKind::UnexpectedEof => "E010",
        };
        proof {
            reveal_strlit("E001");
            reveal_strlit("E002");
            reveal_strlit("E003");
            reveal_strlit("E004");
            reveal_strlit("E005");
            reveal_strlit("E006");
            reveal_strlit("E007");
            reveal_strlit("E008");
            reveal_strlit("E009");
            reveal_strlit("E010");
            assert(r@ =~= self.code_text());
        }
        r
    }
}

impl LexerError {
    /// Creates a new lexer error.
    pub fn new(kind: LexerErrorKind, message: &str, position: Position) -> (r: Self)
        ensures
            r.kind == kind,
            r.message@ == message@,
            r.position == position,
            r.span is None,
    {
        LexerError { kind, message: message.to_owned(), position, span: None }
    }

    /// Creates error with span; its position is the span's start.
    pub fn with_span(kind: LexerErrorKind, message: &str, span: Span) -> (r: Self)
        ensures
            r.kind == kind,
            r.message@ == message@,
            r.position == span.start,
            r.span == Some(span),
    {
        LexerError { kind, message: message.to_owned(), position: span.start, span: Some(span) }
    }

    /// The error as text: `[code] message at line:column`.
    pub fn to_text(&self) -> (r: String)
        ensures
            r@ == seq!['['] + self.kind.code_text() + seq![']', ' '] + self.message@ + seq![
                ' ',
                'a',
                't',
                ' ',
            ] + decimal_digits(self.position.line as nat) + seq![':'] + decimal_digits(
                self.position.column as nat,
            ),
    {
        let mut v: Vec<char> = Vec::new();
        v.push('[');
        push_chars(&mut v, &chars_of(self.kind.code()));
        v.push(']');
        v.push(' ');
        push_chars(&mut v, &chars_of(self.message.as_str()));
        v.push(' ');
        v.push('a');
        v.push('t');
        v.push(' ');
        push_chars(&mut v, &chars_of(u64_to_decimal(self.position.line as u64).as_str()));
        v.push(':');
        push_chars(&mut v, &chars_of(u64_to_decimal(self.position.column as u64).as_str()));
        proof {
            assert(v@ =~= seq!['['] + self.kind.code_text() + seq![']', ' '] + self.message@ + seq![
                ' ',
                'a',
                't',
                ' ',
            ] + decimal_digits(self.position.line as nat) + seq![':'] + decimal_digits(
                self.position.column as nat,
            ));
        }
        string_from_chars(v.as_slice())
    }
}

/// Lexer result type.
pub type LexerResult<T> = Result<T, LexerError>;

// =============================================================================
//         LEXER STATE
// =============================================================================

/// Lexer state for special contexts.
#[derive(Debug, Clone, Copy, PartialEq, Eq, Structural)]
pub enum LexerState {
    /// Normal tokenization
    Normal,
    /// Inside Rust block (РастВставкаНЦ...РастВставкаКЦ)
    RustBlock,
    /// Inside alternative Rust block (ржавчина нач...кон)
    RustAltBlock,
    /// Inside interpolated string text portion
    InterpolatedStringText,
    /// Inside interpolated string expression (after {)
    InterpolatedStringExpr {
        /// Brace nesting depth (starts at 1 after opening {)
        brace_depth: usize,
    },
}

// =============================================================================
//         LEXER
// =============================================================================

/// Kumir language lexer: transforms source code into a stream of tokens.
pub struct Lexer {
    /// Source code, as characters
    chars: Vec<char>,
    /// Current character index
    idx: usize,
    /// Current byte position
    pos: usize,
    /// Current position (line, column)
    position: Position,
    /// Lexer state
    state: LexerState,
    /// Accumulated errors (for error recovery mode)
    errors: Vec<LexerError>,
    /// Enable error recovery (continue after errors)
    error_recovery: bool,
}

/// Whether an exec scan result is what the grammar step says: the same token
/// with the span from `start` to where the step stopped, or the same error.
pub open spec fn step_matches(res: LexerResult<Option<SpannedToken>>, s: Seq<char>, start: int, step: Step) -> bool {
    match step.out {
        Ok(None) => res matches Ok(None),
        Ok(Some(t)) => res matches Ok(Some(tok)) && tok.token@ == t && tok.span == (Span {
            start: pos_of(s, start),
            end: pos_of(s, step.next),
        }),
        Err(f) => res matches Err(e) && error_matches(e, s, f),
    }
}

/// Whether an exec error is the grammar's failure `f`.
pub open spec fn error_matches(e: LexerError, s: Seq<char>, f: Fail) -> bool {
    &&& e.kind == f.kind
    &&& e.position == pos_of(s, f.at)
    &&& match f.span_end {
        None => e.span is None,
        Some(end) => e.span == Some(Span { start: pos_of(s, f.at), end: pos_of(s, end) }),
    }
}

impl Lexer {
    /// The source characters.
    pub closed spec fn source(&self) -> Seq<char> {
        self.chars@
    }

    /// Index of the next character to scan.
    pub closed spec fn index(&self) -> int {
        self.idx as int
    }

    /// The scanning state.
    pub closed spec fn lex_state(&self) -> LexerState {
        self.state
    }

    /// Whether errors are collected instead of returned.
    pub closed spec fn recovers(&self) -> bool {
        self.error_recovery
    }

    /// Errors collected so far.
    pub closed spec fn collected(&self) -> Seq<LexerError> {
        self.errors@
    }

    /// The lexer's internal invariant.
    pub closed spec fn wf(&self) -> bool {
        &&& self.idx <= self.chars.len()
        &&& self.chars.len() < usize::MAX
        &&& utf8_len(self.chars@) <= usize::MAX
        &&& self.position == pos_of(self.chars@, self.idx as int)
        &&& self.pos == self.position.offset
        &&& (self.state matches LexerState::InterpolatedStringExpr { brace_depth } ==> 1 <= brace_depth
            <= self.idx)
    }

    /// Whether `self` reads the same source as `other` with the same
    /// collected errors and mode; index and state may differ.
    pub closed spec fn same_source(&self, other: &Lexer) -> bool {
        &&& self.chars@ == other.chars@
        &&& self.errors@ == other.errors@
        &&& self.error_recovery == other.error_recovery
    }

    /// Whether the lexer, compared with `old`, reads the same source and has
    /// done the grammar's `step` from index `start`: it stopped where the step
    /// stops, is in the step's state, and returned the step's result.
    pub open spec fn did_step(&self, old: &Lexer, start: int, res: LexerResult<Option<SpannedToken>>, step: Step) -> bool {
        &&& self.wf()
        &&& self.source() == old.source()
        &&& self.collected() == old.collected()
        &&& self.recovers() == old.recovers()
        &&& self.index() == step.next
        &&& self.lex_state() == step.state
        &&& step_matches(res, old.source(), start, step)
    }

    /// Creates a new lexer for the given source code.
    pub fn new(source: &str) -> (r: Self)
        requires
            source@.len() < usize::MAX,
            utf8_len(source@) <= usize::MAX,
        ensures
            r.wf(),
            r.source() == source@,
            r.index() == 0,
            r.lex_state() == LexerState::Normal,
            r.collected().len() == 0,
            !r.recovers(),
    {
        let chars = chars_of(source);
        proof {
            assert(chars@.take(0) =~= Seq::<char>::empty());
        }
        Lexer {
            chars,
            idx: 0,
            pos: 0,
            position: Position { line: 1, column: 1, offset: 0 },
            state: LexerState::Normal,
            errors: Vec::new(),
            error_recovery: false,
        }
    }

    /// Enables error recovery mode.
    pub fn with_error_recovery(self) -> (r: Self)
        ensures
            r.recovers(),
            r.source() == self.source(),
            r.index() == self.index(),
            r.lex_state() == self.lex_state(),
            r.collected() == self.collected(),
            self.wf() ==> r.wf(),
    {
        let mut s = self;
        s.error_recovery = true;
        s
    }

    /// Returns accumulated errors.
    pub fn errors(&self) -> (r: &[LexerError])
        ensures
            r@ == self.collected(),
    {
        self.errors.as_slice()
    }

    /// Current character without advancing.
    fn peek(&self) -> (r: Option<char>)
        requires
            self.wf(),
        ensures
            r == at(self.chars@, self.idx as int),
    {
        if self.idx < self.chars.len() {
            Some(self.chars[self.idx])
        } else {
            None
        }
    }

    /// Character `offset` places after the current one.
    fn peek_at(&self, offset: usize) -> (r: Option<char>)
        requires
            self.wf(),
            offset <= 3,
        ensures
            r == at(self.chars@, self.idx + offset),
    {
        if offset < self.chars.len() - self.idx {
            Some(self.chars[self.idx + offset])
        } else {
            None
        }
    }

    /// Checks if at end of file.
    fn is_eof(&self) -> (r: bool)
        requires
            self.wf(),
        ensures
            r == (self.idx >= self.chars.len()),
    {
        self.idx >= self.chars.len()
    }

    /// Advances by one character and returns it.
    fn advance(&mut self) -> (r: Option<char>)
        requires
            old(self).wf(),
        ensures
            final(self).wf(),
            final(self).same_source(old(self)),
            final(self).state == old(self).state,
            r == at(old(self).chars@, old(self).idx as int),
            final(self).idx == (if old(self).idx < old(self).chars.len() { old(self).idx + 1 } else { old(self).idx as int }),
    {
        if self.idx >= self.chars.len() {
            return None;
        }
        let c = self.chars[self.idx];
        let n = len_utf8(c);
        proof {
            lemma_utf8_len_prefix(self.chars@, self.idx as int);
            lemma_utf8_len_prefix(self.chars@, self.idx + 1);
            lemma_line_col_bounds(self.chars@, self.idx as int);
        }
        self.pos = self.pos + n;
        if c == '\n' {
            self.position.line = self.position.line + 1;
            self.position.column = 1;
        } else {
            self.position.column = self.position.column + 1;
        }
        self.position.offset = self.pos;
        self.idx = self.idx + 1;
        Some(c)
    }

    /// Moves back to an earlier index (used when a lookahead does not match).
    fn restore(&mut self, idx: usize, pos: usize, position: Position)
        requires
            old(self).wf(),
            idx <= old(self).idx,
            position == pos_of(old(self).chars@, idx as int),
            pos == position.offset,
            !(old(self).state is InterpolatedStringExpr),
        ensures
            final(self).wf(),
            final(self).same_source(old(self)),
            final(self).state == old(self).state,
            final(self).idx == idx,
    {
        self.idx = idx;
        self.pos = pos;
        self.position = position;
    }
}

// =============================================================================
//         TOKEN ITERATOR
// =============================================================================

/// Iterator over tokens: yields each token up to and including `EOF`, or
/// the first error, then nothing.
pub struct TokenIterator {
    lexer: Lexer,
    done: bool,
}

impl TokenIterator {
    /// The lexer that produces the tokens.
    pub closed spec fn lexer(&self) -> Lexer {
        self.lexer
    }

    /// Whether the iterator has yielded `EOF` or an error.
    pub closed spec fn is_done(&self) -> bool {
        self.done
    }
}

// =============================================================================
//         CONVENIENCE FUNCTIONS
// =============================================================================

/// Tokenizes source code: the tokens of the whole input up to and
/// including `EOF`, or the first error.
pub fn tokenize(source: &str) -> (res: LexerResult<Vec<SpannedToken>>)
    requires
        source@.len() < usize::MAX,
        utf8_len(source@) <= usize::MAX,
    ensures
        match self::run::lex_run(source@, 0, LexerState::Normal) {
            Ok(ts) => res matches Ok(v) && self::run::tokens_match(v@, source@, ts),
            Err(f) => res matches Err(e) && error_matches(e, source@, f),
        },
        res matches Ok(v) ==> v@.len() > 0 && v@.last().token is EOF,
{
    let mut lexer = Lexer::new(source);
    lexer.tokenize()
}

/// Tokenizes source code with error recovery: the tokens and the errors
/// met on the way, each error followed by skipping one character.
pub fn tokenize_with_recovery(source: &str) -> (r: (Vec<SpannedToken>, Vec<LexerError>))
    requires
        source@.len() < usize::MAX,
        utf8_len(source@) <= usize::MAX,
    ensures
        ({
            let run = self::run::lex_run_recovering(source@, 0, LexerState::Normal);
            &&& self::run::tokens_match(r.0@, source@, run.0)
            &&& self::run::errors_match(r.1@, source@, run.1)
        }),
        r.0@.len() > 0 && r.0@.last().token is EOF,
{
    let mut lexer = Lexer::new(source).with_error_recovery();
    let tokens = match lexer.tokenize() {
        Ok(v) => v,
        Err(_) => Vec::new(),
    };
    let errors = lexer.errors;
    proof {
        assert(errors@.skip(0) =~= errors@);
    }
    (tokens, errors)
}

} // verus!

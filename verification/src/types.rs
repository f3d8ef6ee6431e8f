//! Tokens of the Kumir 3 language.

use vstd::prelude::*;

verus! {

/// A lexical token.
///
/// A float literal keeps its source digits (underscores removed); turning
/// them into a binary float is left to the consumer of the token.
#[derive(Debug, Clone, PartialEq)]
pub enum Token {
    // --- literals ---
    IntLiteral(i64),
    FloatLiteral(String),
    StringLiteral(String),
    RawStringLiteral(String),
    CharLiteral(char),
    InterpolatedStringStart,
    InterpolatedStringPart(String),
    InterpolatedStringEnd,
    Ident(String),
    // --- trivia and structure ---
    Comment(String),
    DocComment(Vec<String>),
    RustBlockStart,
    RustInline(String),
    RustBlockEnd,
    Newline,
    EOF,
    // --- keywords ---
    Alg,
    Begin,
    End,
    If,
    Then,
    Else,
    Fi,
    Switch,
    Case,
    LoopStart,
    LoopEnd,
    While,
    For,
    From,
    To,
    Step,
    Times,
    Exit,
    Input,
    Output,
    Arg,
    Res,
    ArgRes,
    Value,
    Given,
    Need,
    Assert,
    Import,
    Use,
    IntType,
    RealType,
    BoolType,
    CharType,
    StringType,
    TableSuffix,
    True,
    False,
    And,
    Or,
    Not,
    // --- operators and delimiters ---
    Plus,
    Minus,
    Star,
    Slash,
    IntDiv,
    Percent,
    Power,
    Equal,
    NotEqual,
    Less,
    Greater,
    LessEqual,
    GreaterEqual,
    Assign,
    PlusAssign,
    MinusAssign,
    StarAssign,
    SlashAssign,
    Pipe,
    Compose,
    Arrow,
    FatArrow,
    DoubleDot,
    DoubleDotEq,
    Dot,
    DoubleColon,
    Colon,
    Comma,
    Semicolon,
    LParen,
    RParen,
    LBracket,
    RBracket,
    LBrace,
    RBrace,
    Ampersand,
    Caret,
    Question,
    QuestionQuestion,
}

} // verus!

verus! {

/// The mathematical value of a token: text payloads as character sequences.
pub ghost enum TokenV {
    IntLiteral(i64),
    FloatLiteral(Seq<char>),
    StringLiteral(Seq<char>),
    RawStringLiteral(Seq<char>),
    CharLiteral(char),
    InterpolatedStringStart,
    InterpolatedStringPart(Seq<char>),
    InterpolatedStringEnd,
    Ident(Seq<char>),
    Comment(Seq<char>),
    DocComment(Seq<Seq<char>>),
    RustBlockStart,
    RustInline(Seq<char>),
    RustBlockEnd,
    Newline,
    EOF,
    Alg,
    Begin,
    End,
    If,
    Then,
    Else,
    Fi,
    Switch,
    Case,
    LoopStart,
    LoopEnd,
    While,
    For,
    From,
    To,
    Step,
    Times,
    Exit,
    Input,
    Output,
    Arg,
    Res,
    ArgRes,
    Value,
    Given,
    Need,
    Assert,
    Import,
    Use,
    IntType,
    RealType,
    BoolType,
    CharType,
    StringType,
    TableSuffix,
    True,
    False,
    And,
    Or,
    Not,
    Plus,
    Minus,
    Star,
    Slash,
    IntDiv,
    Percent,
    Power,
    Equal,
    NotEqual,
    Less,
    Greater,
    LessEqual,
    GreaterEqual,
    Assign,
    PlusAssign,
    MinusAssign,
    StarAssign,
    SlashAssign,
    Pipe,
    Compose,
    Arrow,
    FatArrow,
    DoubleDot,
    DoubleDotEq,
    Dot,
    DoubleColon,
    Colon,
    Comma,
    Semicolon,
    LParen,
    RParen,
    LBracket,
    RBracket,
    LBrace,
    RBrace,
    Ampersand,
    Caret,
    Question,
    QuestionQuestion,
}

impl View for Token {
    type V = TokenV;

    open spec fn view(&self) -> TokenV {
        match self {
            Token::IntLiteral(x) => TokenV::IntLiteral(*x),
            Token::FloatLiteral(x) => TokenV::FloatLiteral(x@),
            Token::StringLiteral(x) => TokenV::StringLiteral(x@),
            Token::RawStringLiteral(x) => TokenV::RawStringLiteral(x@),
            Token::CharLiteral(x) => TokenV::CharLiteral(*x),
            Token::InterpolatedStringStart => TokenV::InterpolatedStringStart,
            Token::InterpolatedStringPart(x) => TokenV::InterpolatedStringPart(x@),
            Token::InterpolatedStringEnd => TokenV::InterpolatedStringEnd,
            Token::Ident(x) => TokenV::Ident(x@),
            Token::Comment(x) => TokenV::Comment(x@),
            Token::DocComment(x) => TokenV::DocComment(x@.map_values(|e: String| e@)),
            Token::RustBlockStart => TokenV::RustBlockStart,
            Token::RustInline(x) => TokenV::RustInline(x@),
            Token::RustBlockEnd => TokenV::RustBlockEnd,
            Token::Newline => TokenV::Newline,
            Token::EOF => TokenV::EOF,
            Token::Alg => TokenV::Alg,
            Token::Begin => TokenV::Begin,
            Token::End => TokenV::End,
            Token::If => TokenV::If,
            Token::Then => TokenV::Then,
            Token::Else => TokenV::Else,
            Token::Fi => TokenV::Fi,
            Token::Switch => TokenV::Switch,
            Token::Case => TokenV::Case,
            Token::LoopStart => TokenV::LoopStart,
            Token::LoopEnd => TokenV::LoopEnd,
            Token::While => TokenV::While,
            Token::For => TokenV::For,
            Token::From => TokenV::From,
            Token::To => TokenV::To,
            Token::Step => TokenV::Step,
            Token::Times => TokenV::Times,
            Token::Exit => TokenV::Exit,
            Token::Input => TokenV::Input,
            Token::Output => TokenV::Output,
            Token::Arg => TokenV::Arg,
            Token::Res => TokenV::Res,
            Token::ArgRes => TokenV::ArgRes,
            Token::Value => TokenV::Value,
            Token::Given => TokenV::Given,
            Token::Need => TokenV::Need,
            Token::Assert => TokenV::Assert,
            Token::Import => TokenV::Import,
            Token::Use => TokenV::Use,
            Token::IntType => TokenV::IntType,
            Token::RealType => TokenV::RealType,
            Token::BoolType => TokenV::BoolType,
            Token::CharType => TokenV::CharType,
            Token::StringType => TokenV::StringType,
            Token::TableSuffix => TokenV::TableSuffix,
            Token::True => TokenV::True,
            Token::False => TokenV::False,
            Token::And => TokenV::And,
            Token::Or => TokenV::Or,
            Token::Not => TokenV::Not,
            Token::Plus => TokenV::Plus,
            Token::Minus => TokenV::Minus,
            Token::Star => TokenV::Star,
            Token::Slash => TokenV::Slash,
            Token::IntDiv => TokenV::IntDiv,
            Token::Percent => TokenV::Percent,
            Token::Power => TokenV::Power,
            Token::Equal => TokenV::Equal,
            Token::NotEqual => TokenV::NotEqual,
            Token::Less => TokenV::Less,
            Token::Greater => TokenV::Greater,
            Token::LessEqual => TokenV::LessEqual,
            Token::GreaterEqual => TokenV::GreaterEqual,
            Token::Assign => TokenV::Assign,
            Token::PlusAssign => TokenV::PlusAssign,
            Token::MinusAssign => TokenV::MinusAssign,
            Token::StarAssign => TokenV::StarAssign,
            Token::SlashAssign => TokenV::SlashAssign,
            Token::Pipe => TokenV::Pipe,
            Token::Compose => TokenV::Compose,
            Token::Arrow => TokenV::Arrow,
            Token::FatArrow => TokenV::FatArrow,
            Token::DoubleDot => TokenV::DoubleDot,
            Token::DoubleDotEq => TokenV::DoubleDotEq,
            Token::Dot => TokenV::Dot,
            Token::DoubleColon => TokenV::DoubleColon,
            Token::Colon => TokenV::Colon,
            Token::Comma => TokenV::Comma,
            Token::Semicolon => TokenV::Semicolon,
            Token::LParen => TokenV::LParen,
            Token::RParen => TokenV::RParen,
            Token::LBracket => TokenV::LBracket,
            Token::RBracket => TokenV::RBracket,
            Token::LBrace => TokenV::LBrace,
            Token::RBrace => TokenV::RBrace,
            Token::Ampersand => TokenV::Ampersand,
            Token::Caret => TokenV::Caret,
            Token::Question => TokenV::Question,
            Token::QuestionQuestion => TokenV::QuestionQuestion,
        }
    }
}

} // verus!

verus! {

/// Index of a token's variant, ignoring its payload.
pub open spec fn spec_token_tag(t: TokenV) -> u8 {
    match t {
        TokenV::IntLiteral(..) => 0,
        TokenV::FloatLiteral(..) => 1,
        TokenV::StringLiteral(..) => 2,
        TokenV::RawStringLiteral(..) => 3,
        TokenV::CharLiteral(..) => 4,
        TokenV::InterpolatedStringStart => 5,
        TokenV::InterpolatedStringPart(..) => 6,
        TokenV::InterpolatedStringEnd => 7,
        TokenV::Ident(..) => 8,
        TokenV::Comment(..) => 9,
        TokenV::DocComment(..) => 10,
        TokenV::RustBlockStart => 11,
        TokenV::RustInline(..) => 12,
        TokenV::RustBlockEnd => 13,
        TokenV::Newline => 14,
        TokenV::EOF => 15,
        TokenV::Alg => 16,
        TokenV::Begin => 17,
        TokenV::End => 18,
        TokenV::If => 19,
        TokenV::Then => 20,
        TokenV::Else => 21,
        TokenV::Fi => 22,
        TokenV::Switch => 23,
        TokenV::Case => 24,
        TokenV::LoopStart => 25,
        TokenV::LoopEnd => 26,
        TokenV::While => 27,
        TokenV::For => 28,
        TokenV::From => 29,
        TokenV::To => 30,
        TokenV::Step => 31,
        TokenV::Times => 32,
        TokenV::Exit => 33,
        TokenV::Input => 34,
        TokenV::Output => 35,
        TokenV::Arg => 36,
        TokenV::Res => 37,
        TokenV::ArgRes => 38,
        TokenV::Value => 39,
        TokenV::Given => 40,
        TokenV::Need => 41,
        TokenV::Assert => 42,
        TokenV::Import => 43,
        TokenV::Use => 44,
        TokenV::IntType => 45,
        TokenV::RealType => 46,
        TokenV::BoolType => 47,
        TokenV::CharType => 48,
        TokenV::StringType => 49,
        TokenV::TableSuffix => 50,
        TokenV::True => 51,
        TokenV::False => 52,
        TokenV::And => 53,
        TokenV::Or => 54,
        TokenV::Not => 55,
        TokenV::Plus => 56,
        TokenV::Minus => 57,
        TokenV::Star => 58,
        TokenV::Slash => 59,
        TokenV::IntDiv => 60,
        TokenV::Percent => 61,
        TokenV::Power => 62,
        TokenV::Equal => 63,
        TokenV::NotEqual => 64,
        TokenV::Less => 65,
        TokenV::Greater => 66,
        TokenV::LessEqual => 67,
        TokenV::GreaterEqual => 68,
        TokenV::Assign => 69,
        TokenV::PlusAssign => 70,
        TokenV::MinusAssign => 71,
        TokenV::StarAssign => 72,
        TokenV::SlashAssign => 73,
        TokenV::Pipe => 74,
        TokenV::Compose => 75,
        TokenV::Arrow => 76,
        TokenV::FatArrow => 77,
        TokenV::DoubleDot => 78,
        TokenV::DoubleDotEq => 79,
        TokenV::Dot => 80,
        TokenV::DoubleColon => 81,
        TokenV::Colon => 82,
        TokenV::Comma => 83,
        TokenV::Semicolon => 84,
        TokenV::LParen => 85,
        TokenV::RParen => 86,
        TokenV::LBracket => 87,
        TokenV::RBracket => 88,
        TokenV::LBrace => 89,
        TokenV::RBrace => 90,
        TokenV::Ampersand => 91,
        TokenV::Caret => 92,
        TokenV::Question => 93,
        TokenV::QuestionQuestion => 94,
    }
}

/// Index of a token's variant, ignoring its payload.
pub fn token_tag(t: &Token) -> (r: u8)
    ensures
        r == spec_token_tag(t@),
{
    match t {
        Token::IntLiteral(..) => 0,
        Token::FloatLiteral(..) => 1,
        Token::StringLiteral(..) => 2,
        Token::RawStringLiteral(..) => 3,
        Token::CharLiteral(..) => 4,
        Token::InterpolatedStringStart => 5,
        Token::InterpolatedStringPart(..) => 6,
        Token::InterpolatedStringEnd => 7,
        Token::Ident(..) => 8,
        Token::Comment(..) => 9,
        Token::DocComment(..) => 10,
        Token::RustBlockStart => 11,
        Token::RustInline(..) => 12,
        Token::RustBlockEnd => 13,
        Token::Newline => 14,
        Token::EOF => 15,
        Token::Alg => 16,
        Token::Begin => 17,
        Token::End => 18,
        Token::If => 19,
        Token::Then => 20,
        Token::Else => 21,
        Token::Fi => 22,
        Token::Switch => 23,
        Token::Case => 24,
        Token::LoopStart => 25,
        Token::LoopEnd => 26,
        Token::While => 27,
        Token::For => 28,
        Token::From => 29,
        Token::To => 30,
        Token::Step => 31,
        Token::Times => 32,
        Token::Exit => 33,
        Token::Input => 34,
        Token::Output => 35,
        Token::Arg => 36,
        Token::Res => 37,
        Token::ArgRes => 38,
        Token::Value => 39,
        Token::Given => 40,
        Token::Need => 41,
        Token::Assert => 42,
        Token::Import => 43,
        Token::Use => 44,
        Token::IntType => 45,
        Token::RealType => 46,
        Token::BoolType => 47,
        Token::CharType => 48,
        Token::StringType => 49,
        Token::TableSuffix => 50,
        Token::True => 51,
        Token::False => 52,
        Token::And => 53,
        Token::Or => 54,
        Token::Not => 55,
        Token::Plus => 56,
        Token::Minus => 57,
        Token::Star => 58,
        Token::Slash => 59,
        Token::IntDiv => 60,
        Token::Percent => 61,
        Token::Power => 62,
        Token::Equal => 63,
        Token::NotEqual => 64,
        Token::Less => 65,
        Token::Greater => 66,
        Token::LessEqual => 67,
        Token::GreaterEqual => 68,
        Token::Assign => 69,
        Token::PlusAssign => 70,
        Token::MinusAssign => 71,
        Token::StarAssign => 72,
        Token::SlashAssign => 73,
        Token::Pipe => 74,
        Token::Compose => 75,
        Token::Arrow => 76,
        Token::FatArrow => 77,
        Token::DoubleDot => 78,
        Token::DoubleDotEq => 79,
        Token::Dot => 80,
        Token::DoubleColon => 81,
        Token::Colon => 82,
        Token::Comma => 83,
        Token::Semicolon => 84,
        Token::LParen => 85,
        Token::RParen => 86,
        Token::LBracket => 87,
        Token::RBracket => 88,
        Token::LBrace => 89,
        Token::RBrace => 90,
        Token::Ampersand => 91,
        Token::Caret => 92,
        Token::Question => 93,
        Token::QuestionQuestion => 94,
    }
}

} // verus!

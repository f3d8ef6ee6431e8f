//! Operators and delimiters of the Kumir language.

use vstd::prelude::*;
use crate::text::str_eq;
use crate::types::Token;

verus! {

/// The token that an operator spelling (one to three characters) stands for.
pub open spec fn operator_of(s: Seq<char>) -> Option<Token> {
    if s == "..="@ {
        Some(Token::DoubleDotEq)
    } else if s == ":="@ {
        Some(Token::Assign)
    } else if s == "|>"@ {
        Some(Token::Pipe)
    } else if s == "->"@ {
        Some(Token::Arrow)
    } else if s == "=>"@ {
        Some(Token::FatArrow)
    } else if s == "+="@ {
        Some(Token::PlusAssign)
    } else if s == "-="@ {
        Some(Token::MinusAssign)
    } else if s == "*="@ {
        Some(Token::StarAssign)
    } else if s == "/="@ {
        Some(Token::SlashAssign)
    } else if s == "<="@ {
        Some(Token::LessEqual)
    } else if s == ">="@ {
        Some(Token::GreaterEqual)
    } else if s == "<>"@ {
        Some(Token::NotEqual)
    } else if s == "!="@ {
        Some(Token::NotEqual)
    } else if s == ".."@ {
        Some(Token::DoubleDot)
    } else if s == "::"@ {
        Some(Token::DoubleColon)
    } else if s == "**"@ {
        Some(Token::Power)
    } else if s == "??"@ {
        Some(Token::QuestionQuestion)
    } else if s == ">>"@ {
        Some(Token::Compose)
    } else if s == "+"@ {
        Some(Token::Plus)
    } else if s == "-"@ {
        Some(Token::Minus)
    } else if s == "*"@ {
        Some(Token::Star)
    } else if s == "/"@ {
        Some(Token::Slash)
    } else if s == "%"@ {
        Some(Token::Percent)
    } else if s == "\\"@ {
        Some(Token::IntDiv)
    } else if s == "="@ {
        Some(Token::Equal)
    } else if s == "<"@ {
        Some(Token::Less)
    } else if s == ">"@ {
        Some(Token::Greater)
    } else if s == "."@ {
        Some(Token::Dot)
    } else if s == ":"@ {
        Some(Token::Colon)
    } else if s == ","@ {
        Some(Token::Comma)
    } else if s == ";"@ {
        Some(Token::Semicolon)
    } else if s == "("@ {
        Some(Token::LParen)
    } else if s == ")"@ {
        Some(Token::RParen)
    } else if s == "["@ {
        Some(Token::LBracket)
    } else if s == "]"@ {
        Some(Token::RBracket)
    } else if s == "{"@ {
        Some(Token::LBrace)
    } else if s == "}"@ {
        Some(Token::RBrace)
    } else if s == "&"@ {
        Some(Token::Ampersand)
    } else if s == "^"@ {
        Some(Token::Caret)
    } else if s == "?"@ {
        Some(Token::Question)
    } else {
        None
    }
}

/// Looks up an operator token by symbol (1–3 characters), or None.
pub fn operator_token(s: &str) -> (r: Option<Token>)
    ensures
        r == operator_of(s@),
{
    if str_eq(s, "..=") {
        return Some(Token::DoubleDotEq);
    }
    if str_eq(s, ":=") {
        return Some(Token::Assign);
    }
    if str_eq(s, "|>") {
        return Some(Token::Pipe);
    }
    if str_eq(s, "->") {
        return Some(Token::Arrow);
    }
    if str_eq(s, "=>") {
        return Some(Token::FatArrow);
    }
    if str_eq(s, "+=") {
        return Some(Token::PlusAssign);
    }
    if str_eq(s, "-=") {
        return Some(Token::MinusAssign);
    }
    if str_eq(s, "*=") {
        return Some(Token::StarAssign);
    }
    if str_eq(s, "/=") {
        return Some(Token::SlashAssign);
    }
    if str_eq(s, "<=") {
        return Some(Token::LessEqual);
    }
    if str_eq(s, ">=") {
        return Some(Token::GreaterEqual);
    }
    if str_eq(s, "<>") {
        return Some(Token::NotEqual);
    }
    if str_eq(s, "!=") {
        return Some(Token::NotEqual);
    }
    if str_eq(s, "..") {
        return Some(Token::DoubleDot);
    }
    if str_eq(s, "::") {
        return Some(Token::DoubleColon);
    }
    if str_eq(s, "**") {
        return Some(Token::Power);
    }
    if str_eq(s, "??") {
        return Some(Token::QuestionQuestion);
    }
    if str_eq(s, ">>") {
        return Some(Token::Compose);
    }
    if str_eq(s, "+") {
        return Some(Token::Plus);
    }
    if str_eq(s, "-") {
        return Some(Token::Minus);
    }
    if str_eq(s, "*") {
        return Some(Token::Star);
    }
    if str_eq(s, "/") {
        return Some(Token::Slash);
    }
    if str_eq(s, "%") {
        return Some(Token::Percent);
    }
    if str_eq(s, "\\") {
        return Some(Token::IntDiv);
    }
    if str_eq(s, "=") {
        return Some(Token::Equal);
    }
    if str_eq(s, "<") {
        return Some(Token::Less);
    }
    if str_eq(s, ">") {
        return Some(Token::Greater);
    }
    if str_eq(s, ".") {
        return Some(Token::Dot);
    }
    if str_eq(s, ":") {
        return Some(Token::Colon);
    }
    if str_eq(s, ",") {
        return Some(Token::Comma);
    }
    if str_eq(s, ";") {
        return Some(Token::Semicolon);
    }
    if str_eq(s, "(") {
        return Some(Token::LParen);
    }
    if str_eq(s, ")") {
        return Some(Token::RParen);
    }
    if str_eq(s, "[") {
        return Some(Token::LBracket);
    }
    if str_eq(s, "]") {
        return Some(Token::RBracket);
    }
    if str_eq(s, "{") {
        return Some(Token::LBrace);
    }
    if str_eq(s, "}") {
        return Some(Token::RBrace);
    }
    if str_eq(s, "&") {
        return Some(Token::Ampersand);
    }
    if str_eq(s, "^") {
        return Some(Token::Caret);
    }
    if str_eq(s, "?") {
        return Some(Token::Question);
    }
    None
}

/// The characters that can start an operator.
pub open spec fn spec_is_operator_char(c: char) -> bool {
    c == '!' || c == '%' || c == '&' || c == '(' || c == ')' || c == '*' || c == '+' || c == ',' || c == '-' || c == '.' || c == '/' || c == ':' || c == ';' || c == '<' || c == '=' || c == '>' || c == '?' || c == '[' || c == '\\' || c == ']' || c == '^' || c == '{' || c == '|' || c == '}'
}

/// Checks if a character can start an operator.
pub fn is_operator_char(c: char) -> (r: bool)
    ensures
        r == spec_is_operator_char(c),
{
    c == '!' || c == '%' || c == '&' || c == '(' || c == ')' || c == '*' || c == '+' || c == ',' || c == '-' || c == '.' || c == '/' || c == ':' || c == ';' || c == '<' || c == '=' || c == '>' || c == '?' || c == '[' || c == '\\' || c == ']' || c == '^' || c == '{' || c == '|' || c == '}'
}

/// The infix binary operators: exactly the tokens that take part in
/// precedence climbing.
pub open spec fn spec_is_binary_operator(t: Token) -> bool {
    match t {
        Token::Or | Token::QuestionQuestion | Token::And | Token::Equal | Token::NotEqual
        | Token::Less | Token::Greater | Token::LessEqual | Token::GreaterEqual | Token::DoubleDot
        | Token::DoubleDotEq | Token::Plus | Token::Minus | Token::Star | Token::Slash
        | Token::IntDiv | Token::Percent | Token::Power | Token::Pipe | Token::Compose => true,
        _ => false,
    }
}

/// Checks if a token is an infix binary operator.
///
/// Dot and `::` are not binary operators: they are postfix constructs
/// (field access, path separator).
pub fn is_binary_operator(token: &Token) -> (r: bool)
    ensures
        r == spec_is_binary_operator(*token),
{
    match token {
        Token::Or | Token::QuestionQuestion | Token::And | Token::Equal | Token::NotEqual
        | Token::Less | Token::Greater | Token::LessEqual | Token::GreaterEqual | Token::DoubleDot
        | Token::DoubleDotEq | Token::Plus | Token::Minus | Token::Star | Token::Slash
        | Token::IntDiv | Token::Percent | Token::Power | Token::Pipe | Token::Compose => true,
        _ => false,
    }
}

pub open spec fn spec_is_unary_operator(t: Token) -> bool {
    match t {
        Token::Plus | Token::Minus | Token::Not | Token::Ampersand | Token::Caret => true,
        _ => false,
    }
}

/// Checks if a token is a unary (prefix) operator.
///
/// `Plus` and `Minus` are both unary and binary (`-a` vs `a - b`).
pub fn is_unary_operator(token: &Token) -> (r: bool)
    ensures
        r == spec_is_unary_operator(*token),
{
    match token {
        Token::Plus | Token::Minus | Token::Not | Token::Ampersand | Token::Caret => true,
        _ => false,
    }
}

pub open spec fn spec_is_assignment_operator(t: Token) -> bool {
    match t {
        Token::Assign | Token::PlusAssign | Token::MinusAssign | Token::StarAssign
        | Token::SlashAssign => true,
        _ => false,
    }
}

/// Checks if a token is an assignment operator.
pub fn is_assignment_operator(token: &Token) -> (r: bool)
    ensures
        r == spec_is_assignment_operator(*token),
{
    match token {
        Token::Assign | Token::PlusAssign | Token::MinusAssign | Token::StarAssign
        | Token::SlashAssign => true,
        _ => false,
    }
}

/// Assignment never takes part in precedence climbing, and neither do the
/// prefix-only operators.
pub proof fn lemma_operator_classes_disjoint(t: Token)
    ensures
        spec_is_assignment_operator(t) ==> !spec_is_binary_operator(t),
        spec_is_unary_operator(t) && !(t is Plus) && !(t is Minus) ==> !spec_is_binary_operator(t),
{
}

} // verus!

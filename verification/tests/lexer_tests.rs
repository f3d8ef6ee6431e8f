use kumir3_shared::lexer::{tokenize, tokenize_with_recovery, Lexer, LexerErrorKind, LexerState, Position, Span, SpannedToken};
use kumir3_shared::types::Token;

#[test]
fn test_basic_tokens() {
    let tokens = tokenize("алг Тест\nнач\nкон").unwrap();
    assert!(matches!(tokens[0].token, Token::Alg));
    assert!(matches!(tokens[1].token, Token::Ident(_)));
    assert!(matches!(tokens[2].token, Token::Newline));
    assert!(matches!(tokens[3].token, Token::Begin));
}

#[test]
fn test_literals() {
    let tokens = tokenize("42 3.14 \"hello\" 'a'").unwrap();
    assert!(matches!(tokens[0].token, Token::IntLiteral(42)));
    assert!(matches!(tokens[1].token, Token::FloatLiteral(_)));
    assert!(matches!(tokens[2].token, Token::StringLiteral(_)));
    assert!(matches!(tokens[3].token, Token::CharLiteral('a')));
}

#[test]
fn test_operators() {
    let tokens = tokenize(":= |> -> =>").unwrap();
    assert!(matches!(tokens[0].token, Token::Assign));
    assert!(matches!(tokens[1].token, Token::Pipe));
    assert!(matches!(tokens[2].token, Token::Arrow));
    assert!(matches!(tokens[3].token, Token::FatArrow));
}

#[test]
fn test_hex_number() {
    let tokens = tokenize("0xFF 0x10").unwrap();
    assert!(matches!(tokens[0].token, Token::IntLiteral(255)));
    assert!(matches!(tokens[1].token, Token::IntLiteral(16)));
}

#[test]
fn test_binary_number() {
    let tokens = tokenize("0b1010 0b11111111").unwrap();
    assert!(matches!(tokens[0].token, Token::IntLiteral(10)));
    assert!(matches!(tokens[1].token, Token::IntLiteral(255)));
}

#[test]
fn test_octal_number() {
    let tokens = tokenize("0o777").unwrap();
    assert!(matches!(tokens[0].token, Token::IntLiteral(511)));
}

#[test]
fn test_underscore_in_numbers() {
    let tokens = tokenize("1_000_000 0xFF_FF").unwrap();
    assert!(matches!(tokens[0].token, Token::IntLiteral(1_000_000)));
    assert!(matches!(tokens[1].token, Token::IntLiteral(0xFFFF)));
}

#[test]
fn test_raw_string() {
    let tokens = tokenize(r#"r"raw string""#).unwrap();
    if let Token::RawStringLiteral(s) = &tokens[0].token {
        assert_eq!(s, "raw string");
    } else {
        panic!("Expected RawStringLiteral");
    }
}

#[test]
fn test_comments() {
    let tokens = tokenize("| comment\n// another").unwrap();
    assert!(matches!(tokens[0].token, Token::Comment(_)));
    assert!(matches!(tokens[1].token, Token::Newline));
    assert!(matches!(tokens[2].token, Token::Comment(_)));
}

#[test]
fn test_doc_comments() {
    let tokens = tokenize("/// doc comment").unwrap();
    assert!(matches!(tokens[0].token, Token::DocComment(_)));
}

#[test]
fn test_multiline_string() {
    let tokens = tokenize(
        r#""""multi
line
string""""#,
    )
    .unwrap();
    if let Token::StringLiteral(s) = &tokens[0].token {
        assert!(s.contains('\n'));
    } else {
        panic!("Expected StringLiteral");
    }
}

#[test]
fn test_escape_sequences() {
    let tokens = tokenize(r#""\n\t\r\\\"\'""#).unwrap();
    if let Token::StringLiteral(s) = &tokens[0].token {
        assert_eq!(s, "\n\t\r\\\"'");
    } else {
        panic!("Expected StringLiteral");
    }
}

#[test]
fn test_unicode_escape() {
    let tokens = tokenize(r#""\u{0041}\u{042F}""#).unwrap();
    if let Token::StringLiteral(s) = &tokens[0].token {
        assert_eq!(s, "AЯ");
    } else {
        panic!("Expected StringLiteral");
    }
}

#[test]
fn test_scientific_notation() {
    let tokens = tokenize("1e10 3.14e-2 2.5E+3").unwrap();
    assert!(matches!(tokens[0].token, Token::FloatLiteral(_)));
    assert!(matches!(tokens[1].token, Token::FloatLiteral(_)));
    assert!(matches!(tokens[2].token, Token::FloatLiteral(_)));
}

#[test]
fn test_keywords_russian() {
    let tokens = tokenize("если то иначе").unwrap();
    assert!(matches!(tokens[0].token, Token::If));
    assert!(matches!(tokens[1].token, Token::Then));
    assert!(matches!(tokens[2].token, Token::Else));
}

#[test]
fn test_keywords_english() {
    let tokens = tokenize("if then else").unwrap();
    assert!(matches!(tokens[0].token, Token::If));
    assert!(matches!(tokens[1].token, Token::Then));
    assert!(matches!(tokens[2].token, Token::Else));
}

#[test]
fn test_pipe_operator() {
    let tokens = tokenize("x |> f").unwrap();
    assert!(matches!(tokens[0].token, Token::Ident(_)));
    assert!(matches!(tokens[1].token, Token::Pipe));
    assert!(matches!(tokens[2].token, Token::Ident(_)));
}

// ---------------------------------------------------------------------------
// Further checks of the lexer's behaviour.
// ---------------------------------------------------------------------------

#[test]
fn tokens_end_with_eof() {
    let tokens = tokenize("алг x").unwrap();
    assert!(tokens.last().unwrap().is_eof());
    let tokens = tokenize("").unwrap();
    assert_eq!(tokens.len(), 1);
    assert!(tokens[0].is_eof());
}

#[test]
fn float_literal_keeps_digits_without_underscores() {
    let tokens = tokenize("3.14 1_0.5e1_0").unwrap();
    assert_eq!(tokens[0].token, Token::FloatLiteral("3.14".to_string()));
    assert_eq!(tokens[1].token, Token::FloatLiteral("10.5e10".to_string()));
    let v: f64 = "3.14".parse().unwrap();
    if let Token::FloatLiteral(s) = &tokens[0].token {
        assert_eq!(s.parse::<f64>().unwrap(), v);
    }
}

#[test]
fn spans_follow_lines_and_columns() {
    let tokens = tokenize("a\n bc").unwrap();
    assert_eq!(tokens[0].span, Span::new(Position::new(1, 1, 0), Position::new(1, 2, 1)));
    assert_eq!(tokens[1].span, Span::new(Position::new(1, 2, 1), Position::new(2, 1, 2)));
    assert_eq!(tokens[2].span, Span::new(Position::new(2, 2, 3), Position::new(2, 4, 5)));
    let tokens = tokenize("я x").unwrap();
    assert_eq!(tokens[1].span.start.offset, 3);
}

#[test]
fn integer_overflow_is_an_error() {
    let err = tokenize("9223372036854775808").unwrap_err();
    assert_eq!(err.kind, LexerErrorKind::InvalidNumber);
    let tokens = tokenize("9223372036854775807").unwrap();
    assert_eq!(tokens[0].token, Token::IntLiteral(i64::MAX));
}

#[test]
fn lexer_error_kinds() {
    assert_eq!(tokenize("\"abc").unwrap_err().kind, LexerErrorKind::UnterminatedString);
    assert_eq!(tokenize("''").unwrap_err().kind, LexerErrorKind::EmptyCharLiteral);
    assert_eq!(tokenize("'ab'").unwrap_err().kind, LexerErrorKind::MultiCharLiteral);
    assert_eq!(tokenize("'a").unwrap_err().kind, LexerErrorKind::UnterminatedChar);
    assert_eq!(tokenize("\"\\q\"").unwrap_err().kind, LexerErrorKind::InvalidEscape);
    assert_eq!(tokenize("\"\\u{D800}\"").unwrap_err().kind, LexerErrorKind::InvalidUnicodeEscape);
    assert_eq!(tokenize("0x").unwrap_err().kind, LexerErrorKind::InvalidNumber);
    assert_eq!(tokenize("1e").unwrap_err().kind, LexerErrorKind::InvalidNumber);
    assert_eq!(tokenize("@").unwrap_err().kind, LexerErrorKind::UnexpectedChar);
    assert_eq!(tokenize("РастВставкаНЦ fn x").unwrap_err().kind, LexerErrorKind::UnterminatedRustBlock);
    assert_eq!(tokenize("РастВставкаНЦ").unwrap_err().kind, LexerErrorKind::UnterminatedRustBlock);
    assert_eq!(tokenize("РастВставкаНЦ   ").unwrap_err().kind, LexerErrorKind::UnterminatedRustBlock);
    assert_eq!(tokenize("ржавчина нач").unwrap_err().kind, LexerErrorKind::UnterminatedRustBlock);
    assert_eq!(tokenize("f\"").unwrap_err().kind, LexerErrorKind::UnterminatedString);
    assert_eq!(tokenize("f\"ab").unwrap_err().kind, LexerErrorKind::UnterminatedString);
    assert_eq!(tokenize("f\"{x").unwrap_err().kind, LexerErrorKind::UnterminatedString);
}

#[test]
fn interpolated_strings_end_and_keep_their_spaces() {
    let kinds = |src: &str| -> Vec<Token> { tokenize(src).unwrap().into_iter().map(|t| t.token).collect() };
    assert_eq!(
        kinds("f\"ab\""),
        vec![
            Token::InterpolatedStringStart,
            Token::InterpolatedStringPart("ab".to_string()),
            Token::InterpolatedStringEnd,
            Token::EOF,
        ]
    );
    assert_eq!(
        kinds("f\"{x} y\""),
        vec![
            Token::InterpolatedStringStart,
            Token::Ident("x".to_string()),
            Token::InterpolatedStringPart(" y".to_string()),
            Token::InterpolatedStringEnd,
            Token::EOF,
        ]
    );
    assert_eq!(
        kinds("f\"  \""),
        vec![
            Token::InterpolatedStringStart,
            Token::InterpolatedStringPart("  ".to_string()),
            Token::InterpolatedStringEnd,
            Token::EOF,
        ]
    );
}

#[test]
fn recovery_ends_at_an_unterminated_string() {
    let (tokens, errors) = tokenize_with_recovery("a f\"b");
    assert!(!errors.is_empty());
    assert!(errors.iter().all(|e| e.kind == LexerErrorKind::UnterminatedString));
    assert!(tokens.last().unwrap().is_eof());
}

#[test]
fn recovery_collects_errors_and_goes_on() {
    let (tokens, errors) = tokenize_with_recovery("a @ b");
    assert_eq!(errors.len(), 1);
    assert_eq!(errors[0].kind, LexerErrorKind::UnexpectedChar);
    assert!(matches!(tokens[0].token, Token::Ident(_)));
    assert!(matches!(tokens[1].token, Token::Ident(_)));
    assert!(tokens[2].is_eof());
}

#[test]
fn rust_blocks() {
    let tokens = tokenize("РастВставкаНЦ fn main() {} РастВставкаКЦ").unwrap();
    assert_eq!(tokens[0].token, Token::RustBlockStart);
    assert_eq!(tokens[1].token, Token::RustInline("fn main() {} ".to_string()));
    let tokens = tokenize("ржавчина нач let x = 1; кон").unwrap();
    assert_eq!(tokens[0].token, Token::RustBlockStart);
    assert_eq!(tokens[1].token, Token::RustInline("let x = 1; ".to_string()));
    let tokens = tokenize("РастВставкаНЦ   РастВставкаКЦ").unwrap();
    assert_eq!(tokens[1].token, Token::RustBlockEnd);
    let tokens = tokenize("ржавчина x").unwrap();
    assert!(matches!(tokens[0].token, Token::Ident(_)));
}

#[test]
fn interpolated_strings() {
    let tokens = tokenize("f\"a{x}b\"").unwrap();
    assert_eq!(tokens[0].token, Token::InterpolatedStringStart);
    assert_eq!(tokens[1].token, Token::InterpolatedStringPart("a".to_string()));
    assert!(matches!(tokens[2].token, Token::Ident(_)));
    assert_eq!(tokens[3].token, Token::InterpolatedStringPart("b".to_string()));
    assert_eq!(tokens[4].token, Token::InterpolatedStringEnd);
    assert!(tokens[5].is_eof());
    let tokens = tokenize("f\"{{}}\"").unwrap();
    assert_eq!(tokens[1].token, Token::InterpolatedStringPart("{}".to_string()));
    let tokens = tokenize("f\"{ {1} }\"").unwrap();
    assert_eq!(tokens[1].token, Token::LBrace);
    assert_eq!(tokens[2].token, Token::IntLiteral(1));
    assert_eq!(tokens[3].token, Token::RBrace);
    assert_eq!(tokens[4].token, Token::InterpolatedStringEnd);
}

#[test]
fn token_iterator_stops_after_eof() {
    let mut it = Lexer::new("a b").tokens();
    let mut count = 0;
    while let Some(t) = it.next() {
        assert!(t.is_ok());
        count += 1;
    }
    assert_eq!(count, 3);
    assert!(it.next().is_none());
}

#[test]
fn next_token_in_steps() {
    let mut lexer = Lexer::new("  x");
    let t = lexer.next_token().unwrap().unwrap();
    assert!(matches!(t.token, Token::Ident(_)));
    assert_eq!(t.span.start.column, 3);
    let t = lexer.next_token().unwrap().unwrap();
    assert!(t.is_eof());
    let mut lexer = Lexer::new("@").with_error_recovery();
    let _ = lexer.tokenize().unwrap();
    assert_eq!(lexer.errors().len(), 1);
}

#[test]
fn spans_merge_and_measure() {
    let a = Span::new(Position::new(1, 1, 0), Position::new(1, 3, 2));
    let b = Span::new(Position::new(1, 5, 4), Position::new(1, 9, 8));
    let m = a.merge(b);
    assert_eq!(m.start.offset, 0);
    assert_eq!(m.end.offset, 8);
    assert_eq!(m.len(), 8);
    assert!(!m.is_empty());
    assert!(Span::point(Position::start()).is_empty());
}

#[test]
fn spanned_token_predicates() {
    let t = SpannedToken::new(Token::Comment("x".to_string()), Span::point(Position::start()));
    assert!(t.is_comment());
    assert!(!t.is_eof());
    assert!(t.is(&Token::Comment("y".to_string())));
    assert!(!t.is(&Token::Newline));
    let _ = LexerState::Normal;
}

#[test]
fn token_streams_end_with_eof() {
    for src in ["", "алг\nнач\nкон", "x := 1 + 2", "вывод \"привет\""] {
        let tokens = tokenize(src).unwrap();
        assert!(matches!(tokens.last().unwrap().token, Token::EOF));
    }
    let (tokens, errors) = tokenize_with_recovery("x := @ 1");
    assert!(matches!(tokens.last().unwrap().token, Token::EOF));
    assert!(!errors.is_empty());
}

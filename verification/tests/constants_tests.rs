use kumir3_shared::constants::{
    get_builtin_int_constant, is_builtin_constant, is_builtin_function, is_keyword, get_keyword_token,
    keyword_for, all_keywords, is_operator_char, operator_token, is_binary_operator, is_unary_operator,
    is_assignment_operator, builtin_category, BuiltinCategory, get_all_builtin_names,
};
use kumir3_shared::types::Token;

#[test]
fn test_keywords() {
    assert!(is_keyword("алг"));
    assert!(is_keyword("если"));
    assert!(is_keyword("подключить"));
    assert!(!is_keyword("unknown"));
}

#[test]
fn test_builtin_functions() {
    assert!(is_builtin_function("sin"));
    assert!(is_builtin_function("корень"));
    assert!(is_builtin_function("длин"));
    assert!(!is_builtin_function("unknown"));
}

#[test]
fn test_int_constants() {
    assert_eq!(get_builtin_int_constant("МАКС_ЦЕЛ"), Some(i64::MAX));
    assert_eq!(get_builtin_int_constant("МИН_ЦЕЛ"), Some(i64::MIN));
}

#[test]
fn keyword_lookup_roundtrips() {
    assert_eq!(get_keyword_token("нач"), Some(Token::Begin));
    assert_eq!(get_keyword_token("begin"), Some(Token::Begin));
    assert_eq!(get_keyword_token("xyz"), None);
    for text in all_keywords() {
        let token = get_keyword_token(text).unwrap();
        let name = keyword_for(&token).unwrap();
        assert_eq!(get_keyword_token(name), Some(token));
    }
}

#[test]
fn operators_and_their_classes() {
    assert_eq!(operator_token(":="), Some(Token::Assign));
    assert_eq!(operator_token("..="), Some(Token::DoubleDotEq));
    assert_eq!(operator_token("#"), None);
    assert!(is_operator_char('+'));
    assert!(!is_operator_char('a'));
    assert!(is_binary_operator(&Token::Plus));
    assert!(is_unary_operator(&Token::Minus));
    assert!(is_assignment_operator(&Token::PlusAssign));
    for t in [Token::Assign, Token::PlusAssign, Token::MinusAssign, Token::StarAssign, Token::SlashAssign] {
        assert!(is_assignment_operator(&t));
        assert!(!is_binary_operator(&t));
    }
    for t in [Token::Not, Token::Ampersand, Token::Caret] {
        assert!(is_unary_operator(&t));
        assert!(!is_binary_operator(&t));
    }
}

#[test]
fn builtin_names_and_constants() {
    assert!(is_builtin_constant("ПИ"));
    assert!(is_builtin_constant("pi"));
    assert!(!is_builtin_constant("xyz"));
    assert!(builtin_category("sin").is_some());
    assert!(builtin_category("xyz").is_none());
    assert!(get_all_builtin_names().len() > 0);
    let _ = BuiltinCategory::Math;
}

#[test]
fn keyword_list_holds_exactly_the_keywords() {
    let all = all_keywords();
    assert_eq!(all.len(), 68);
    for k in &all {
        assert!(is_keyword(k), "{k}");
    }
    assert!(!all.contains(&"алгоритм"));
    assert!(!is_keyword("алгоритм"));
}

#[test]
fn builtin_list_holds_exactly_the_builtin_names() {
    let all = get_all_builtin_names();
    assert_eq!(all.len(), 46);
    for n in &all {
        assert!(builtin_category(n).is_some(), "{n}");
    }
    assert!(builtin_category("синус").is_none());
}

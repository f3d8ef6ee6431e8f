use kumir3_shared::net::json::{json_parse, json_parse_checked, json_stringify};
use kumir3_shared::net::value::Value;

fn s(t: &str) -> Value {
    Value::Str(t.to_string())
}

#[test]
fn json_scalars_are_read() {
    assert_eq!(json_parse("null"), Ok(Value::Null));
    assert_eq!(json_parse("  true  "), Ok(Value::Boolean(true)));
    assert_eq!(json_parse("false"), Ok(Value::Boolean(false)));
    assert_eq!(json_parse("42"), Ok(Value::Int(42)));
    assert_eq!(json_parse("-17"), Ok(Value::Int(-17)));
    assert_eq!(json_parse("-9223372036854775808"), Ok(Value::Int(i64::MIN)));
    assert_eq!(json_parse("2.5e-3"), Ok(Value::Float("2.5e-3".to_string())));
    assert_eq!(json_parse("1."), Ok(Value::Float("1.".to_string())));
    assert_eq!(json_parse("7 trailing"), Ok(Value::Int(7)));
}

#[test]
fn json_strings_unescape() {
    assert_eq!(json_parse(r#""a\"b\\c\/d\ne\rf\tg""#), Ok(s("a\"b\\c/d\ne\rf\tg")));
    assert_eq!(json_parse(r#""\u0041""#), Ok(s("\\u0041")));
    assert_eq!(json_parse("\"привет\""), Ok(s("привет")));
}

#[test]
fn json_arrays_and_objects() {
    assert_eq!(
        json_parse("[1, [true, null], \"x\"]"),
        Ok(Value::Array(vec![
            Value::Int(1),
            Value::Array(vec![Value::Boolean(true), Value::Null]),
            s("x"),
        ]))
    );
    assert_eq!(json_parse("[ ]"), Ok(Value::Array(vec![])));
    assert_eq!(json_parse("{}"), Ok(Value::Object(vec![])));
    // Keys come out ordered; a repeated key keeps its last value.
    assert_eq!(
        json_parse(r#"{"b": 1, "a": {"c": []}, "b": 2}"#),
        Ok(Value::Object(vec![
            (s("a"), Value::Object(vec![(s("c"), Value::Array(vec![]))])),
            (s("b"), Value::Int(2)),
        ]))
    );
}

#[test]
fn json_errors_name_what_was_expected() {
    assert_eq!(json_parse("   "), Err("Пустой JSON".to_string()));
    assert_eq!(json_parse("\"abc"), Err("Незакрытая строка JSON".to_string()));
    assert_eq!(json_parse("[1 2]"), Err("Ожидается ',' или ']' в массиве JSON".to_string()));
    assert_eq!(json_parse("{\"a\" 1}"), Err("Ожидается ':' в объекте JSON".to_string()));
    assert_eq!(json_parse("{\"a\": 1 \"b\": 2}"), Err("Ожидается ',' или '}' в объекте JSON".to_string()));
    assert_eq!(json_parse("{a: 1}"), Err("Ожидается '\"'".to_string()));
    assert_eq!(json_parse("@"), Err("Неожиданный символ в JSON: '@'".to_string()));
    assert_eq!(json_parse("tru"), Err("Неожиданный символ в JSON: 't'".to_string()));
    assert_eq!(json_parse("-"), Err("Неверное число: -".to_string()));
    assert_eq!(json_parse("1e+"), Err("Неверное число: 1e+".to_string()));
    assert_eq!(json_parse("99999999999999999999"), Err("Неверное число: 99999999999999999999".to_string()));
    assert_eq!(json_parse("[1,"), Err("Пустой JSON".to_string()));
}

#[test]
fn json_reader_declines_non_ascii_input() {
    assert_eq!(json_parse_checked("ё"), None);
    assert_eq!(json_parse_checked("[1, ж]"), None);
    assert_eq!(json_parse_checked("1"), Some(Ok(Value::Int(1))));
}

#[test]
fn json_values_are_written() {
    assert_eq!(json_stringify(&Value::Null), "null");
    assert_eq!(json_stringify(&Value::Boolean(false)), "false");
    assert_eq!(json_stringify(&Value::Int(-305)), "-305");
    assert_eq!(json_stringify(&Value::Float("0.25".to_string())), "0.25");
    assert_eq!(json_stringify(&s("a\"b\\c\nd\re\tf/")), r#""a\"b\\c\nd\re\tf/""#);
    assert_eq!(json_stringify(&Value::Char('"')), "\"\"\"");
    let v = Value::Object(vec![
        (s("k"), Value::Array(vec![Value::Int(1), Value::Null])),
        (s("z"), s("w")),
    ]);
    assert_eq!(json_stringify(&v), r#"{"k":[1,null],"z":"w"}"#);
}

#[test]
fn json_written_text_reads_back() {
    let v = Value::Object(vec![
        (s("a b"), Value::Array(vec![Value::Int(i64::MAX), s("q\"\\\n")])),
        (s("b"), Value::Object(vec![(s("c"), Value::Boolean(true))])),
    ]);
    let text = json_stringify(&v);
    assert_eq!(json_parse(&text), Ok(v));
}

#[test]
fn ascii_text_never_makes_the_reader_panic() {
    for text in ["", "[", "]", "{\"a\"", "{\"a\":", "[1,]", "\u{1}", "-", "\"\\", "{\"a\":1,}", "nul", "[[[[", "~"] {
        assert!(json_parse_checked(text).is_some(), "{text:?}");
    }
}

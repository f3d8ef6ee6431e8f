use kumir3_shared::net::value::Value;
use kumir3_shared::timer::elapsed_since;

#[test]
fn elapsed_time_is_measured_from_the_mark() {
    assert_eq!(elapsed_since(&[Value::Int(1_000)], 1_250), Ok(Value::Int(250)));
    // A mark in the future gives zero, not a negative interval.
    assert_eq!(elapsed_since(&[Value::Int(2_000)], 1_250), Ok(Value::Int(0)));
    assert_eq!(
        elapsed_since(&[Value::Str("1000".to_string())], 1_250),
        Err("Ожидается целое значение".to_string())
    );
    assert_eq!(elapsed_since(&[], 5), Err("Ожидается целое значение".to_string()));
}

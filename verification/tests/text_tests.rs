use kumir3_shared::text::parse_i64;

#[test]
fn integers_are_read_as_std_reads_them() {
    for s in ["0", "-0", "+17", "-9223372036854775808", "9223372036854775807", "007", "", "-", "+", "1 ", " 1", "9223372036854775808", "-9223372036854775809", "12a", "99999999999999999999999"] {
        assert_eq!(parse_i64(s), s.parse::<i64>().ok(), "{s:?}");
    }
}

use petal::text::{int_string, nat_string, parse_i64, same_text};

#[test]
fn decimal_rendering() {
    assert_eq!(nat_string(0), "0");
    assert_eq!(nat_string(1234567890), "1234567890");
    assert_eq!(int_string(-42), "-42");
    assert_eq!(int_string(i64::MIN), "-9223372036854775808");
}

#[test]
fn integer_literals() {
    assert_eq!(parse_i64("17"), Some(17));
    assert_eq!(parse_i64("-17"), Some(-17));
    assert_eq!(parse_i64("+5"), Some(5));
    assert_eq!(parse_i64("9223372036854775807"), Some(i64::MAX));
    assert_eq!(parse_i64("9223372036854775808"), None);
    assert_eq!(parse_i64("-9223372036854775808"), Some(i64::MIN));
    assert_eq!(parse_i64("3.14"), None);
    assert_eq!(parse_i64(""), None);
    assert_eq!(parse_i64("-"), None);
}

#[test]
fn text_equality() {
    assert!(same_text("abc", "abc"));
    assert!(!same_text("abc", "abd"));
}

#[test]
fn rendering_then_parsing_gives_the_number_back() {
    for x in [0i64, 7, -7, 10, 1234567, i64::MAX, i64::MIN] {
        assert_eq!(parse_i64(&int_string(x)), Some(x));
    }
}

use bpmn_engine::text::{parse_decimal, append_decimal, str_eq};

#[test]
fn test_append_decimal_renders_exact_digits() {
    let mut s = String::from("n=");
    append_decimal(&mut s, 0);
    assert_eq!(s, "n=0");

    let mut s = String::new();
    append_decimal(&mut s, 9_007_199);
    assert_eq!(s, "9007199");

    let mut s = String::new();
    append_decimal(&mut s, usize::MAX);
    assert_eq!(s, usize::MAX.to_string());
}

#[test]
fn test_parse_decimal_accepts_digit_strings() {
    assert_eq!(parse_decimal("0"), Some(0));
    assert_eq!(parse_decimal("42"), Some(42));
    assert_eq!(parse_decimal("007"), Some(7));
    assert_eq!(parse_decimal(&usize::MAX.to_string()), Some(usize::MAX));
}

#[test]
fn test_parse_decimal_rejects_non_numerals() {
    assert_eq!(parse_decimal(""), None);
    assert_eq!(parse_decimal("a1"), None);
    assert_eq!(parse_decimal("1 "), None);
    assert_eq!(parse_decimal("-3"), None);
    // One past the largest representable value.
    assert_eq!(parse_decimal("18446744073709551616"), None);
}

#[test]
fn test_str_eq_compares_by_characters() {
    assert!(str_eq("", ""));
    assert!(str_eq("täsk", "täsk"));
    assert!(!str_eq("task", "Task"));
    assert!(!str_eq("task", "task "));
}

use maprando_web::text::{decimal_string, join};

#[test]
fn decimal_numbers() {
    assert_eq!(decimal_string(0), "0");
    assert_eq!(decimal_string(9), "9");
    assert_eq!(decimal_string(10), "10");
    assert_eq!(decimal_string(1234567890), "1234567890");
    assert_eq!(decimal_string(usize::MAX), format!("{}", usize::MAX));
}

#[test]
fn joined_lists() {
    let pieces = vec!["a".to_string(), "".to_string(), "bc".to_string()];
    assert_eq!(join(&pieces, ", "), "a, , bc");
    assert_eq!(join(&vec!["one".to_string()], ", "), "one");
    assert_eq!(join(&vec![], ", "), "");
}

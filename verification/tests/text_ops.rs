use rust_validator::text::{line_has_key, lines_of, split_fields, str_eq, trim};

#[test]
fn trim_removes_surrounding_whitespace() {
    assert_eq!(trim("  alice \t"), "alice");
    assert_eq!(trim(""), "");
    assert_eq!(trim("   "), "");
    assert_eq!(trim("a b"), "a b");
}

#[test]
fn str_eq_compares_by_characters() {
    assert!(str_eq("abc", "abc"));
    assert!(!str_eq("abc", "abd"));
    assert!(!str_eq("abc", "ab"));
    assert!(str_eq("", ""));
}

#[test]
fn lines_split_like_the_std_iterator() {
    let text = "a\nb\r\nc\n";
    let lines = lines_of(text);
    assert_eq!(lines, vec!["a".to_string(), "b".to_string(), "c".to_string()]);
    assert_eq!(lines_of(""), Vec::<String>::new());
    assert_eq!(lines_of("\n"), vec!["".to_string()]);
    assert_eq!(lines_of("x"), vec!["x".to_string()]);
}

#[test]
fn split_keeps_empty_parts() {
    assert_eq!(
        split_fields("a||b|", '|'),
        vec!["a".to_string(), "".to_string(), "b".to_string(), "".to_string()]
    );
    assert_eq!(split_fields("", '|'), vec!["".to_string()]);
}

#[test]
fn line_has_key_requires_the_delimiter() {
    assert!(line_has_key("abc|rest", "abc"));
    assert!(!line_has_key("abc123|rest", "abc"));
    assert!(!line_has_key("abc", "abc"));
    assert!(!line_has_key("ab|rest", "abc"));
}

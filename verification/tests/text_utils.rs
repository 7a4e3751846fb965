use ficdata::text::{normalize_text, parse_number, split_first, starts_with};

#[test]
fn normalize_collapses_whitespace_runs() {
    assert_eq!(normalize_text("  Hello \n\t  world  "), "Hello world");
    assert_eq!(normalize_text(""), "");
    assert_eq!(normalize_text(" \u{a0}\u{3000} "), "");
    assert_eq!(normalize_text("a\u{2003}b"), "a b");
    assert_eq!(normalize_text("single"), "single");
}

#[test]
fn parse_number_drops_thousands_separators() {
    assert_eq!(parse_number(Some("1,234".to_string())), Some(1234));
    assert_eq!(parse_number(Some("12,345".to_string())), Some(12345));
    assert_eq!(parse_number(Some("+7".to_string())), Some(7));
    assert_eq!(parse_number(Some("4294967295".to_string())), Some(u32::MAX));
}

#[test]
fn parse_number_rejects_what_is_not_a_u32() {
    assert_eq!(parse_number(None), None);
    assert_eq!(parse_number(Some("".to_string())), None);
    assert_eq!(parse_number(Some(",".to_string())), None);
    assert_eq!(parse_number(Some("+".to_string())), None);
    assert_eq!(parse_number(Some("-1".to_string())), None);
    assert_eq!(parse_number(Some("12a".to_string())), None);
    assert_eq!(parse_number(Some(" 12".to_string())), None);
    assert_eq!(parse_number(Some("4,294,967,296".to_string())), None);
}

#[test]
fn split_first_takes_the_part_before_the_separator() {
    assert_eq!(split_first("Title - Archive of Our Own", " - Archive of Our Own"), "Title");
    assert_eq!(split_first("A - B - C", " - "), "A");
    assert_eq!(split_first("No separator", " - "), "No separator");
    assert_eq!(split_first("abc", ""), "");
}

#[test]
fn starts_with_checks_prefixes() {
    assert!(starts_with("https://x", "https://"));
    assert!(!starts_with("/works/1", "http://"));
    assert!(starts_with("abc", ""));
    assert!(!starts_with("ab", "abc"));
}

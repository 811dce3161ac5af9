use html_exporter::text::{
    contains, enclosed, push_section, replace, same_option, same_text, starts_with,
};

#[test]
fn texts_are_compared() {
    assert!(same_text("a\u{e9}", "a\u{e9}"));
    assert!(!same_text("a", "ab"));
    assert!(same_text("", ""));
    assert!(starts_with("abc", "ab"));
    assert!(starts_with("abc", ""));
    assert!(!starts_with("abc", "abd"));
    assert!(!starts_with("ab", "abc"));
    assert!(contains("a/b", '/'));
    assert!(!contains("", '/'));
}

#[test]
fn occurrences_are_replaced_from_the_left() {
    assert_eq!(replace("aaa", "aa", "b"), "ba");
    assert_eq!(replace("x", "aa", "b"), "x");
    assert_eq!(replace("", "a", "b"), "");
    assert_eq!(replace("\u{e9}a\u{e9}", "\u{e9}", "ee"), "eeaee");
    assert_eq!(replace("a-b-c", "-", ""), "abc");
}

#[test]
fn sections_are_appended_where_there_is_a_text() {
    let mut out = "x".to_string();
    push_section(&mut out, "<", &None, ">");
    assert_eq!(out, "x");
    push_section(&mut out, "<", &Some("y".to_string()), ">");
    assert_eq!(out, "x<y>");
    assert_eq!(enclosed("a", "b", "c"), "abc");
    assert_eq!(same_option(&Some("y".to_string())), Some("y".to_string()));
    assert_eq!(same_option(&None), None);
}

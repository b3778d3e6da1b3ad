use supervisord::text::{
    contains, decimal_i64, decimal_u64, ends_with, has_whitespace, join, replace_all, starts_with,
    text_eq, text_le, trim,
};
use supervisord::sorting::sort_by_name;

#[test]
fn trimming_removes_unicode_white_space() {
    assert_eq!(trim("  a b \n"), "a b");
    assert_eq!(trim("\u{3000}x\u{A0}"), "x");
    assert_eq!(trim("   "), "");
    assert_eq!(trim(""), "");
    assert_eq!(trim("\r\nSTATE : 4 RUNNING\r"), "STATE : 4 RUNNING");
}

#[test]
fn searching() {
    assert!(contains("error 1060 here", "1060"));
    assert!(!contains("error 106", "1060"));
    assert!(contains("abc", ""));
    assert!(starts_with("supervisord", "super"));
    assert!(!starts_with("su", "super"));
    assert!(ends_with("a.toml", ".toml"));
    assert!(!ends_with("a.tom", ".toml"));
    assert!(has_whitespace("a b"));
    assert!(!has_whitespace("ab"));
    assert!(text_eq("abc", "abc"));
    assert!(!text_eq("abc", "abd"));
}

#[test]
fn ordering_is_lexicographic() {
    assert!(text_le("abc", "abd"));
    assert!(text_le("ab", "abc"));
    assert!(!text_le("b", "abc"));
    assert!(text_le("", ""));
    assert!(text_le("Z", "a"));
}

#[test]
fn numbers_print_as_decimal() {
    assert_eq!(decimal_u64(0), "0");
    assert_eq!(decimal_u64(18099), "18099");
    assert_eq!(decimal_u64(u64::MAX), u64::MAX.to_string());
    assert_eq!(decimal_i64(-1), "-1");
    assert_eq!(decimal_i64(i64::MIN), i64::MIN.to_string());
    assert_eq!(decimal_i64(42), "42");
}

#[test]
fn replacing_is_left_to_right_and_non_overlapping() {
    assert_eq!(replace_all("aaa", "aa", "b"), "ba");
    assert_eq!(replace_all("x{{exe_path}}y{{exe_path}}", "{{exe_path}}", "/bin/s"), "x/bin/sy/bin/s");
    assert_eq!(replace_all("say \"hi\"", "\"", "\\\""), "say \\\"hi\\\"");
    assert_eq!(replace_all("none", "zz", "q"), "none");
}

#[test]
fn joining() {
    let parts = vec!["a".to_string(), "b".to_string(), "c".to_string()];
    assert_eq!(join(&parts, " "), "a b c");
    assert_eq!(join(&Vec::new(), " "), "");
}

#[test]
fn sorting_by_name() {
    let v = vec![("b".to_string(), 2), ("a".to_string(), 1), ("c".to_string(), 3), ("a".to_string(), 4)];
    let s = sort_by_name(v);
    let names: Vec<&str> = s.iter().map(|(n, _)| n.as_str()).collect();
    assert_eq!(names, vec!["a", "a", "b", "c"]);
    assert_eq!(s.len(), 4);
}

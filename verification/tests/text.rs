use gpotlight::text::{
    blank, contains, is_whitespace, join, lines, replace, strip_prefix, trim, trim_start,
};

#[test]
fn trims_unicode_whitespace() {
    assert_eq!(trim("  a b \t\n"), "a b");
    assert_eq!(trim("\u{3000}x\u{a0}"), "x");
    assert_eq!(trim_start("  a  "), "a  ");
    assert_eq!(trim("   "), "");
    assert!(blank(" \t "));
    assert!(!blank(" a "));
    assert!(is_whitespace('\u{2028}'));
    assert!(!is_whitespace('x'));
}

#[test]
fn finds_substrings() {
    assert!(contains("gpotlight", "light"));
    assert!(contains("abc", ""));
    assert!(!contains("abc", "abcd"));
    assert!(!contains("abc", "ac"));
}

#[test]
fn strips_prefixes() {
    assert_eq!(strip_prefix("gh repo", "gh"), Some(" repo"));
    assert_eq!(strip_prefix("g", "gh"), None);
    assert_eq!(strip_prefix("微信", "微"), Some("信"));
}

#[test]
fn replaces_every_occurrence() {
    assert_eq!(replace("a{q}b{q}", "{q}", "x"), "axbx");
    assert_eq!(replace("aaa", "aa", "b"), "ba");
    assert_eq!(replace("none", "z", "y"), "none");
}

#[test]
fn joins_with_separator() {
    let parts = vec!["a".to_string(), "b".to_string(), "c".to_string()];
    assert_eq!(join(&parts, ", "), "a, b, c");
    assert_eq!(join(&Vec::new(), ", "), "");
}

#[test]
fn splits_lines_like_str_lines() {
    assert_eq!(lines("a\nb\r\n\nc"), vec!["a", "b", "", "c"]);
    assert_eq!(lines("a\n"), vec!["a"]);
    assert_eq!(lines(""), Vec::<String>::new());
    assert_eq!(lines("x\r"), vec!["x\r"]);
    let sample = "foo\nbar\n\r\nbaz\r";
    let expected: Vec<String> = sample.lines().map(str::to_string).collect();
    assert_eq!(lines(sample), expected);
}

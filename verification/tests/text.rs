use herdr_targets::paths::join_path;
use herdr_targets::text::{
    contains, decimal, join_strings, join_with_newlines, split_lines, starts_with, trim, trim_end,
    trim_start,
};

#[test]
fn lines_follow_str_lines() {
    for s in ["", "a", "a\n", "a\r\nb", "\n", "a\n\nb\n", "x\r", "x\r\r\ny", "\r\n\r\n"] {
        let ours = split_lines(s);
        let std: Vec<String> = s.lines().map(|l| l.to_string()).collect();
        assert_eq!(ours, std, "for {:?}", s);
    }
}

#[test]
fn trimming_follows_str_trim() {
    for s in ["", "  a  ", "\u{3000}a\u{2009}", "\t\n", "a b", "\u{85}x\u{A0}"] {
        assert_eq!(trim(s), s.trim());
        assert_eq!(trim_start(s), s.trim_start());
        assert_eq!(trim_end(s), s.trim_end());
    }
}

#[test]
fn prefixes_and_substrings() {
    assert!(starts_with("abc", "ab"));
    assert!(starts_with("abc", ""));
    assert!(!starts_with("ab", "abc"));
    assert!(contains("xxabyy", "ab"));
    assert!(contains("ab", ""));
    assert!(!contains("a", "ab"));
}

#[test]
fn joining() {
    let parts = vec!["a".to_string(), "".to_string(), "c".to_string()];
    assert_eq!(join_with_newlines(&parts), "a\n\nc");
    assert_eq!(join_strings(&parts, "; "), "a; ; c");
    assert_eq!(join_strings(&Vec::new(), "; "), "");
}

#[test]
fn numbers_and_paths() {
    assert_eq!(decimal(0), "0");
    assert_eq!(decimal(1234567890), "1234567890");
    assert_eq!(decimal(u64::MAX), u64::MAX.to_string());
    assert_eq!(join_path("/a", "b"), "/a/b");
    assert_eq!(join_path("/a/", "b"), "/a/b");
    assert_eq!(join_path("", "b"), "b");
    assert_eq!(join_path("/a", "/b"), "/b");
    assert_eq!(join_path("/a", "b"), std::path::Path::new("/a").join("b").to_str().unwrap());
}

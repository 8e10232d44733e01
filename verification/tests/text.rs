use audiobookshelf_mcp::text::{
    concat2, concat3, dashes, decimal_string, is_blank, str_equal, strip_prefix,
    trim_trailing_slashes, trim_whitespace,
};

#[test]
fn decimal_notation() {
    assert_eq!(decimal_string(0), "0");
    assert_eq!(decimal_string(7), "7");
    assert_eq!(decimal_string(10), "10");
    assert_eq!(decimal_string(4096), "4096");
    assert_eq!(decimal_string(u64::MAX), u64::MAX.to_string());
}

#[test]
fn blank_strings() {
    assert!(is_blank(""));
    assert!(is_blank(" \t\n\r"));
    assert!(is_blank("\u{3000}\u{a0}\u{2028}"));
    assert!(!is_blank(" x "));
    assert!(!is_blank("\u{200b}"));
}

#[test]
fn trimming_white_space() {
    assert_eq!(trim_whitespace("  a b \n"), "a b");
    assert_eq!(trim_whitespace("\u{3000}x\u{a0}"), "x");
    assert_eq!(trim_whitespace("   "), "");
    assert_eq!(trim_whitespace("ab"), "ab");
}

#[test]
fn trailing_slashes() {
    assert_eq!(trim_trailing_slashes("a/b//"), "a/b");
    assert_eq!(trim_trailing_slashes("/"), "");
    assert_eq!(trim_trailing_slashes("é/"), "é");
}

#[test]
fn prefixes() {
    assert_eq!(strip_prefix("Bearer tok", "Bearer "), Some("tok"));
    assert_eq!(strip_prefix("Bearer", "Bearer "), None);
    assert_eq!(strip_prefix("Basic tok", "Bearer "), None);
    assert_eq!(strip_prefix("x", ""), Some("x"));
}

#[test]
fn equality_and_concatenation() {
    assert!(str_equal("é", "é"));
    assert!(!str_equal("e", "é"));
    assert!(!str_equal("ab", "abc"));
    assert_eq!(concat2("a", "bc"), "abc");
    assert_eq!(concat3("/x/", "1", "/y"), "/x/1/y");
    assert_eq!(dashes(3), "---");
    assert_eq!(dashes(0), "");
}

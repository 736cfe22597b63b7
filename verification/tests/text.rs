use tnviewer::text::{parse_usize_str, replace_str, split_str, trim_str, usize_to_string};

#[test]
fn parse_usize_like_std() {
    assert_eq!(parse_usize_str("+12"), Some(12));
    assert_eq!(parse_usize_str("007"), Some(7));
    assert_eq!(parse_usize_str(""), None);
    assert_eq!(parse_usize_str("+"), None);
    assert_eq!(parse_usize_str("-1"), None);
    assert_eq!(parse_usize_str("1 "), None);
    assert_eq!(parse_usize_str("99999999999999999999999"), None);
}

#[test]
fn split_and_replace_like_std() {
    assert_eq!(split_str("a,b,,c", ","), vec!["a", "b", "", "c"]);
    assert_eq!(split_str("abc", ""), vec!["", "a", "b", "c", ""]);
    assert_eq!(split_str("aaa", "aa"), vec!["", "a"]);
    assert_eq!(replace_str("a-b-c", "-", ""), "abc");
    assert_eq!(replace_str("ab", "", "x"), "xaxbx");
    assert_eq!(trim_str(" \t x y \u{3000}"), "x y");
    assert_eq!(usize_to_string(0), "0");
    assert_eq!(usize_to_string(1205), "1205");
}

use subs::text::{
    contains, ends_with, first_piece, flatten, i64_text, lowered_eq, segments, sort_names, split,
    split_head, starts_with, strip_prefix, text_precedes, trim, trim_end_matches,
    trim_start_matches, two_digit_text, u64_text,
};

#[test]
fn searching() {
    assert!(contains("abcabd", "abd"));
    assert!(contains("x", ""));
    assert!(!contains("ab", "abc"));
    assert!(starts_with("log.x", "log."));
    assert!(ends_with("a.req.json", ".req.json"));
    assert_eq!(strip_prefix("Bearer t", "Bearer "), Some("t"));
    assert_eq!(strip_prefix("bearer t", "Bearer "), None);
}

#[test]
fn trimming() {
    assert_eq!(trim("\u{3000} a b\t\r\n"), "a b");
    assert_eq!(trim(" \n"), "");
    assert_eq!(trim_end_matches("a///", '/'), "a");
    assert_eq!(trim_start_matches("@@a@", '@'), "a@");
}

#[test]
fn splitting() {
    assert_eq!(split("a,,b", ','), ["a", "", "b"]);
    assert_eq!(split("", ','), [""]);
    assert_eq!(segments("/a//b/", '/'), ["a", "b"]);
    assert_eq!(first_piece("alice@x@y", '@'), "alice");
    assert_eq!(first_piece("alice", '@'), "alice");
    assert_eq!(split_head("k=v=w", '='), Some("k"));
    assert_eq!(split_head("k", '='), None);
    assert_eq!(flatten("a@b/c"), "a_b_c");
}

#[test]
fn numbers() {
    assert_eq!(u64_text(0), "0");
    assert_eq!(u64_text(u64::MAX), "18446744073709551615");
    assert_eq!(i64_text(-40), "-40");
    assert_eq!(i64_text(i64::MIN), "-9223372036854775808");
    assert_eq!(two_digit_text(7), "07");
    assert_eq!(two_digit_text(59), "59");
}

#[test]
fn order() {
    assert!(text_precedes("a", "b"));
    assert!(text_precedes("a", "aa"));
    assert!(!text_precedes("a", "a"));
    assert!(text_precedes("Z", "a"));
    assert!(text_precedes("z", "\u{e9}"));
    assert!(lowered_eq("TrUe", "true"));
    assert!(!lowered_eq("\u{c9}", "\u{e9}"));
    let names: Vec<String> = ["b", "a", "b", "\u{10ffff}", "\u{ffff}", ""].iter().map(|s| s.to_string()).collect();
    let mut expected = names.clone();
    expected.sort();
    expected.dedup();
    assert_eq!(sort_names(&names), expected);
}

#[test]
fn outer_and_repeated_separators_do_not_count() {
    let parts = segments("spaces//@a/handles/b", '/');
    assert_eq!(parts, ["spaces", "@a", "handles", "b"]);
    assert_eq!(segments("/spaces//@a/handles/b//", '/'), parts);
    assert_eq!(segments(&parts.join("/"), '/'), parts);
    assert_eq!(parts.concat(), "spaces@ahandlesb");
    assert!(segments("", '/').is_empty());
}

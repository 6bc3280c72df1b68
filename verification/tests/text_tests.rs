use amsterdam::text::{find_char, split_trimmed, str_eq, trim};

#[test]
fn trim_removes_surrounding_whitespace_only() {
    assert_eq!(trim("  a b  "), "a b");
    assert_eq!(trim("\t x\r\n"), "x");
    assert_eq!(trim(""), "");
    assert_eq!(trim("   "), "");
    assert_eq!(trim("abc"), "abc");
    assert_eq!(trim("\u{a0}y\u{3000}"), "y");
}

#[test]
fn find_char_returns_first_occurrence() {
    assert_eq!(find_char("a:b:c", ':'), Some(1));
    assert_eq!(find_char(":x", ':'), Some(0));
    assert_eq!(find_char("abc", ':'), None);
    assert_eq!(find_char("", ':'), None);
}

#[test]
fn split_trimmed_splits_and_trims() {
    assert_eq!(
        split_trimmed(" a, b ,c", ','),
        vec![String::from("a"), String::from("b"), String::from("c")]
    );
    assert_eq!(split_trimmed("one", ','), vec![String::from("one")]);
    assert_eq!(split_trimmed("", ','), vec![String::from("")]);
    assert_eq!(
        split_trimmed(",", ','),
        vec![String::from(""), String::from("")]
    );
}

#[test]
fn str_eq_compares_contents() {
    assert!(str_eq("abc", "abc"));
    assert!(!str_eq("abc", "abd"));
    assert!(!str_eq("abc", "ab"));
    assert!(str_eq("", ""));
}

use picus::text::{find_char, split_str, str_eq, str_starts_with};

#[test]
fn string_equality() {
    assert!(str_eq("abc", "abc"));
    assert!(!str_eq("abc", "abd"));
    assert!(!str_eq("abc", "ab"));
    assert!(str_eq("", ""));
}

#[test]
fn prefix_test() {
    assert!(str_starts_with("woodpecker-ci.org/repo-id", "woodpecker-ci.org"));
    assert!(str_starts_with("abc", ""));
    assert!(str_starts_with("abc", "abc"));
    assert!(!str_starts_with("ab", "abc"));
    assert!(!str_starts_with("platform", "woodpecker-ci.org"));
}

#[test]
fn find_first_occurrence() {
    assert_eq!(find_char("key=value", '='), Some(3));
    assert_eq!(find_char("a=b=c", '='), Some(1));
    assert_eq!(find_char("abc", '='), None);
    assert_eq!(find_char("", '='), None);
}

#[test]
fn split_keeps_empty_pieces() {
    assert_eq!(split_str("a,b,c", ','), vec!["a", "b", "c"]);
    assert_eq!(split_str("", ','), vec![""]);
    assert_eq!(split_str(",", ','), vec!["", ""]);
    assert_eq!(split_str("a,,c", ','), vec!["a", "", "c"]);
    assert_eq!(split_str("abc", ','), vec!["abc"]);
}

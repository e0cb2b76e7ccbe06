use nimbuzyn::text::{str_contains_char, str_eq, str_is_blank, str_le, str_lt, str_prefix, str_trim};

#[test]
fn equality_is_exact() {
    assert!(str_eq("abc", "abc"));
    assert!(!str_eq("abc", "abd"));
    assert!(!str_eq("abc", "ab"));
    assert!(str_eq("", ""));
    assert!(str_eq("añc", "añc"));
}

#[test]
fn lexicographic_order_is_by_scalar_value() {
    assert!(str_le("", "a"));
    assert!(str_le("a", "a"));
    assert!(str_lt("a", "b"));
    assert!(str_lt("ab", "b"));
    assert!(str_lt("ab", "abc"));
    assert!(!str_lt("a", "a"));
    assert!(!str_le("b", "a"));
    // Uppercase letters sort before lowercase ones.
    assert!(str_lt("Z", "a"));
}

#[test]
fn trimming_strips_leading_and_trailing_whitespace() {
    assert_eq!(str_trim("  hello  "), "hello");
    assert_eq!(str_trim("\t a b \n"), "a b");
    assert_eq!(str_trim("word"), "word");
    assert_eq!(str_trim("   "), "");
    assert_eq!(str_trim(""), "");
}

#[test]
fn blankness_and_containment() {
    assert!(str_is_blank(""));
    assert!(str_is_blank(" \t\r\n"));
    assert!(!str_is_blank(" x "));
    assert!(str_contains_char("hello", 'e'));
    assert!(!str_contains_char("hello", 'z'));
}

#[test]
fn prefixes_count_characters_not_bytes() {
    assert_eq!(str_prefix("hello", 3), "hel");
    assert_eq!(str_prefix("hi", 10), "hi");
    assert_eq!(str_prefix("ñañañá", 2), "ña");
    assert_eq!(str_prefix("abc", 0), "");
}

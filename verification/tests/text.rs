use launchk::text::{
    i64_to_string, pad_to_width, push_char, str_contains, str_eq, str_le, str_starts_with,
    to_ascii_lowercase, to_lowercase, truncate_bytes, u64_to_string,
};

#[test]
fn str_le_is_byte_order() {
    assert!(str_le("abc", "abd"));
    assert!(str_le("ab", "abc"));
    assert!(str_le("", ""));
    assert!(!str_le("b", "a"));
    assert!(str_le("Z", "a"));
    assert!(!str_le("\u{e9}", "z"));
}

#[test]
fn str_eq_compares_contents() {
    assert!(str_eq("launchd", "launchd"));
    assert!(!str_eq("launchd", "launchctl"));
    assert!(!str_eq("a", ""));
}

#[test]
fn push_char_appends() {
    let mut s = "ab".to_string();
    push_char(&mut s, '\u{2714}');
    assert_eq!(s, "ab\u{2714}");
}

#[test]
fn lowercase_wrappers() {
    assert_eq!(to_ascii_lowercase("Com.Apple.\u{c9}"), "com.apple.\u{c9}");
    assert_eq!(to_lowercase("Com.Apple.\u{c9}"), "com.apple.\u{e9}");
}

#[test]
fn contains_and_starts_with() {
    assert!(str_contains("com.apple.finder", "apple"));
    assert!(str_contains("x", ""));
    assert!(!str_contains("com.apple.finder", "Apple"));
    assert!(str_starts_with("/Library/LaunchAgents/x.plist", "/Library/LaunchAgents"));
    assert!(!str_starts_with("/System/Library", "/Library"));
}

#[test]
fn decimal_forms() {
    assert_eq!(u64_to_string(0), "0");
    assert_eq!(u64_to_string(1234567890), "1234567890");
    assert_eq!(u64_to_string(u64::MAX), u64::MAX.to_string());
    assert_eq!(i64_to_string(-42), "-42");
    assert_eq!(i64_to_string(i64::MIN), i64::MIN.to_string());
    assert_eq!(i64_to_string(7), "7");
}

#[test]
fn truncate_and_pad() {
    assert_eq!(truncate_bytes("launchd", 6), "launch");
    assert_eq!(truncate_bytes("abc", 10), "abc");
    assert_eq!(truncate_bytes("a\u{2714}b", 4), "a\u{2714}");
    assert_eq!(pad_to_width("ab".to_string(), 4), "ab  ");
    assert_eq!(pad_to_width("abcdef".to_string(), 4), "abcdef");
    assert_eq!(pad_to_width("\u{2714}".to_string(), 2), "\u{2714} ");
}

use voicebot::text::{
    decimal_string, join, push_decimal, push_two_digits, replace_first, same_text, strip_prefix,
};

#[test]
fn decimal_has_no_leading_zeros() {
    assert_eq!(decimal_string(0), "0");
    assert_eq!(decimal_string(7), "7");
    assert_eq!(decimal_string(10), "10");
    assert_eq!(decimal_string(190_203), "190203");
    assert_eq!(decimal_string(u64::MAX), "18446744073709551615");
}

#[test]
fn decimal_is_appended() {
    let mut s = String::from("n=");
    push_decimal(&mut s, 42);
    assert_eq!(s, "n=42");
}

#[test]
fn two_digits_are_padded() {
    let mut s = String::from("0:");
    push_two_digits(&mut s, 7);
    assert_eq!(s, "0:07");
    push_two_digits(&mut s, 59);
    assert_eq!(s, "0:0759");
}

#[test]
fn decimals_of_different_numbers_differ() {
    assert_ne!(decimal_string(1), decimal_string(10));
    assert_ne!(decimal_string(12), decimal_string(21));
}

#[test]
fn joining_puts_the_separator_between() {
    assert_eq!(join(&vec![], ", "), "");
    assert_eq!(join(&vec!["a".to_string()], ", "), "a");
    let three = vec!["a".to_string(), String::new(), "ü".to_string()];
    assert_eq!(join(&three, ", "), "a, , ü");
}

#[test]
fn prefixes_are_stripped_once() {
    assert_eq!(strip_prefix("spotify:spotify:x", "spotify:").as_deref(), Some("spotify:x"));
    assert_eq!(strip_prefix("spot", "spotify:"), None);
    assert_eq!(strip_prefix("Spotify:x", "spotify:"), None);
    assert_eq!(strip_prefix("spotify:", "spotify:").as_deref(), Some(""));
    assert_eq!(strip_prefix("äöü", "ä").as_deref(), Some("öü"));
    assert_eq!(strip_prefix("x", "").as_deref(), Some("x"));
}

#[test]
fn only_the_first_is_replaced() {
    assert_eq!(replace_first("track:1:2", ':', "/"), "track/1:2");
    assert_eq!(replace_first("track", ':', "/"), "track");
    assert_eq!(replace_first("", ':', "/"), "");
    assert_eq!(replace_first("é:", ':', "//"), "é//");
}

#[test]
fn texts_are_compared_by_content() {
    assert!(same_text("rank", "rank"));
    assert!(!same_text("rank", "Rank"));
    assert!(!same_text("rank", "rank "));
}

use traffic_sim::text::{chars_of, contains, decimal_text, matches_at};
use traffic_sim::text::{same_text, starts_with, strip_prefix};

#[test]
fn prefix_and_substring() {
    assert!(starts_with("/data/player/saves/run/0.bin", "/data/player/saves/"));
    assert!(!starts_with("x/data/player/saves/run/0.bin", "/data/player/saves/"));
    assert!(starts_with("abc", ""));
    assert!(starts_with("abc", "abc"));
    assert!(!starts_with("abc", "abcd"));
    assert!(!starts_with("", "a"));
    assert!(starts_with("", ""));
    assert!(contains("data/system/us/seattle/maps/montlake.bin", "/maps/"));
    assert!(!contains("data/system/us/seattle/maps/montlake.bin", "/scenarios/"));
    assert!(contains("abc", ""));
    assert!(contains("", ""));
    assert!(!contains("", "a"));
    assert!(!contains("ab", "abc"));
    assert!(contains("xxabc", "abc"));
    assert!(contains("aab", "ab"));
    assert!(!contains("abab", "abb"));
}

#[test]
fn text_is_compared_by_character() {
    assert_eq!(chars_of("añ🚦"), vec!['a', 'ñ', '🚦']);
    assert!(starts_with("ñandú", "ñ"));
    assert!(contains("🚦 montlake", " mont"));
    assert!(!contains("ñ", "n"));
    let hay = chars_of("日本語");
    assert!(matches_at(&hay, &chars_of("本語"), 1));
    assert!(!matches_at(&hay, &chars_of("本語"), 0));
    assert!(!matches_at(&hay, &chars_of("本語"), 2));
    assert!(!matches_at(&hay, &chars_of("語"), 3));
    assert!(matches_at(&hay, &chars_of(""), 3));
    assert!(!matches_at(&hay, &chars_of(""), 4));
    assert!(!matches_at(&hay, &chars_of(""), usize::MAX));
}

#[test]
fn same_text_is_the_same_characters() {
    assert!(same_text("quit", "quit"));
    assert!(same_text("", ""));
    assert!(!same_text("quit", "quit "));
    assert!(!same_text("quit", "quiT"));
    assert!(!same_text("", "x"));
    assert!(!same_text("ab", "ba"));
}

#[test]
fn a_prefix_is_stripped_where_it_is_there() {
    assert_eq!(strip_prefix("open https://a.b/c", "open "), Some("https://a.b/c"));
    assert_eq!(strip_prefix("open ", "open "), Some(""));
    assert_eq!(strip_prefix("opening", "open "), None);
    assert_eq!(strip_prefix("", "open "), None);
    assert_eq!(strip_prefix("abc", ""), Some("abc"));
    assert_eq!(strip_prefix("ñandú", "ñ"), Some("andú"));
    assert_eq!(strip_prefix("🚦🚦x", "🚦"), Some("🚦x"));
}

#[test]
fn numbers_are_written_in_decimal() {
    assert_eq!(decimal_text(0), "0");
    assert_eq!(decimal_text(7), "7");
    assert_eq!(decimal_text(9), "9");
    assert_eq!(decimal_text(10), "10");
    assert_eq!(decimal_text(42), "42");
    assert_eq!(decimal_text(1234567890), "1234567890");
    assert_eq!(decimal_text(u64::MAX), "18446744073709551615");
    for n in 0..2000u64 {
        assert_eq!(decimal_text(n), n.to_string());
    }
}

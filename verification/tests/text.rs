use pocket_runtime::capture::lossy_tail;
use pocket_runtime::debug::{list_debug_text, optional_debug_text, optional_list_debug_text};
use pocket_runtime::duration::Duration;
use pocket_runtime::error::RuntimeError;
use pocket_runtime::numeral::{hex_number_text, pad_zeros, signed_decimal_text};
use pocket_runtime::order::is_bytes_before;
use pocket_runtime::path::{absolute, join_path, same_path};
use pocket_runtime::terminal::{require_terminals, usable_size, RestoreOnce};
use pocket_runtime::text::{
    chars_of, decimal_text, escaped_text, lines_of, parse_word, split_on, string_of,
};

fn owned(items: &[&str]) -> Vec<String> {
    items.iter().map(|item| (*item).to_owned()).collect()
}

#[test]
fn debug_texts_quote_and_escape() {
    assert_eq!(
        list_debug_text(&owned(&["plain", "qu\"ote", "tab\t"])),
        "[\"plain\", \"qu\\\"ote\", \"tab\\t\"]"
    );
    assert_eq!(optional_debug_text(&None), "None");
    assert_eq!(
        optional_debug_text(&Some("v1".to_owned())),
        "Some(\"v1\")"
    );
    assert_eq!(
        optional_list_debug_text(&vec![None, Some("v1".to_owned())]),
        "[None, Some(\"v1\")]"
    );
}

#[test]
fn binary_text_is_escaped_and_replaced() {
    assert_eq!(escaped_text("a\n\0\u{1b}"), "a\\n\\0\\u{1b}");
    assert_eq!(lossy_tail(b"abc\xff", 2), "c\u{fffd}");
    assert_eq!(lossy_tail(b"abc", 9), "abc");
}

#[test]
fn numbers_are_spelled_and_read() {
    assert_eq!(decimal_text(0), "0");
    assert_eq!(decimal_text(u64::MAX), "18446744073709551615");
    assert_eq!(signed_decimal_text(-7), "-7");
    assert_eq!(signed_decimal_text(i64::MIN), "-9223372036854775808");
    assert_eq!(hex_number_text(0x4f4f_4f4d), "0x4f4f4f4d");
    assert_eq!(pad_zeros("7", 3), "007");
    assert_eq!(parse_word(&chars_of("42")), Some(42));
    assert_eq!(parse_word(&chars_of("+42")), Some(42));
    assert_eq!(parse_word(&chars_of("-1")), None);
    assert_eq!(parse_word(&chars_of("")), None);
    assert_eq!(parse_word(&chars_of("18446744073709551616")), None);
}

#[test]
fn texts_are_split_like_lines_and_fields() {
    let lines: Vec<String> = lines_of(&chars_of("a\r\nb\n\nc"))
        .iter()
        .map(|line| string_of(line))
        .collect();
    assert_eq!(lines, owned(&["a", "b", "", "c"]));
    let fields: Vec<String> = split_on(&chars_of("a::b"), ':')
        .iter()
        .map(|field| string_of(field))
        .collect();
    assert_eq!(fields, owned(&["a", "", "b"]));
}

#[test]
fn paths_join_and_compare_by_component() {
    assert_eq!(join_path("/srv", "a/b"), "/srv/a/b");
    assert_eq!(join_path("/srv/", "a"), "/srv/a");
    assert!(same_path("/srv//a/./b", "/srv/a/b"));
    assert!(!same_path("/srv/a/b", "/srv/a"));
    assert!(absolute("/a"));
    assert!(!absolute("a"));
}

#[test]
fn texts_are_ordered_by_their_bytes() {
    for (left, right) in [("A", "a"), ("a", "aa"), ("aa", "\u{e9}")] {
        assert!(is_bytes_before(left.as_bytes(), right.as_bytes()));
        assert!(!is_bytes_before(right.as_bytes(), left.as_bytes()));
    }
    assert!(!is_bytes_before(b"a", b"a"));
}

#[test]
fn spans_are_exact() {
    assert_eq!(Duration::from_secs(2), Duration::from_millis(2000));
    assert_eq!(Duration::from_nanos(1_500_000).as_millis(), 1);
    assert_eq!(Duration::from_parts(1, 1_000_000_000), Duration::from_parts(2, 0));
    assert_eq!(
        Duration::from_secs(u64::MAX).checked_add(Duration::from_secs(1)),
        None
    );
    assert_eq!(
        Duration::from_secs(3).checked_mul(5),
        Some(Duration::from_secs(15))
    );
    assert!(Duration::from_secs(0).is_zero());
}

#[test]
fn terminals_get_a_usable_size_and_are_restored_once() {
    assert_eq!(usable_size(0, 0), (24, 80));
    assert_eq!(usable_size(50, 0), (50, 80));
    assert_eq!(usable_size(50, 132), (50, 132));
    assert!(require_terminals(true, true).is_ok());
    assert!(matches!(
        require_terminals(false, false),
        Err(RuntimeError::InvalidConfiguration { reason, .. }) if reason == "stdin is not a terminal"
    ));
    assert!(matches!(
        require_terminals(true, false),
        Err(RuntimeError::InvalidConfiguration { reason, .. }) if reason == "stdout is not a terminal"
    ));
    let mut once = RestoreOnce::new();
    assert!(once.take());
    assert!(!once.take());
}

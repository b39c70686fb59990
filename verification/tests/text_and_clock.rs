//! Text and time helpers.

use switchyard_route::clock::since;
use switchyard_route::text::{
    decimal, ends_with, is_blank, join, strip_end, strip_start, take_chars, text_eq, to_lower,
    trim, truncate,
};

#[test]
fn trimming_goes_by_unicode_white_space() {
    for text in ["", "  ", " a b ", "\u{3000}x\u{a0}", "\u{200b}y", "\t\n\u{b}z\u{85}\u{1c}"] {
        assert_eq!(trim(text), text.trim(), "{text:?}");
        assert_eq!(is_blank(text), text.trim().is_empty(), "{text:?}");
    }
}

#[test]
fn every_character_is_classified_as_std_does() {
    for code in 0..0x11_0000_u32 {
        if let Some(c) = char::from_u32(code) {
            let text = c.to_string();
            assert_eq!(is_blank(&text), c.is_whitespace(), "{code:x}");
        }
    }
}

#[test]
fn cuts_fall_between_characters() {
    assert_eq!(truncate("a\u{e9}\u{20ac}\u{1f600}", 10), "a\u{e9}\u{20ac}\u{1f600}");
    assert_eq!(truncate("a\u{e9}\u{20ac}\u{1f600}", 9), "a\u{e9}\u{20ac}");
    assert_eq!(truncate("a\u{e9}\u{20ac}", 5), "a\u{e9}");
    assert_eq!(truncate("a\u{e9}", 2), "a");
    assert_eq!(truncate("\u{e9}", 1), "");
    assert_eq!(truncate("abc", 0), "");
    assert_eq!(take_chars("a\u{e9}\u{20ac}", 2), "a\u{e9}");
    assert_eq!(take_chars("ab", 2), "ab");
}

#[test]
fn small_text_operations() {
    assert!(ends_with("/v1/messages", "/messages"));
    assert!(!ends_with("messages", "/messages"));
    assert!(ends_with("x", ""));
    assert_eq!(to_lower("ABC-\u{c9}z"), "abc-\u{c9}z", "ASCII letters only");
    assert_eq!(strip_start("[[::1]", '['), "::1]");
    assert_eq!(strip_end("::1]]", ']'), "::1");
    assert_eq!(join("a", "b"), "ab");
    assert!(text_eq("a", "a") && !text_eq("a", "b"));
    for number in [0, 7, 10, 99, 503, u64::MAX] {
        assert_eq!(decimal(number), number.to_string());
    }
}

#[test]
fn time_never_runs_backwards() {
    assert_eq!(since(3, 10), 7);
    assert_eq!(since(10, 3), 0);
}

use palmier_pro::text::{
    contains_text, decimal_text, digits_text, find_text, is_white_char, join, replace_first, same_text, starts_with_text,
    trim_text,
};

#[test]
fn decimal_texts() {
    assert_eq!(decimal_text(0), "0");
    assert_eq!(decimal_text(-42), "-42");
    assert_eq!(decimal_text(i64::MIN), "-9223372036854775808");
    assert_eq!(digits_text(u64::MAX), "18446744073709551615");
}

#[test]
fn searching_text() {
    assert_eq!(find_text("abcabc", "ca"), Some(2));
    assert_eq!(find_text("abc", "x"), None);
    assert_eq!(find_text("abc", ""), Some(0));
    assert!(contains_text("text/event-stream", "event"));
    assert!(starts_with_text("notifications/x", "notifications/"));
    assert!(!starts_with_text("notif", "notifications/"));
    assert!(same_text("a", "a") && !same_text("a", "b"));
    assert_eq!(join("a", "b"), "ab");
}

#[test]
fn replacing_the_first_occurrence() {
    assert_eq!(replace_first("ffmpeg-ffmpeg.exe", "ffmpeg", "ffprobe"), "ffprobe-ffmpeg.exe");
    assert_eq!(replace_first("tool.exe", "ffmpeg", "ffprobe"), "tool.exe");
}

#[test]
fn trimming_white_space() {
    assert_eq!(trim_text("  name \t\n"), "name");
    assert_eq!(trim_text("a b"), "a b");
    assert_eq!(trim_text(" \u{3000}\u{a0} "), "");
    assert_eq!(trim_text(""), "");
    assert_eq!(trim_text("\u{2003}é x\u{85}"), "é x");
    for s in ["  x  ", "\u{200a}y\u{2029}", "z", " \r\n"] {
        assert_eq!(trim_text(s), s.trim());
    }
    assert!(is_white_char('\u{202f}') && !is_white_char('\u{200b}') && !is_white_char('x'));
}

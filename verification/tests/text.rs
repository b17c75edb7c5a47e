use tanos::bytes::{u16_to_le, u32_from_be, u32_to_be, u64_to_le};
use tanos::clock::{millis_at, secs_at, unix_millis, unix_secs};
use tanos::text::{
    chars_of, contains, decimal, find, is_blank, is_whitespace, join, parse_u16, same, words,
};

fn strings(v: &[&str]) -> Vec<String> {
    v.iter().map(|s| s.to_string()).collect()
}

#[test]
fn white_space_is_that_of_unicode() {
    let mut n: u32 = 0;
    while n <= 0x10FFFF {
        if let Some(c) = char::from_u32(n) {
            assert_eq!(is_whitespace(c), c.is_whitespace(), "character {:x}", n);
        }
        n += 1;
    }
}

#[test]
fn words_are_split_as_by_std() {
    for s in ["", " ", "a", " a ", "send  x y\tz\n", "\u{3000}\u{e9}\u{2003}b", "peers"] {
        let expected: Vec<String> = s.trim().split_whitespace().map(str::to_string).collect();
        assert_eq!(words(s), expected);
        assert_eq!(is_blank(s), s.trim().is_empty());
        assert_eq!(is_blank(s), words(s).is_empty());
    }
}

#[test]
fn joining() {
    let parts = strings(&["send", "id", "hello", "there"]);
    assert_eq!(join(&parts, 2, " "), "hello there");
    assert_eq!(join(&parts, 4, " "), "");
    assert_eq!(join(&parts, 0, ", "), "send, id, hello, there");
}

#[test]
fn decimal_text() {
    assert_eq!(decimal(0), "0");
    assert_eq!(decimal(65536), "65536");
    assert_eq!(decimal(u64::MAX), "18446744073709551615");
}

#[test]
fn ports_are_parsed_as_by_std() {
    for s in ["7700", "0", "65535", "65536", "", "+", "+80", "-1", " 80", "8o", "00080", "++1"] {
        assert_eq!(parse_u16(s), s.parse::<u16>().ok(), "text {}", s);
    }
}

#[test]
fn searching() {
    assert_eq!(find("head\r\n\r\nbody", "\r\n\r\n"), Some(4));
    assert_eq!(find("\u{e9}\u{e9}ab", "ab"), Some(2));
    assert_eq!(find("aab", "ab"), Some(1));
    assert_eq!(find("ab", "abc"), None);
    assert_eq!(find("ab", ""), Some(0));
    assert!(contains("/data/com.termux/x", "com.termux"));
    assert!(!contains("/home/x", "com.termux"));
    assert_eq!(chars_of("h\u{e9}"), vec!['h', '\u{e9}']);
    assert!(same("a", "a"));
    assert!(!same("a", "b"));
}

#[test]
fn integers_as_bytes() {
    assert_eq!(u16_to_le(0x0102), [2u8, 1]);
    assert_eq!(u64_to_le(0x0102030405060708), 0x0102030405060708u64.to_le_bytes());
    assert_eq!(u32_to_be(0x01020304), [1u8, 2, 3, 4]);
    assert_eq!(u32_from_be(&[1u8, 2, 3, 4]), 0x01020304);
    assert_eq!(u32_from_be(&u32_to_be(u32::MAX)), u32::MAX);
}

#[test]
fn dates_from_the_clock() {
    let shown = std::time::Duration::new(1_700_000_000, 123_999_999);
    assert_eq!(millis_at(Some(shown.as_nanos())), shown.as_millis() as u64);
    assert_eq!(millis_at(Some(shown.as_nanos())), 1_700_000_000_123);
    assert_eq!(secs_at(Some(shown.as_nanos())), 1_700_000_000);
    for far in [std::time::Duration::MAX, std::time::Duration::new(1u64 << 63, 7)] {
        assert_eq!(millis_at(Some(far.as_nanos())), far.as_millis() as u64);
        assert_eq!(secs_at(Some(far.as_nanos())), far.as_secs() as i64);
    }
    assert_eq!(millis_at(None), 0);
    assert_eq!(secs_at(None), 0);
}

#[test]
fn clock_shows_the_time() {
    let now = std::time::SystemTime::now()
        .duration_since(std::time::UNIX_EPOCH)
        .expect("after the epoch");
    let millis: u64 = unix_millis();
    let secs: i64 = unix_secs();
    assert!(millis >= now.as_millis() as u64);
    assert!(millis < now.as_millis() as u64 + 60_000);
    assert!(secs >= now.as_secs() as i64);
    assert!(secs < now.as_secs() as i64 + 60);
}

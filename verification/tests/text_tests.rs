use pocketdevos::text::{
    chars_of, contains_chars, decimal_string, decimal_string_signed, join_prefix, lossy_utf8,
    parse_u16_str, split_chars, starts_with, str_eq, take_chars_string, trim_string,
};

#[test]
fn decimal_formats_numbers() {
    assert_eq!(decimal_string(0), "0");
    assert_eq!(decimal_string(7), "7");
    assert_eq!(decimal_string(10), "10");
    assert_eq!(decimal_string(30000), "30000");
    assert_eq!(decimal_string(u64::MAX), u64::MAX.to_string());
}

#[test]
fn signed_decimal_formats_negatives() {
    assert_eq!(decimal_string_signed(-1), "-1");
    assert_eq!(decimal_string_signed(0), "0");
    assert_eq!(decimal_string_signed(42), "42");
    assert_eq!(decimal_string_signed(i64::MIN), i64::MIN.to_string());
}

#[test]
fn parse_u16_follows_from_str() {
    for s in ["0", "80", "+80", "007", "65535", "65536", "", "+", "-1", "8a", " 80", "99999999999"] {
        assert_eq!(parse_u16_str(s), s.parse::<u16>().ok(), "input {:?}", s);
    }
}

#[test]
fn trim_removes_unicode_whitespace() {
    assert_eq!(trim_string("  ls -la \n"), "ls -la");
    assert_eq!(trim_string("\u{3000}\u{a0}x\u{2029}"), "x");
    assert_eq!(trim_string(" \t\r\n"), "");
    assert_eq!(trim_string("a b"), "a b");
}

#[test]
fn split_and_join_like_std() {
    let pieces = split_chars("a\nb\n\nc", '\n');
    assert_eq!(pieces, vec!["a", "b", "", "c"]);
    assert_eq!(split_chars("", '\n'), vec![""]);
    assert_eq!(split_chars("x\n", '\n'), vec!["x", ""]);
    assert_eq!(join_prefix(&pieces, 4, "\n"), "a\nb\n\nc");
    assert_eq!(join_prefix(&pieces, 2, "\n"), "a\nb");
    assert_eq!(join_prefix(&pieces, 0, "\n"), "");
}

#[test]
fn substring_search() {
    let s = chars_of("/home/u/.ssh/id");
    assert!(contains_chars(&s, &chars_of(".ssh")));
    assert!(!contains_chars(&s, &chars_of(".gnupg")));
    assert!(contains_chars(&s, &chars_of("")));
    assert!(starts_with("Bearer abc", "Bearer "));
    assert!(!starts_with("Bear", "Bearer "));
    assert!(str_eq("tok", "tok"));
    assert!(!str_eq("tok", "tok2"));
}

#[test]
fn lossy_decoding_replaces_invalid_bytes() {
    assert_eq!(lossy_utf8(b"ok"), "ok");
    assert_eq!(lossy_utf8(&[0x66, 0xff, 0x6f]), "f\u{fffd}o");
    assert_eq!(lossy_utf8("h\u{e9}".as_bytes()), "h\u{e9}");
}

#[test]
fn take_chars_counts_characters() {
    assert_eq!(take_chars_string("h\u{e9}llo", 2), "h\u{e9}");
    assert_eq!(take_chars_string("abc", 10), "abc");
}

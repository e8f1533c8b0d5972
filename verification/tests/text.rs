use ngx_http_altcha_module::text::{display_bytes, is_hex_text, is_word, parse_unsigned};

#[test]
fn valid_utf8_is_displayed_as_it_is() {
    assert_eq!(display_bytes(b""), "");
    assert_eq!(display_bytes(b"s3cret \\x41"), "s3cret \\x41");
    assert_eq!(display_bytes("h\u{e9}llo \u{20ac} \u{1f511}".as_bytes()), "h\u{e9}llo \u{20ac} \u{1f511}");
}

#[test]
fn bytes_of_no_character_are_escaped() {
    assert_eq!(display_bytes(b"a\xffb"), "a\\xffb");
    assert_eq!(display_bytes(b"\xc3\xa9\xc3"), "\u{e9}\\xc3");
    assert_eq!(display_bytes(b"\xe2\x82"), "\\xe2\\x82");
    assert_eq!(display_bytes(b"\xf0\x9f\x94z"), "\\xf0\\x9f\\x94z");
    assert_eq!(display_bytes(b"\xed\xa0\x80"), "\\xed\\xa0\\x80");
    assert_eq!(display_bytes(b"\xc0\x0a"), "\\xc0\n");
}

#[test]
fn decimal_numbers_are_read() {
    assert_eq!(parse_unsigned("0"), Some(0));
    assert_eq!(parse_unsigned("42"), Some(42));
    assert_eq!(parse_unsigned("+7"), Some(7));
    assert_eq!(parse_unsigned("000100000"), Some(100000));
    assert_eq!(parse_unsigned("18446744073709551615"), Some(u64::MAX));
}

#[test]
fn other_texts_are_no_numbers() {
    for s in ["", "+", "-1", "++1", " 1", "1 ", "0x10", "1e3", "1_000", "\u{663}", "18446744073709551616"] {
        assert_eq!(parse_unsigned(s), None, "{}", s);
    }
}

#[test]
fn words_are_matched_without_case() {
    assert!(is_word("sha256", "sha256"));
    assert!(is_word("ShA-512", "sha-512"));
    assert!(!is_word("sha256 ", "sha256"));
    assert!(!is_word("sha-256", "sha256"));
    assert!(!is_word("\u{17f}ha256", "sha256"));
    assert!(!is_word("", "sha256"));
}

#[test]
fn hex_is_made_of_hex_digits() {
    assert!(is_hex_text("0"));
    assert!(is_hex_text("0123456789abcdefABCDEF"));
    assert!(!is_hex_text(""));
    assert!(!is_hex_text("0g"));
    assert!(!is_hex_text("0x00"));
    assert!(!is_hex_text("00\u{ff10}"));
}

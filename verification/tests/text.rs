use collie_waker::text::{parse_unsigned_decimal, trimmed, u64_to_decimal};

#[test]
fn trims_unicode_white_space_at_both_ends() {
    assert_eq!(trimmed("  a b \t\n"), "a b");
    assert_eq!(trimmed("\u{3000}\u{a0}x\u{2028}"), "x");
    assert_eq!(trimmed(" \u{200b}x"), "\u{200b}x");
    assert_eq!(trimmed("   "), "");
    assert_eq!(trimmed(""), "");
    for s in ["\u{85}é ", "\u{1680}\u{205f}q\u{202f}", "\u{b}v\u{c}"] {
        assert_eq!(trimmed(s), s.trim());
    }
}

#[test]
fn parses_like_str_parse_for_unsigned_integers() {
    assert_eq!(parse_unsigned_decimal("0", 65535), Some(0));
    assert_eq!(parse_unsigned_decimal("+8080", 65535), Some(8080));
    assert_eq!(parse_unsigned_decimal("0065535", 65535), Some(65535));
    assert_eq!(parse_unsigned_decimal("65536", 65535), None);
    assert_eq!(parse_unsigned_decimal("", 65535), None);
    assert_eq!(parse_unsigned_decimal("+", 65535), None);
    assert_eq!(parse_unsigned_decimal("-0", 65535), None);
    assert_eq!(parse_unsigned_decimal("1_0", 65535), None);
    assert_eq!(parse_unsigned_decimal("٣", 65535), None);
    assert_eq!(
        parse_unsigned_decimal("18446744073709551615", u64::MAX),
        Some(u64::MAX)
    );
    assert_eq!(parse_unsigned_decimal("18446744073709551616", u64::MAX), None);
    for s in ["12", "+7", "99999", "x1", "1x", "00"] {
        assert_eq!(parse_unsigned_decimal(s, 65535), s.parse::<u16>().ok().map(u64::from));
    }
}

#[test]
fn renders_decimal() {
    assert_eq!(u64_to_decimal(0), "0");
    assert_eq!(u64_to_decimal(2222), "2222");
    assert_eq!(u64_to_decimal(u64::MAX), "18446744073709551615");
}

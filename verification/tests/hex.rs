use zidian::hex::{hanzi_from_unicode, parse_hex_u32, unicode_hex};

#[test]
fn unicode_hex_is_upper_case_without_leading_zeros() {
    assert_eq!(unicode_hex('中'), "4E2D");
    assert_eq!(unicode_hex('a'), "61");
    assert_eq!(unicode_hex('\0'), "0");
    assert_eq!(unicode_hex('\u{F}'), "F");
    assert_eq!(unicode_hex('\u{10}'), "10");
    assert_eq!(unicode_hex('\u{10FFFF}'), "10FFFF");
    assert_eq!(unicode_hex('𠀀'), "20000");
}

#[test]
fn unicode_hex_matches_std_formatting() {
    for c in ['好', 'ü', '。', 'Z', '\u{2003}', '😀'] {
        assert_eq!(unicode_hex(c), format!("{:X}", c as u32));
    }
}

#[test]
fn parse_hex_accepts_what_from_str_radix_accepts() {
    assert_eq!(parse_hex_u32("4E2D"), Some(0x4E2D));
    assert_eq!(parse_hex_u32("4e2d"), Some(0x4E2D));
    assert_eq!(parse_hex_u32("+ff"), Some(255));
    assert_eq!(parse_hex_u32("0"), Some(0));
    assert_eq!(parse_hex_u32("FFFFFFFF"), Some(u32::MAX));
    assert_eq!(parse_hex_u32("000000000001"), Some(1));
}

#[test]
fn parse_hex_rejects_what_from_str_radix_rejects() {
    assert_eq!(parse_hex_u32(""), None);
    assert_eq!(parse_hex_u32("+"), None);
    assert_eq!(parse_hex_u32("-1"), None);
    assert_eq!(parse_hex_u32("100000000"), None);
    assert_eq!(parse_hex_u32("4G"), None);
    assert_eq!(parse_hex_u32(" 4E"), None);
    assert_eq!(parse_hex_u32("FFFFFFFFF0Z"), None);
}

#[test]
fn parse_hex_agrees_with_std_on_samples() {
    for s in ["", "+", "-", "0", "+0", "abc", "ABC", "fFfF", "12345678", "123456789", "x1", "1x", "++1"] {
        assert_eq!(parse_hex_u32(s), u32::from_str_radix(s, 16).ok(), "{}", s);
    }
}

#[test]
fn hanzi_from_unicode_decodes_characters() {
    assert_eq!(hanzi_from_unicode("4E2D"), Some('中'));
    assert_eq!(hanzi_from_unicode("597D"), Some('好'));
    assert_eq!(hanzi_from_unicode("61"), Some('a'));
}

#[test]
fn hanzi_from_unicode_rejects_non_characters() {
    assert_eq!(hanzi_from_unicode("D800"), None);
    assert_eq!(hanzi_from_unicode("DFFF"), None);
    assert_eq!(hanzi_from_unicode("110000"), None);
    assert_eq!(hanzi_from_unicode("zz"), None);
    assert_eq!(hanzi_from_unicode(""), None);
}

#[test]
fn unicode_hex_roundtrip_on_samples() {
    for c in ['中', '\0', 'a', '\u{D7FF}', '\u{E000}', '\u{10FFFF}', '龍'] {
        assert_eq!(hanzi_from_unicode(&unicode_hex(c)), Some(c));
    }
}

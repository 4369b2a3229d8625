use photo_server::numbers::{chars_of, parse_u32, push_decimal};

#[test]
fn parse_u32_reads_decimal_numbers() {
    assert_eq!(parse_u32("0"), Some(0));
    assert_eq!(parse_u32("800"), Some(800));
    assert_eq!(parse_u32("007"), Some(7));
    assert_eq!(parse_u32("+12"), Some(12));
    assert_eq!(parse_u32("4294967295"), Some(u32::MAX));
    assert_eq!(parse_u32("0000000000000000000001"), Some(1));
}

#[test]
fn parse_u32_ignores_white_space_around() {
    assert_eq!(parse_u32(" 42"), Some(42));
    assert_eq!(parse_u32("42 "), Some(42));
    assert_eq!(parse_u32("\t\n 42 \r\n"), Some(42));
    assert_eq!(parse_u32("\u{a0}42\u{3000}"), Some(42));
    assert_eq!(parse_u32(" +7 "), Some(7));
}

#[test]
fn parse_u32_maps_errors_to_none() {
    assert_eq!(parse_u32(""), None);
    assert_eq!(parse_u32("   "), None);
    assert_eq!(parse_u32("+"), None);
    assert_eq!(parse_u32("-1"), None);
    assert_eq!(parse_u32("-0"), None);
    assert_eq!(parse_u32("++1"), None);
    assert_eq!(parse_u32("+ 1"), None);
    assert_eq!(parse_u32("4 2"), None);
    assert_eq!(parse_u32("12px"), None);
    assert_eq!(parse_u32("0x10"), None);
    assert_eq!(parse_u32("1.5"), None);
    assert_eq!(parse_u32("4294967296"), None);
    assert_eq!(parse_u32("99999999999999999999999999"), None);
    assert_eq!(parse_u32("\u{661}"), None);
}

#[test]
fn parse_u32_agrees_with_std() {
    for text in ["1", " 1", "1 ", "+1", "+", "", "-", "01", "1_000", "４２", " \u{2003}9\u{2003} ", "\u{200b}9"] {
        assert_eq!(parse_u32(text), text.trim().parse::<u32>().ok(), "{:?}", text);
    }
}

#[test]
fn push_decimal_writes_at_the_end() {
    let mut out = String::from("w=");
    push_decimal(&mut out, 2048);
    assert_eq!(out, "w=2048");
    push_decimal(&mut out, 0);
    assert_eq!(out, "w=20480");
}

#[test]
fn push_decimal_agrees_with_std() {
    for n in [0u32, 1, 9, 10, 11, 99, 100, 101, 600, 800, 2048, 65535, 1_000_000, u32::MAX] {
        let mut out = String::new();
        push_decimal(&mut out, n);
        assert_eq!(out, n.to_string());
    }
}

#[test]
fn decimal_round_trip() {
    for n in [0u32, 7, 10, 96, 128, 2048, 123456789, u32::MAX] {
        let mut out = String::new();
        push_decimal(&mut out, n);
        assert_eq!(parse_u32(&out), Some(n));
    }
}

#[test]
fn chars_of_lists_the_characters() {
    assert_eq!(chars_of("a\u{e9}z"), vec!['a', '\u{e9}', 'z']);
    assert_eq!(chars_of(""), Vec::<char>::new());
}

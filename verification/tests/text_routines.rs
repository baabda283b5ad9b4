use s2_tracts::text::{decimal_string, parse_decimal, str_eq, NumberError};

#[test]
fn decimal_formatting() {
    assert_eq!(decimal_string(0), "0");
    assert_eq!(decimal_string(7), "7");
    assert_eq!(decimal_string(2010), "2010");
    assert_eq!(decimal_string(u64::MAX), "18446744073709551615");
}

#[test]
fn unsigned_parsing_matches_std() {
    let cases = ["", "+", "-", "+5", "-5", "65535", "65536", "99999x", "12a", "007", " 1", "1 ", "٣"];
    for s in cases {
        let ours = parse_decimal(s, u16::MAX as u64);
        let std = s.parse::<u16>();
        match (ours, std) {
            (Ok(a), Ok(b)) => assert_eq!(a, b as u64, "{s:?}"),
            (Err(e), Err(f)) => assert_eq!(e.message(), f.to_string(), "{s:?}"),
            (a, b) => panic!("{s:?}: {a:?} vs {b:?}"),
        }
    }
    assert_eq!(parse_decimal("99999x", 65535), Err(NumberError::TooLarge));
    assert_eq!(parse_decimal("18446744073709551615", u64::MAX), Ok(u64::MAX));
}

#[test]
fn string_equality() {
    assert!(str_eq("GEOID", "GEOID"));
    assert!(!str_eq("GEOID", "GEOID10"));
}

#[test]
fn identifiers_roundtrip_through_decimal() {
    for n in [0u64, 9, 10, 9936721416563002943, u64::MAX] {
        assert_eq!(parse_decimal(&decimal_string(n), u64::MAX), Ok(n));
    }
}

use s2_tracts::text::{first_word, white_space};

#[test]
fn white_space_is_unicode_white_space() {
    for c in (0u32..=0x10FFFF).filter_map(char::from_u32) {
        assert_eq!(white_space(c), c.is_whitespace(), "{:#x}", c as u32);
    }
}

#[test]
fn first_word_matches_split_whitespace() {
    for s in [
        "", "   ", "abc", "  abc def", "e3b0c442  /tmp/file\n", "\u{3000}x\u{85}y", "a\u{a0}",
    ] {
        assert_eq!(
            first_word(s),
            s.split_whitespace().next().map(str::to_owned),
            "{s:?}"
        );
    }
}

use s2_tracts::text::trim_white_space;

#[test]
fn trimming_matches_str_trim() {
    for s in ["", " ", "a", "  a b  ", "\u{3000}x\u{85}", "\t\n\r1\u{a0}", "\u{200b}x\u{200b}"] {
        assert_eq!(trim_white_space(s), s.trim(), "{s:?}");
    }
}

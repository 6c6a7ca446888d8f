use minimal_logger::native::to_wide_null;
use minimal_logger::text::{
    chars_of, decimal_text, find_from, parse_decimal, range_of, starts_with, string_of, trimmed,
    white_space,
};

#[test]
fn white_space_is_that_of_unicode() {
    for code in 0..=0x10FFFFu32 {
        if let Some(c) = char::from_u32(code) {
            assert_eq!(white_space(c), c.is_whitespace(), "{code:x}");
        }
    }
}

#[test]
fn trimming_takes_both_ends() {
    for text in ["", " ", "a", " a", "a ", "\t a b\u{2003}\n", "\u{3000}\u{a0}", "ä \u{85}"] {
        assert_eq!(string_of(&trimmed(&chars_of(text))), text.trim());
    }
}

#[test]
fn decimals_are_read() {
    let texts = [
        "", "0", "7", "007", "+7", "-7", "+", "++7", "7 ", " 7", "1e3", "18446744073709551615",
        "18446744073709551616", "99999999999999999999", "000000000000000000000000012", "٣",
    ];
    for text in texts {
        assert_eq!(parse_decimal(&chars_of(text), u64::MAX), text.parse::<u64>().ok(), "{text}");
        assert_eq!(
            parse_decimal(&chars_of(text), u64::from(u32::MAX)),
            text.parse::<u32>().ok().map(u64::from),
            "{text}"
        );
    }
    assert_eq!(parse_decimal(&chars_of("255"), 255), Some(255));
    assert_eq!(parse_decimal(&chars_of("256"), 255), None);
    assert_eq!(parse_decimal(&chars_of("0"), 0), Some(0));
    assert_eq!(parse_decimal(&chars_of("1"), 0), None);
}

#[test]
fn decimals_are_written() {
    for n in [0, 1, 9, 10, 11, 99, 100, 1_234_567_890, u32::MAX] {
        assert_eq!(decimal_text(n), n.to_string());
        assert_eq!(parse_decimal(&chars_of(&decimal_text(n)), u64::MAX), Some(u64::from(n)));
    }
}

#[test]
fn prefixes_are_found() {
    for (text, prefix) in [("", ""), ("a", ""), ("", "a"), ("ab", "a"), ("ab", "b"), ("äb", "ä"), ("a", "ab")] {
        assert_eq!(starts_with(text, prefix), text.starts_with(prefix));
    }
}

#[test]
fn characters_are_found_and_cut_out() {
    let chars = chars_of("a:b:c");
    assert_eq!(find_from(&chars, 0, ':'), 1);
    assert_eq!(find_from(&chars, 2, ':'), 3);
    assert_eq!(find_from(&chars, 4, ':'), 5);
    assert_eq!(find_from(&chars, 5, ':'), 5);
    assert_eq!(string_of(&range_of(&chars, 1, 4)), ":b:");
    assert_eq!(string_of(&range_of(&chars, 2, 2)), "");
}

#[test]
fn wide_text_is_utf16_with_a_zero() {
    for text in ["", "Local\\RustLogger_LogRotate", "ä€\u{ffff}", "\u{10000}x\u{10ffff}😀"] {
        let mut expected: Vec<u16> = text.encode_utf16().collect();
        expected.push(0);
        assert_eq!(to_wide_null(text), expected);
    }
    assert_eq!(to_wide_null("a😀"), [0x61, 0xD83D, 0xDE00, 0]);
}

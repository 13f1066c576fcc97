use tix::text::{
    characters, comes_before, contains_char, decimal_text, join, lower, number, parse_unsigned,
    push_numeral, push_two_digits, same_text, split, starts_with, strip_prefix, trim, upper,
    white_space, words,
};

#[test]
fn white_space_is_what_std_takes_for_it() {
    for code in 0..=0x10ffff {
        if let Some(ch) = char::from_u32(code) {
            assert_eq!(white_space(ch), ch.is_whitespace());
        }
    }
}

#[test]
fn texts_are_handled_as_std_does() {
    let samples = ["", " ", "a", " a ", "a b", "\u{a0}x\u{3000}", "ÄbC", "a,b,,c,", "Zz\u{1f600}"];
    for text in samples {
        assert_eq!(characters(text), text.chars().collect::<Vec<char>>());
        assert_eq!(trim(text), text.trim());
        assert_eq!(lower(text), text.to_ascii_lowercase());
        assert_eq!(upper(text), text.to_ascii_uppercase());
        assert_eq!(words(text), text.split_whitespace().collect::<Vec<&str>>());
        assert_eq!(split(text, ','), text.split(',').collect::<Vec<&str>>());
        assert_eq!(contains_char(text, 'b'), text.contains('b'));
        assert_eq!(join(&split(text, ','), "; "), text.split(',').collect::<Vec<&str>>().join("; "));
        for other in samples {
            assert_eq!(same_text(text, other), text == other);
            assert_eq!(comes_before(text, other), text < other);
            assert_eq!(starts_with(text, other), text.starts_with(other));
            assert_eq!(strip_prefix(text, other), text.strip_prefix(other));
        }
    }
}

#[test]
fn numbers_are_read_as_std_does() {
    let samples = [
        "", "0", "00", "7", "+7", "++7", "-0", " 7", "7 ", "1_0", "255", "256", "+", "٣",
        "4294967295", "4294967296", "18446744073709551615", "18446744073709551616",
        "000000000000000000000000000001",
    ];
    for text in samples {
        assert_eq!(parse_unsigned(text, u64::MAX), text.parse::<u64>().ok());
        assert_eq!(parse_unsigned(text, u32::MAX as u64), text.parse::<u32>().ok().map(u64::from));
        assert_eq!(parse_unsigned(text, 255), text.parse::<u8>().ok().map(u64::from));
        assert_eq!(number(text), !text.is_empty() && text.bytes().all(|b| b.is_ascii_digit()));
    }
}

#[test]
fn numerals_are_written_as_std_does() {
    for value in [0u64, 1, 9, 10, 15, 16, 99, 100, 255, 256, u64::MAX] {
        assert_eq!(decimal_text(value), value.to_string());
        assert_eq!(parse_unsigned(&decimal_text(value), u64::MAX), Some(value));
        let mut out = "x".to_string();
        push_two_digits(&mut out, value);
        assert_eq!(out, format!("x{value:02}"));
        let mut out = String::new();
        push_numeral(&mut out, value as u128, 16);
        assert_eq!(out, format!("{value:x}"));
    }
}

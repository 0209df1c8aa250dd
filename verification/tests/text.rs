use math_lib::text::{chars_of, digit, numeric, space};

#[test]
fn space_is_unicode_white_space() {
    for code in 0..=0x10FFFF_u32 {
        if let Some(c) = char::from_u32(code) {
            assert_eq!(c.is_whitespace(), space(c), "U+{:04X}", code);
        }
    }
}

#[test]
fn digit_is_ascii_digit() {
    for code in 0..=0x10FFFF_u32 {
        if let Some(c) = char::from_u32(code) {
            assert_eq!(c.is_ascii_digit(), digit(c), "U+{:04X}", code);
            assert_eq!(c.is_ascii_digit() || c == '.' || c == ',', numeric(c), "U+{:04X}", code);
        }
    }
}

#[test]
fn chars_of_keeps_every_character() {
    assert_eq!(vec!['2', '√', '(', 'π', ')'], chars_of("2√(π)"));
    assert_eq!(Vec::<char>::new(), chars_of(""));
}

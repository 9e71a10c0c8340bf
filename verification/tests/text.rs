use tape_dialects::text::{byte_tokens, char_tokens, is_whitespace, strip_whitespace};

#[test]
fn whitespace_is_the_unicode_property() {
    for code in 0..=0x10_FFFFu32 {
        if let Some(c) = char::from_u32(code) {
            assert_eq!(is_whitespace(c), c.is_whitespace(), "U+{:04X}", code);
        }
    }
}

#[test]
fn common_blanks_are_whitespace() {
    for c in [' ', '\t', '\n', '\r', '\u{b}', '\u{c}', '\u{85}', '\u{a0}', '\u{2028}', '\u{3000}'] {
        assert!(is_whitespace(c));
    }
    for c in ['a', '0', '_', '\u{0}', '\u{200b}', '\u{feff}', '\u{180e}'] {
        assert!(!is_whitespace(c));
    }
}

#[test]
fn stripping_keeps_the_other_characters_in_order() {
    assert_eq!(strip_whitespace(""), "");
    assert_eq!(strip_whitespace(" \t\r\n"), "");
    assert_eq!(strip_whitespace("AAGH"), "AAGH");
    assert_eq!(strip_whitespace(" A A\tG\n\nH "), "AAGH");
    assert_eq!(strip_whitespace("a\u{a0}b\u{2003}c\u{3000}\u{e9}"), "abc\u{e9}");
    assert_eq!(strip_whitespace("x\u{200b}y"), "x\u{200b}y");
}

#[test]
fn a_character_is_one_symbol() {
    assert_eq!(char_tokens(""), Vec::<u32>::new());
    assert_eq!(char_tokens("*{}"), vec![42, 123, 125]);
    assert_eq!(char_tokens("a\u{e9}\u{4e16}\u{1f600}"), vec![97, 0xe9, 0x4e16, 0x1f600]);
}

#[test]
fn a_byte_is_one_symbol() {
    assert_eq!(byte_tokens(&[]), Vec::<u32>::new());
    assert_eq!(byte_tokens(b"agh"), vec![97, 103, 104]);
    assert_eq!(byte_tokens(&[0, 127, 128, 255]), vec![0, 127, 128, 255]);
}

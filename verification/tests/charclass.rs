use rfx::compile::charclass::{
    alphanumeric, ascii_alphabetic, ascii_digit, broken_stop, whitespace, word_char,
};

#[test]
fn whitespace_is_that_of_unicode() {
    for code in 0u32..=0x10ffff {
        if let Some(c) = char::from_u32(code) {
            assert_eq!(whitespace(c), c.is_whitespace(), "U+{:04X}", code);
        }
    }
}

#[test]
fn ascii_classes_are_those_of_std() {
    for code in 0u32..=0x10ffff {
        if let Some(c) = char::from_u32(code) {
            assert_eq!(ascii_digit(c), c.is_ascii_digit());
            assert_eq!(ascii_alphabetic(c), c.is_ascii_alphabetic());
            assert_eq!(word_char(c), c.is_ascii_alphanumeric() || c == '_');
        }
    }
}

#[test]
fn punctuation_run_stops_at_letters_digits_space_and_underscore() {
    assert!(broken_stop('a'));
    assert!(broken_stop('7'));
    assert!(broken_stop('_'));
    assert!(broken_stop(' '));
    assert!(broken_stop('\n'));
    assert!(broken_stop('\u{e9}'));
    assert!(broken_stop('\u{4e2d}'));
    assert!(!broken_stop('#'));
    assert!(!broken_stop('@'));
    assert!(!broken_stop('+'));
}

#[test]
fn alphanumeric_is_that_of_unicode_and_of_ascii() {
    for code in 0u32..=0x10ffff {
        if let Some(c) = char::from_u32(code) {
            assert_eq!(alphanumeric(c), c.is_alphanumeric(), "U+{:04X}", code);
            if code < 0x80 {
                assert_eq!(alphanumeric(c), c.is_ascii_alphanumeric(), "U+{:04X}", code);
            }
        }
    }
}

//! Character classes that the tokenizer tells apart.

use vstd::prelude::*;

verus! {

/// Whitespace: the characters with the Unicode property `White_Space`, which
/// are those that `char::is_whitespace` accepts.
pub open spec fn is_whitespace(c: char) -> bool {
    ||| '\u{9}' <= c <= '\u{d}'
    ||| c == ' '
    ||| c == '\u{85}'
    ||| c == '\u{a0}'
    ||| c == '\u{1680}'
    ||| '\u{2000}' <= c <= '\u{200a}'
    ||| c == '\u{2028}'
    ||| c == '\u{2029}'
    ||| c == '\u{202f}'
    ||| c == '\u{205f}'
    ||| c == '\u{3000}'
}

/// An ASCII decimal digit.
pub open spec fn is_ascii_digit(c: char) -> bool {
    '0' <= c <= '9'
}

/// An ASCII letter of either case.
pub open spec fn is_ascii_alphabetic(c: char) -> bool {
    'a' <= c <= 'z' || 'A' <= c <= 'Z'
}

/// An ASCII letter or digit.
pub open spec fn is_ascii_alphanumeric(c: char) -> bool {
    is_ascii_alphabetic(c) || is_ascii_digit(c)
}

/// A character of a word: an ASCII letter, an ASCII digit or an underscore.
pub open spec fn is_word_char(c: char) -> bool {
    is_ascii_alphanumeric(c) || c == '_'
}

/// Whether a character that is not ASCII is alphanumeric in the sense of
/// Unicode: what `char::is_alphanumeric` answers for it.
pub uninterp spec fn unicode_alphanumeric(c: char) -> bool;

/// An alphanumeric character: an ASCII letter or digit, or a character
/// beyond ASCII that Unicode counts as a letter or a number.
pub open spec fn is_alphanumeric(c: char) -> bool {
    if '\u{80}' > c {
        is_ascii_alphanumeric(c)
    } else {
        unicode_alphanumeric(c)
    }
}

/// A character that ends a run of unrecognized punctuation.
pub open spec fn is_broken_stop(c: char) -> bool {
    is_alphanumeric(c) || is_whitespace(c) || c == '_'
}

/// `char::is_alphanumeric` of std answers whether the character is
/// alphabetic or numeric. Its answer depends on the character alone and is
/// named `unicode_alphanumeric`; of the ASCII characters it accepts the
/// letters and the digits and no other.
pub assume_specification[ char::is_alphanumeric ](c: char) -> (b: bool)
    ensures
        b == unicode_alphanumeric(c),
        '\u{80}' > c ==> b == is_ascii_alphanumeric(c),
;

/// Whether `c` is alphanumeric.
pub fn alphanumeric(c: char) -> (b: bool)
    ensures
        b == is_alphanumeric(c),
{
    c.is_alphanumeric()
}

/// Whether `c` is whitespace.
pub fn whitespace(c: char) -> (b: bool)
    ensures
        b == is_whitespace(c),
{
    ('\u{9}' <= c && c <= '\u{d}') || c == ' ' || c == '\u{85}' || c == '\u{a0}' || c == '\u{1680}'
        || ('\u{2000}' <= c && c <= '\u{200a}') || c == '\u{2028}' || c == '\u{2029}' || c
        == '\u{202f}' || c == '\u{205f}' || c == '\u{3000}'
}

/// Whether `c` is an ASCII decimal digit.
pub fn ascii_digit(c: char) -> (b: bool)
    ensures
        b == is_ascii_digit(c),
{
    '0' <= c && c <= '9'
}

/// Whether `c` is an ASCII letter.
pub fn ascii_alphabetic(c: char) -> (b: bool)
    ensures
        b == is_ascii_alphabetic(c),
{
    ('a' <= c && c <= 'z') || ('A' <= c && c <= 'Z')
}

/// Whether `c` is a character of a word.
pub fn word_char(c: char) -> (b: bool)
    ensures
        b == is_word_char(c),
{
    ascii_alphabetic(c) || ascii_digit(c) || c == '_'
}

/// Whether `c` ends a run of unrecognized punctuation.
pub fn broken_stop(c: char) -> (b: bool)
    ensures
        b == is_broken_stop(c),
{
    alphanumeric(c) || whitespace(c) || c == '_'
}

} // verus!

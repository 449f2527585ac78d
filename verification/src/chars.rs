//! Characters as the scanner sees them: a character together with the
//! Unicode properties that decide how it is scanned, and the small ASCII
//! tables (digits, escape codes) that the grammar is built from.

use vstd::prelude::*;

verus! {

/// Whether `c` has the Unicode `White_Space` property, as
/// `char::is_whitespace` reports it.
pub uninterp spec fn char_is_whitespace(c: char) -> bool;

/// Whether `c` has the Unicode `Alphabetic` property, as
/// `char::is_alphabetic` reports it.
pub uninterp spec fn char_is_alphabetic(c: char) -> bool;

/// Whether `c` is alphabetic or numeric in Unicode's sense, as
/// `char::is_alphanumeric` reports it.
pub uninterp spec fn char_is_alphanumeric(c: char) -> bool;

/// `char::is_whitespace` looks the character up in the Unicode tables; its
/// answer depends on the character alone and is given the name
/// `char_is_whitespace`. Nothing else is claimed of it.
pub assume_specification[ char::is_whitespace ](c: char) -> (b: bool)
    ensures
        b == char_is_whitespace(c),
;

/// `char::is_alphabetic` looks the character up in the Unicode tables; its
/// answer depends on the character alone and is given the name
/// `char_is_alphabetic`. Nothing else is claimed of it.
pub assume_specification[ char::is_alphabetic ](c: char) -> (b: bool)
    ensures
        b == char_is_alphabetic(c),
;

/// `char::is_alphanumeric` looks the character up in the Unicode tables; its
/// answer depends on the character alone and is given the name
/// `char_is_alphanumeric`. Nothing else is claimed of it.
pub assume_specification[ char::is_alphanumeric ](c: char) -> (b: bool)
    ensures
        b == char_is_alphanumeric(c),
;

/// The Unicode properties of one character that scanning depends on.
#[derive(Debug, Clone, Copy, PartialEq, Eq)]
pub struct CharClass {
    /// The character separates tokens.
    pub whitespace: bool,
    /// The character may begin an identifier.
    pub alphabetic: bool,
    /// The character may continue an identifier.
    pub alphanumeric: bool,
}

/// One character of the source together with its class.
///
/// The scanner never consults the Unicode tables itself: it reads the class
/// stored beside each character, so its behaviour is fixed by the sequence
/// of `SourceChar`s alone.
#[derive(Debug, Clone, Copy, PartialEq, Eq)]
pub struct SourceChar {
    /// The character.
    pub value: char,
    /// Its class.
    pub class: CharClass,
}

/// The class that the Unicode tables give to `c`.
pub open spec fn class_of(c: char) -> CharClass {
    CharClass {
        whitespace: char_is_whitespace(c),
        alphabetic: char_is_alphabetic(c),
        alphanumeric: char_is_alphanumeric(c),
    }
}

/// `c` with the class that the Unicode tables give it.
pub open spec fn source_char(c: char) -> SourceChar {
    SourceChar { value: c, class: class_of(c) }
}

/// A text with each character classified by the Unicode tables.
pub open spec fn classified(text: Seq<char>) -> Seq<SourceChar> {
    Seq::new(text.len(), |i: int| source_char(text[i]))
}

/// The characters of `s` from index `from` up to, not including, `to`.
pub open spec fn text_between(s: Seq<SourceChar>, from: int, to: int) -> Seq<char> {
    Seq::new((to - from) as nat, |k: int| s[from + k].value)
}

/// Classifies one character.
pub fn classify(c: char) -> (sc: SourceChar)
    ensures
        sc == source_char(c),
{
    SourceChar {
        value: c,
        class: CharClass {
            whitespace: c.is_whitespace(),
            alphabetic: c.is_alphabetic(),
            alphanumeric: c.is_alphanumeric(),
        },
    }
}

/// Classifies every character of `text`, in order.
pub fn classify_text(text: &str) -> (chars: Vec<SourceChar>)
    ensures
        chars@ == classified(text@),
{
    let mut chars: Vec<SourceChar> = Vec::new();
    for c in it: text.chars()
        invariant
            chars@ == classified(it.seq().take(it.index())),
    {
        chars.push(classify(c));
    }
    chars
}

/// `c` is one of `0` to `9`.
pub open spec fn is_decimal_digit(c: char) -> bool {
    '0' <= c && c <= '9'
}

/// `c` is a decimal digit or one of the letters `a` to `f`, in either case.
pub open spec fn is_hex_digit(c: char) -> bool {
    is_decimal_digit(c) || ('a' <= c && c <= 'f') || ('A' <= c && c <= 'F')
}

/// The number that the hexadecimal digit `c` stands for.
pub open spec fn hex_digit_value(c: char) -> nat
    recommends
        is_hex_digit(c),
{
    if is_decimal_digit(c) {
        (c as int - '0' as int) as nat
    } else if 'a' <= c && c <= 'f' {
        (c as int - 'a' as int + 10) as nat
    } else {
        (c as int - 'A' as int + 10) as nat
    }
}

/// The number that the decimal digit `c` stands for.
pub open spec fn decimal_digit_value(c: char) -> nat
    recommends
        is_decimal_digit(c),
{
    (c as int - '0' as int) as nat
}

/// Tells whether `c` is a decimal digit.
pub fn decimal_digit(c: char) -> (b: bool)
    ensures
        b == is_decimal_digit(c),
{
    '0' <= c && c <= '9'
}

/// Tells whether `c` is a hexadecimal digit.
pub fn hex_digit(c: char) -> (b: bool)
    ensures
        b == is_hex_digit(c),
{
    ('0' <= c && c <= '9') || ('a' <= c && c <= 'f') || ('A' <= c && c <= 'F')
}

/// The value of the hexadecimal digit `c`, if it is one.
pub fn hex_value(c: char) -> (v: Option<u8>)
    ensures
        v is Some <==> is_hex_digit(c),
        v matches Some(d) ==> d == hex_digit_value(c) && d < 16,
{
    let code: u32 = c as u32;
    if '0' <= c && c <= '9' {
        Some((code - 48) as u8)
    } else if 'a' <= c && c <= 'f' {
        Some((code - 97 + 10) as u8)
    } else if 'A' <= c && c <= 'F' {
        Some((code - 65 + 10) as u8)
    } else {
        None
    }
}

/// The character that stands behind a backslash for `code`, where `code` is
/// one of the escape codes of a string literal.
pub open spec fn escape_value(code: char) -> Option<char> {
    match code {
        '\\' => Some('\\'),
        '\'' => Some('\''),
        '"' => Some('"'),
        'a' => Some('\x07'),
        'b' => Some('\x08'),
        'v' => Some('\x0b'),
        'f' => Some('\x0c'),
        'n' => Some('\n'),
        'r' => Some('\r'),
        't' => Some('\t'),
        '[' => Some('['),
        ']' => Some(']'),
        _ => None,
    }
}

/// Decodes the escape code that follows a backslash in a string literal.
/// `None` means that `code` is no escape code.
pub fn decode_escape(code: char) -> (decoded: Option<char>)
    ensures
        decoded == escape_value(code),
{
    match code {
        '\\' => Some('\\'),
        '\'' => Some('\''),
        '"' => Some('"'),
        'a' => Some('\x07'),
        'b' => Some('\x08'),
        'v' => Some('\x0b'),
        'f' => Some('\x0c'),
        'n' => Some('\n'),
        'r' => Some('\r'),
        't' => Some('\t'),
        '[' => Some('['),
        ']' => Some(']'),
        _ => None,
    }
}

} // verus!

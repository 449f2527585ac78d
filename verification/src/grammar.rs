//! The lexical grammar, as functions on a classified text.
//!
//! Every function here is mathematics: it says which token begins at an
//! index, where it ends and what it holds, or which error the text has
//! there. The analyser is proved to compute exactly these functions.

use crate::chars::{
    escape_value, is_decimal_digit, is_hex_digit, text_between, SourceChar,
};
use crate::error::LexErrorKind;
use crate::numeral::{hex_numeral_value, is_decimal_numeral, NumeralView};
use crate::position::{position_at, Position};
use crate::token::TokenView;
use vstd::prelude::*;

verus! {

/// What scanning one construct gives: its value and the index behind its
/// last character, or the kind of error and the index at which scanning
/// stood when it was found.
pub enum Scanned<T> {
    /// The construct was read.
    Done { value: T, end: int },
    /// The text is in error.
    Fault { kind: LexErrorKind, at: int },
}

/// What one pull gives.
pub enum Pull {
    /// Nothing but whitespace was left.
    End,
    /// A token: what it is, the index of its first character and the index
    /// behind its last.
    Lexeme { token: TokenView, start: int, end: int },
    /// The text is in error.
    Fault { kind: LexErrorKind, at: int },
}

/// The character at index `i`, if the text is that long.
pub open spec fn char_at(s: Seq<SourceChar>, i: int) -> Option<char> {
    if 0 <= i < s.len() {
        Some(s[i].value)
    } else {
        None
    }
}

/// The first index from `i` on that holds no whitespace, or the length.
pub open spec fn whitespace_end(s: Seq<SourceChar>, i: int) -> int
    decreases s.len() - i,
{
    if 0 <= i < s.len() && s[i].class.whitespace {
        whitespace_end(s, i + 1)
    } else {
        i
    }
}

/// The first index from `i` on that holds a line break, or the length.
pub open spec fn line_end(s: Seq<SourceChar>, i: int) -> int
    decreases s.len() - i,
{
    if 0 <= i < s.len() && s[i].value != '\n' {
        line_end(s, i + 1)
    } else {
        i
    }
}

/// A character that may stand inside an identifier.
pub open spec fn is_word_char(c: SourceChar) -> bool {
    c.class.alphanumeric || c.value == '_'
}

/// A character that may begin an identifier.
pub open spec fn is_word_start(c: SourceChar) -> bool {
    c.class.alphabetic || c.value == '_'
}

/// The first index from `i` on that holds no character of an identifier,
/// or the length.
pub open spec fn word_end(s: Seq<SourceChar>, i: int) -> int
    decreases s.len() - i,
{
    if 0 <= i < s.len() && is_word_char(s[i]) {
        word_end(s, i + 1)
    } else {
        i
    }
}

/// The punctuation or operator that begins with `c`, given the two
/// characters that follow it, and the number of characters it takes. The
/// longest operator wins: `...` before `..` before `.`.
///
/// `None` where `c` begins no operator: that is so for `~` without `=`
/// behind it, for `#!` and for `--`.
pub open spec fn operator_at(c: char, c1: Option<char>, c2: Option<char>) -> Option<
    (TokenView, int),
> {
    match c {
        '(' => Some((TokenView::OpenParen, 1)),
        ')' => Some((TokenView::CloseParen, 1)),
        '[' => Some((TokenView::OpenBracket, 1)),
        ']' => Some((TokenView::CloseBracket, 1)),
        '{' => Some((TokenView::OpenBrace, 1)),
        '}' => Some((TokenView::CloseBrace, 1)),
        '|' => Some((TokenView::Lambda, 1)),
        ',' => Some((TokenView::Comma, 1)),
        ';' => Some((TokenView::Semicolon, 1)),
        '+' => Some((TokenView::Add, 1)),
        '*' => Some((TokenView::Mul, 1)),
        '/' => Some((TokenView::Div, 1)),
        '%' => Some((TokenView::Mod, 1)),
        '^' => Some((TokenView::Power, 1)),
        '$' => Some((TokenView::Dollar, 1)),
        '~' => if c1 == Some('=') {
            Some((TokenView::NotEqual, 2))
        } else {
            None
        },
        '=' => if c1 == Some('=') {
            Some((TokenView::Equal, 2))
        } else {
            Some((TokenView::Assignment, 1))
        },
        '<' => if c1 == Some('=') {
            Some((TokenView::LessThanEqual, 2))
        } else {
            Some((TokenView::LessThan, 1))
        },
        '>' => if c1 == Some('=') {
            Some((TokenView::GreaterThanEqual, 2))
        } else {
            Some((TokenView::GreaterThan, 1))
        },
        ':' => if c1 == Some(':') {
            Some((TokenView::DoubleColon, 2))
        } else {
            Some((TokenView::Colon, 1))
        },
        '.' => if c1 == Some('.') {
            if c2 == Some('.') {
                Some((TokenView::VarArgs, 3))
            } else {
                Some((TokenView::Concat, 2))
            }
        } else {
            Some((TokenView::MemberAccess, 1))
        },
        '#' => if c1 == Some('!') {
            None
        } else {
            Some((TokenView::Len, 1))
        },
        '-' => if c1 == Some('-') {
            None
        } else {
            Some((TokenView::SubOrMinus, 1))
        },
        _ => None,
    }
}

/// The text of a comment or hashbang whose body begins at `j`, and the
/// index behind it: whitespace is passed over, then the text runs to the
/// next line break or to the end; the line break is consumed and is no
/// part of the text.
pub open spec fn rest_of_line(s: Seq<SourceChar>, j: int) -> (Seq<char>, int) {
    let from = whitespace_end(s, j);
    let to = line_end(s, from);
    (
        text_between(s, from, to),
        if to < s.len() {
            to + 1
        } else {
            to
        },
    )
}

/// `r` with `c` put before its text.
pub open spec fn prepend(c: char, r: Scanned<Seq<char>>) -> Scanned<Seq<char>> {
    match r {
        Scanned::Done { value, end } => Scanned::Done { value: seq![c] + value, end },
        Scanned::Fault { kind, at } => r,
    }
}

/// The rest of a string literal from index `j` on, where `delimiter` is
/// the quote that opened it.
///
/// A backslash and the character behind it give the character that the
/// escape code stands for; the delimiter ends the literal; every other
/// character stands for itself. The text must not end before the
/// delimiter, and what follows a backslash must be an escape code.
pub open spec fn string_body(s: Seq<SourceChar>, delimiter: char, j: int) -> Scanned<Seq<char>>
    decreases s.len() - j,
{
    if !(0 <= j < s.len()) {
        Scanned::Fault { kind: LexErrorKind::UnterminatedString, at: s.len() as int }
    } else if s[j].value == '\\' {
        if j + 1 >= s.len() {
            Scanned::Fault { kind: LexErrorKind::InvalidEscapeSequence, at: j + 1 }
        } else {
            match escape_value(s[j + 1].value) {
                Some(c) => prepend(c, string_body(s, delimiter, j + 2)),
                None => Scanned::Fault { kind: LexErrorKind::InvalidEscapeSequence, at: j + 2 },
            }
        }
    } else if s[j].value == delimiter {
        Scanned::Done { value: Seq::empty(), end: j + 1 }
    } else {
        prepend(s[j].value, string_body(s, delimiter, j + 1))
    }
}

/// Where the numeral that is being read at index `j` ends: `Ok` with the
/// index of the first character that is no part of it, or `Err` with the
/// index of a character that makes it malformed.
///
/// `hex` says that the numeral is hexadecimal, `fraction` that a point
/// was read, `exponent` that an exponent mark was read. A point is taken
/// once; a second one is an error. Behind an exponent mark every character
/// but a point must be a decimal digit. Digits of the numeral's base are
/// taken. `e` or `E` is taken as the exponent mark, together with a minus
/// sign that follows it. Any other character ends the numeral.
pub open spec fn numeral_end(
    s: Seq<SourceChar>,
    j: int,
    hex: bool,
    fraction: bool,
    exponent: bool,
) -> Result<int, int>
    decreases s.len() - j,
{
    if !(0 <= j < s.len()) {
        Ok(j)
    } else {
        let c = s[j].value;
        if c == '.' {
            if fraction {
                Err(j)
            } else {
                numeral_end(s, j + 1, hex, true, exponent)
            }
        } else if exponent && !is_decimal_digit(c) {
            Err(j)
        } else if (hex && is_hex_digit(c)) || (!hex && is_decimal_digit(c)) {
            numeral_end(s, j + 1, hex, fraction, exponent)
        } else if c == 'e' || c == 'E' {
            if char_at(s, j + 1) == Some('-') {
                numeral_end(s, j + 2, hex, fraction, true)
            } else {
                numeral_end(s, j + 1, hex, fraction, true)
            }
        } else {
            Ok(j)
        }
    }
}

/// The digit `0` at index `i` is followed by `x` or `X`.
pub open spec fn is_hex_prefix(s: Seq<SourceChar>, i: int) -> bool {
    char_at(s, i) == Some('0') && (char_at(s, i + 1) == Some('x') || char_at(s, i + 1) == Some(
        'X',
    ))
}

/// The numeral that begins with the digit at index `i`.
///
/// Behind `0x` or `0X` a hexadecimal digit must follow; the numeral is
/// then the hexadecimal integer that the characters behind the prefix
/// denote. Otherwise the numeral is decimal and its text must follow the
/// grammar of decimal numerals.
pub open spec fn number_at(s: Seq<SourceChar>, i: int) -> Scanned<NumeralView> {
    if is_hex_prefix(s, i) {
        if i + 2 < s.len() && is_hex_digit(s[i + 2].value) {
            match numeral_end(s, i + 2, true, false, false) {
                Ok(end) => match hex_numeral_value(text_between(s, i + 2, end)) {
                    Some(v) => Scanned::Done { value: NumeralView::Hexadecimal(v), end },
                    None => Scanned::Fault { kind: LexErrorKind::MalformedNumber, at: end },
                },
                Err(at) => Scanned::Fault { kind: LexErrorKind::MalformedNumber, at },
            }
        } else {
            Scanned::Fault { kind: LexErrorKind::MalformedHexNumeral, at: i }
        }
    } else {
        match numeral_end(s, i, false, false, false) {
            Ok(end) => if is_decimal_numeral(text_between(s, i, end)) {
                Scanned::Done { value: NumeralView::Decimal(text_between(s, i, end)), end }
            } else {
                Scanned::Fault { kind: LexErrorKind::MalformedNumber, at: end }
            },
            Err(at) => Scanned::Fault { kind: LexErrorKind::MalformedNumber, at },
        }
    }
}

/// Index `i` is the very start of the text: line 1, column 0.
pub open spec fn at_origin(s: Seq<SourceChar>, i: int) -> bool {
    position_at(s, i) == (Position { line: 1, column: 0 })
}

/// The token that begins with the character at index `i`, which is no
/// whitespace.
///
/// Punctuation and operators come first. `#!` is a hashbang at the very
/// start of the text and an error elsewhere; `--` begins a comment; a
/// quote begins a string literal; a letter or `_` begins an identifier,
/// which runs as far as letters, digits and `_` follow; a decimal digit
/// begins a numeral. Any other character is an error.
pub open spec fn token_at(s: Seq<SourceChar>, i: int) -> Scanned<TokenView> {
    let c = s[i].value;
    match operator_at(c, char_at(s, i + 1), char_at(s, i + 2)) {
        Some((token, length)) => Scanned::Done { value: token, end: i + length },
        None => if c == '~' {
            Scanned::Fault { kind: LexErrorKind::UnsupportedCharacter, at: i }
        } else if c == '#' {
            if at_origin(s, i) {
                Scanned::Done {
                    value: TokenView::Hashbang(rest_of_line(s, i + 2).0),
                    end: rest_of_line(s, i + 2).1,
                }
            } else {
                Scanned::Fault { kind: LexErrorKind::MisplacedHashbang, at: i }
            }
        } else if c == '-' {
            Scanned::Done {
                value: TokenView::Comment(rest_of_line(s, i + 2).0),
                end: rest_of_line(s, i + 2).1,
            }
        } else if c == '"' || c == '\'' {
            match string_body(s, c, i + 1) {
                Scanned::Done { value, end } => Scanned::Done {
                    value: TokenView::StaticString(value),
                    end,
                },
                Scanned::Fault { kind, at } => Scanned::Fault { kind, at },
            }
        } else if is_word_start(s[i]) {
            Scanned::Done {
                value: TokenView::Ident(text_between(s, i, word_end(s, i + 1))),
                end: word_end(s, i + 1),
            }
        } else if is_decimal_digit(c) {
            match number_at(s, i) {
                Scanned::Done { value, end } => Scanned::Done {
                    value: TokenView::Number(value),
                    end,
                },
                Scanned::Fault { kind, at } => Scanned::Fault { kind, at },
            }
        } else {
            Scanned::Fault { kind: LexErrorKind::UnsupportedCharacter, at: i }
        },
    }
}

/// One pull at index `i`: whitespace is passed over; if nothing is left
/// the text has ended, otherwise the token at the first character that is
/// no whitespace is read.
pub open spec fn pull_at(s: Seq<SourceChar>, i: int) -> Pull {
    let start = whitespace_end(s, i);
    if start >= s.len() {
        Pull::End
    } else {
        match token_at(s, start) {
            Scanned::Done { value, end } => Pull::Lexeme { token: value, start, end },
            Scanned::Fault { kind, at } => Pull::Fault { kind, at },
        }
    }
}

/// A run of whitespace ends at or behind its start, inside the text; up
/// to its end every character is whitespace, and at its end stands none.
pub proof fn lemma_whitespace_end(s: Seq<SourceChar>, i: int)
    requires
        0 <= i <= s.len(),
    ensures
        i <= whitespace_end(s, i) <= s.len(),
        forall|k: int| i <= k < whitespace_end(s, i) ==> (#[trigger] s[k]).class.whitespace,
        whitespace_end(s, i) < s.len() ==> !s[whitespace_end(s, i)].class.whitespace,
    decreases s.len() - i,
{
    if i < s.len() && s[i].class.whitespace {
        lemma_whitespace_end(s, i + 1);
    }
}

/// A line ends at or behind each of its indices, inside the text; it holds
/// no line break before its end, and at its end stands one.
pub proof fn lemma_line_end(s: Seq<SourceChar>, i: int)
    requires
        0 <= i <= s.len(),
    ensures
        i <= line_end(s, i) <= s.len(),
        forall|k: int| i <= k < line_end(s, i) ==> (#[trigger] s[k]).value != '\n',
        line_end(s, i) < s.len() ==> s[line_end(s, i)].value == '\n',
    decreases s.len() - i,
{
    if i < s.len() && s[i].value != '\n' {
        lemma_line_end(s, i + 1);
    }
}

/// A run of identifier characters ends at or behind its start, inside the
/// text; up to its end every character is one, and at its end stands none.
pub proof fn lemma_word_end(s: Seq<SourceChar>, i: int)
    requires
        0 <= i <= s.len(),
    ensures
        i <= word_end(s, i) <= s.len(),
        forall|k: int| i <= k < word_end(s, i) ==> is_word_char(#[trigger] s[k]),
        word_end(s, i) < s.len() ==> !is_word_char(s[word_end(s, i)]),
    decreases s.len() - i,
{
    if i < s.len() && is_word_char(s[i]) {
        lemma_word_end(s, i + 1);
    }
}

/// A comment or hashbang ends at or behind the start of its body, inside
/// the text.
pub proof fn lemma_rest_of_line(s: Seq<SourceChar>, j: int)
    requires
        0 <= j <= s.len(),
    ensures
        j <= rest_of_line(s, j).1 <= s.len(),
{
    lemma_whitespace_end(s, j);
    lemma_line_end(s, whitespace_end(s, j));
}

/// A string literal ends behind the index at which its rest begins, and an
/// error in it is found at or behind that index; both inside the text.
pub proof fn lemma_string_body(s: Seq<SourceChar>, delimiter: char, j: int)
    requires
        0 <= j <= s.len(),
    ensures
        match string_body(s, delimiter, j) {
            Scanned::Done { value, end } => j < end <= s.len(),
            Scanned::Fault { kind, at } => j <= at <= s.len(),
        },
    decreases s.len() - j,
{
    if j < s.len() {
        if s[j].value == '\\' {
            if j + 1 < s.len() && escape_value(s[j + 1].value) is Some {
                lemma_string_body(s, delimiter, j + 2);
            }
        } else if s[j].value != delimiter {
            lemma_string_body(s, delimiter, j + 1);
        }
    }
}

/// A numeral ends, or is found malformed, at or behind the index at which
/// it is being read, inside the text.
pub proof fn lemma_numeral_end(
    s: Seq<SourceChar>,
    j: int,
    hex: bool,
    fraction: bool,
    exponent: bool,
)
    requires
        0 <= j <= s.len(),
    ensures
        match numeral_end(s, j, hex, fraction, exponent) {
            Ok(end) => j <= end <= s.len(),
            Err(at) => j <= at < s.len(),
        },
    decreases s.len() - j,
{
    if j < s.len() {
        let c = s[j].value;
        if c == '.' {
            if !fraction {
                lemma_numeral_end(s, j + 1, hex, true, exponent);
            }
        } else if exponent && !is_decimal_digit(c) {
        } else if (hex && is_hex_digit(c)) || (!hex && is_decimal_digit(c)) {
            lemma_numeral_end(s, j + 1, hex, fraction, exponent);
        } else if c == 'e' || c == 'E' {
            if char_at(s, j + 1) == Some('-') {
                lemma_numeral_end(s, j + 2, hex, fraction, true);
            } else {
                lemma_numeral_end(s, j + 1, hex, fraction, true);
            }
        }
    }
}

/// A numeral ends behind its first digit, and an error in it is found at
/// or behind that digit; both inside the text.
pub proof fn lemma_number_at(s: Seq<SourceChar>, i: int)
    requires
        0 <= i < s.len(),
        is_decimal_digit(s[i].value),
    ensures
        match number_at(s, i) {
            Scanned::Done { value, end } => i < end <= s.len() && value.wf(),
            Scanned::Fault { kind, at } => i <= at <= s.len(),
        },
{
    if is_hex_prefix(s, i) {
        if i + 2 < s.len() && is_hex_digit(s[i + 2].value) {
            lemma_numeral_end(s, i + 2, true, false, false);
        }
    } else {
        lemma_numeral_end(s, i + 1, false, false, false);
    }
}

/// A token ends behind its first character, and an error in it is found
/// at or behind that character; both inside the text.
pub proof fn lemma_token_at(s: Seq<SourceChar>, i: int)
    requires
        0 <= i < s.len(),
    ensures
        match token_at(s, i) {
            Scanned::Done { value, end } => i < end <= s.len(),
            Scanned::Fault { kind, at } => i <= at <= s.len(),
        },
{
    let c = s[i].value;
    match operator_at(c, char_at(s, i + 1), char_at(s, i + 2)) {
        Some((token, length)) => {},
        None => {
            if c == '~' {
            } else if c == '#' {
                lemma_rest_of_line(s, i + 2);
            } else if c == '-' {
                lemma_rest_of_line(s, i + 2);
            } else if c == '"' || c == '\'' {
                lemma_string_body(s, c, i + 1);
            } else if is_word_start(s[i]) {
                lemma_word_end(s, i + 1);
            } else if is_decimal_digit(c) {
                lemma_number_at(s, i);
            }
        },
    }
}

/// A pull that gives a token moves on: the token begins at or behind the
/// index of the pull and ends behind its own start, inside the text. An
/// error is found at or behind the index of the pull.
pub proof fn lemma_pull_at(s: Seq<SourceChar>, i: int)
    requires
        0 <= i <= s.len(),
    ensures
        match pull_at(s, i) {
            Pull::End => true,
            Pull::Lexeme { token, start, end } => i <= start < end <= s.len(),
            Pull::Fault { kind, at } => i <= at <= s.len(),
        },
{
    lemma_whitespace_end(s, i);
    if whitespace_end(s, i) < s.len() {
        lemma_token_at(s, whitespace_end(s, i));
    }
}

} // verus!

//! The scanners: each reads one construct of the grammar from the
//! lookahead buffer and is proved to read what the grammar says.

use crate::chars::{decimal_digit, decode_escape, hex_digit, is_hex_digit, text_between};
use crate::error::LexErrorKind;
use crate::grammar::{
    is_hex_prefix, line_end, number_at, numeral_end, operator_at, prepend, rest_of_line,
    string_body, whitespace_end, word_end, Scanned,
};
use crate::lookahead::Lookahead;
use crate::numeral::{decimal_numeral, parse_hex, Numeral};
use crate::text::string_of;
use crate::token::Token;
use vstd::prelude::*;

verus! {

/// The punctuation or operator that begins with `c`, given the two
/// characters that follow it, and the number of characters it takes.
pub fn operator(c: char, c1: Option<char>, c2: Option<char>) -> (r: Option<(Token, usize)>)
    ensures
        match r {
            Some((token, length)) => operator_at(c, c1, c2) == Some((token@, length as int)),
            None => operator_at(c, c1, c2) is None,
        },
{
    let follows_eq: bool = match c1 {
        Some('=') => true,
        _ => false,
    };
    match c {
        '(' => Some((Token::OpenParen, 1)),
        ')' => Some((Token::CloseParen, 1)),
        '[' => Some((Token::OpenBracket, 1)),
        ']' => Some((Token::CloseBracket, 1)),
        '{' => Some((Token::OpenBrace, 1)),
        '}' => Some((Token::CloseBrace, 1)),
        '|' => Some((Token::Lambda, 1)),
        ',' => Some((Token::Comma, 1)),
        ';' => Some((Token::Semicolon, 1)),
        '+' => Some((Token::Add, 1)),
        '*' => Some((Token::Mul, 1)),
        '/' => Some((Token::Div, 1)),
        '%' => Some((Token::Mod, 1)),
        '^' => Some((Token::Power, 1)),
        '$' => Some((Token::Dollar, 1)),
        '~' => if follows_eq {
            Some((Token::NotEqual, 2))
        } else {
            None
        },
        '=' => if follows_eq {
            Some((Token::Equal, 2))
        } else {
            Some((Token::Assignment, 1))
        },
        '<' => if follows_eq {
            Some((Token::LessThanEqual, 2))
        } else {
            Some((Token::LessThan, 1))
        },
        '>' => if follows_eq {
            Some((Token::GreaterThanEqual, 2))
        } else {
            Some((Token::GreaterThan, 1))
        },
        ':' => match c1 {
            Some(':') => Some((Token::DoubleColon, 2)),
            _ => Some((Token::Colon, 1)),
        },
        '.' => match c1 {
            Some('.') => match c2 {
                Some('.') => Some((Token::VarArgs, 3)),
                _ => Some((Token::Concat, 2)),
            },
            _ => Some((Token::MemberAccess, 1)),
        },
        '#' => match c1 {
            Some('!') => None,
            _ => Some((Token::Len, 1)),
        },
        '-' => match c1 {
            Some('-') => None,
            _ => Some((Token::SubOrMinus, 1)),
        },
        _ => None,
    }
}

/// Consumes whitespace up to the first character that is none, or to the
/// end of the text.
pub fn skip_whitespace(buf: &mut Lookahead)
    requires
        old(buf).wf(),
    ensures
        final(buf).wf(),
        final(buf).stream() == old(buf).stream(),
        final(buf).consumed() == whitespace_end(old(buf).stream(), old(buf).consumed()),
{
    proof {
        buf.lemma_inside();
    }
    loop
        invariant
            buf.wf(),
            buf.stream() == old(buf).stream(),
            0 <= buf.consumed() <= buf.stream().len(),
            whitespace_end(buf.stream(), buf.consumed()) == whitespace_end(
                old(buf).stream(),
                old(buf).consumed(),
            ),
        ensures
            buf.wf(),
            buf.stream() == old(buf).stream(),
            buf.consumed() == whitespace_end(old(buf).stream(), old(buf).consumed()),
        decreases buf.stream().len() - buf.consumed(),
    {
        match buf.peek(0) {
            Some(c) => {
                if !c.class.whitespace {
                    break;
                }
            },
            None => {
                break;
            },
        }
        buf.advance(1);
    }
}

/// Reads the text of a comment or hashbang from the start of its body:
/// passes over whitespace, takes the characters up to the next line break
/// or the end of the text, and consumes the line break.
pub fn scan_rest_of_line(buf: &mut Lookahead) -> (text: String)
    requires
        old(buf).wf(),
    ensures
        final(buf).wf(),
        final(buf).stream() == old(buf).stream(),
        text@ == rest_of_line(old(buf).stream(), old(buf).consumed()).0,
        final(buf).consumed() == rest_of_line(old(buf).stream(), old(buf).consumed()).1,
{
    skip_whitespace(buf);
    proof {
        buf.lemma_inside();
    }
    let ghost s = buf.stream();
    let ghost from = buf.consumed();
    let mut text = String::new();
    loop
        invariant
            buf.wf(),
            buf.stream() == s,
            0 <= from <= buf.consumed() <= s.len(),
            line_end(s, buf.consumed()) == line_end(s, from),
            text@ == text_between(s, from, buf.consumed()),
        ensures
            buf.wf(),
            buf.stream() == s,
            0 <= from <= buf.consumed() <= s.len(),
            buf.consumed() == line_end(s, from),
            text@ == text_between(s, from, buf.consumed()),
        decreases s.len() - buf.consumed(),
    {
        match buf.peek(0) {
            Some(c) => {
                if c.value == '\n' {
                    break;
                }
                text.push(c.value);
            },
            None => {
                break;
            },
        }
        buf.advance(1);
    }
    buf.advance(1);
    text
}

/// Reads an identifier from its first character on: that character and
/// every letter, digit and `_` that follows.
pub fn scan_identifier(buf: &mut Lookahead) -> (text: String)
    requires
        old(buf).wf(),
        old(buf).consumed() < old(buf).stream().len(),
    ensures
        final(buf).wf(),
        final(buf).stream() == old(buf).stream(),
        final(buf).consumed() == word_end(old(buf).stream(), old(buf).consumed() + 1),
        text@ == text_between(old(buf).stream(), old(buf).consumed(), final(buf).consumed()),
{
    proof {
        buf.lemma_inside();
    }
    let ghost s = buf.stream();
    let ghost from = buf.consumed();
    let mut text = String::new();
    match buf.peek(0) {
        Some(c) => {
            text.push(c.value);
        },
        None => {},
    }
    buf.advance(1);
    loop
        invariant
            buf.wf(),
            buf.stream() == s,
            0 <= from < buf.consumed() <= s.len(),
            word_end(s, buf.consumed()) == word_end(s, from + 1),
            text@ == text_between(s, from, buf.consumed()),
        ensures
            buf.wf(),
            buf.stream() == s,
            buf.consumed() == word_end(s, from + 1),
            text@ == text_between(s, from, buf.consumed()),
        decreases s.len() - buf.consumed(),
    {
        match buf.peek(0) {
            Some(c) => {
                if !(c.class.alphanumeric || c.value == '_') {
                    break;
                }
                text.push(c.value);
            },
            None => {
                break;
            },
        }
        buf.advance(1);
    }
    text
}

/// `r` with the characters of `t` put before its text.
spec fn prefixed(t: Seq<char>, r: Scanned<Seq<char>>) -> Scanned<Seq<char>> {
    match r {
        Scanned::Done { value, end } => Scanned::Done { value: t + value, end },
        Scanned::Fault { kind, at } => r,
    }
}

/// Putting `t` and then `c` before a text is putting `t` with `c` at its
/// end before it.
proof fn lemma_prefixed_prepend(t: Seq<char>, c: char, r: Scanned<Seq<char>>)
    ensures
        prefixed(t, prepend(c, r)) == prefixed(t.push(c), r),
{
    match r {
        Scanned::Done { value, end } => {
            assert(t + (seq![c] + value) == t.push(c) + value);
        },
        Scanned::Fault { kind, at } => {},
    }
}

/// Reads a string literal from its opening quote on. The quote that
/// opens the literal is the one that closes it.
///
/// `Ok` holds the text of the literal with its escape codes decoded, and
/// the closing quote is consumed. `Err` tells what is wrong with the
/// literal; the cursor then stands where the error was found.
pub fn scan_string(buf: &mut Lookahead) -> (r: Result<String, LexErrorKind>)
    requires
        old(buf).wf(),
        old(buf).consumed() < old(buf).stream().len(),
    ensures
        final(buf).wf(),
        final(buf).stream() == old(buf).stream(),
        match string_body(
            old(buf).stream(),
            old(buf).stream()[old(buf).consumed()].value,
            old(buf).consumed() + 1,
        ) {
            Scanned::Done { value, end } => {
                &&& r matches Ok(text) && text@ == value
                &&& final(buf).consumed() == end
            },
            Scanned::Fault { kind, at } => {
                &&& r == Err::<String, LexErrorKind>(kind)
                &&& final(buf).consumed() == at
            },
        },
{
    proof {
        buf.lemma_inside();
    }
    let ghost s = buf.stream();
    let ghost from = buf.consumed() + 1;
    let delimiter: char = match buf.peek(0) {
        Some(c) => c.value,
        None => {
            return Err(LexErrorKind::UnterminatedString);
        },
    };
    buf.advance(1);
    let mut text = String::new();
    loop
        invariant
            buf.wf(),
            buf.stream() == s,
            s == old(buf).stream(),
            from == old(buf).consumed() + 1,
            delimiter == s[from - 1].value,
            0 < from <= buf.consumed() <= s.len(),
            string_body(s, delimiter, from) == prefixed(
                text@,
                string_body(s, delimiter, buf.consumed()),
            ),
        decreases s.len() - buf.consumed(),
    {
        let ghost j = buf.consumed();
        match buf.peek(0) {
            None => {
                return Err(LexErrorKind::UnterminatedString);
            },
            Some(c) => {
                buf.advance(1);
                if c.value == '\\' {
                    match buf.peek(0) {
                        None => {
                            return Err(LexErrorKind::InvalidEscapeSequence);
                        },
                        Some(code) => {
                            buf.advance(1);
                            match decode_escape(code.value) {
                                Some(decoded) => {
                                    proof {
                                        lemma_prefixed_prepend(
                                            text@,
                                            decoded,
                                            string_body(s, delimiter, j + 2),
                                        );
                                    }
                                    text.push(decoded);
                                },
                                None => {
                                    return Err(LexErrorKind::InvalidEscapeSequence);
                                },
                            }
                        },
                    }
                } else if c.value == delimiter {
                    return Ok(text);
                } else {
                    proof {
                        lemma_prefixed_prepend(
                            text@,
                            c.value,
                            string_body(s, delimiter, j + 1),
                        );
                    }
                    text.push(c.value);
                }
            },
        }
    }
}

/// Reads a numeral from its first digit on.
///
/// `Ok` holds the numeral: the value of a hexadecimal integer, the text
/// of a decimal numeral. `Err` tells what is wrong with the numeral; the
/// cursor then stands where the error was found.
pub fn scan_number(buf: &mut Lookahead) -> (r: Result<Numeral, LexErrorKind>)
    requires
        old(buf).wf(),
    ensures
        final(buf).wf(),
        final(buf).stream() == old(buf).stream(),
        match number_at(old(buf).stream(), old(buf).consumed()) {
            Scanned::Done { value, end } => {
                &&& r matches Ok(numeral) && numeral@ == value
                &&& final(buf).consumed() == end
            },
            Scanned::Fault { kind, at } => {
                &&& r == Err::<Numeral, LexErrorKind>(kind)
                &&& final(buf).consumed() == at
            },
        },
{
    proof {
        buf.lemma_inside();
    }
    let ghost s = buf.stream();
    let ghost i = buf.consumed();
    let leading_zero: bool = match buf.peek(0) {
        Some(c) => c.value == '0',
        None => false,
    };
    let marked: bool = match buf.peek(1) {
        Some(c) => c.value == 'x' || c.value == 'X',
        None => false,
    };
    let hex: bool = leading_zero && marked;
    if hex {
        let digit_follows: bool = match buf.peek(2) {
            Some(c) => hex_digit(c.value),
            None => false,
        };
        if !digit_follows {
            return Err(LexErrorKind::MalformedHexNumeral);
        }
        buf.advance(2);
    }
    let ghost from = buf.consumed();
    let mut text: Vec<char> = Vec::new();
    let mut fraction: bool = false;
    let mut exponent: bool = false;
    let mut done: bool = false;
    while !done
        invariant
            buf.wf(),
            buf.stream() == s,
            s == old(buf).stream(),
            i == old(buf).consumed(),
            hex == is_hex_prefix(s, i),
            hex ==> i + 2 < s.len() && is_hex_digit(s[i + 2].value),
            from == if hex {
                i + 2
            } else {
                i
            },
            0 <= from <= buf.consumed() <= s.len(),
            numeral_end(s, buf.consumed(), hex, fraction, exponent) == numeral_end(
                s,
                from,
                hex,
                false,
                false,
            ),
            done ==> numeral_end(s, buf.consumed(), hex, fraction, exponent) == Ok::<int, int>(
                buf.consumed(),
            ),
            text@ == text_between(s, from, buf.consumed()),
        ensures
            buf.wf(),
            buf.stream() == s,
            0 <= from <= buf.consumed() <= s.len(),
            numeral_end(s, from, hex, false, false) == Ok::<int, int>(buf.consumed()),
            text@ == text_between(s, from, buf.consumed()),
        decreases
            s.len() - buf.consumed(),
            if done {
                0int
            } else {
                1int
            },
    {
        match buf.peek(0) {
            None => {
                done = true;
            },
            Some(sc) => {
                let c: char = sc.value;
                let is_digit: bool = decimal_digit(c);
                if c == '.' {
                    if fraction {
                        return Err(LexErrorKind::MalformedNumber);
                    }
                    fraction = true;
                    text.push(c);
                    buf.advance(1);
                } else if exponent && !is_digit {
                    return Err(LexErrorKind::MalformedNumber);
                } else if (hex && hex_digit(c)) || (!hex && is_digit) {
                    text.push(c);
                    buf.advance(1);
                } else if c == 'e' || c == 'E' {
                    exponent = true;
                    text.push(c);
                    buf.advance(1);
                    let minus: bool = match buf.peek(0) {
                        Some(sign) => sign.value == '-',
                        None => false,
                    };
                    if minus {
                        text.push('-');
                        buf.advance(1);
                    }
                } else {
                    done = true;
                }
            },
        }
    }
    if hex {
        match parse_hex(&text) {
            Some(value) => Ok(Numeral::Hexadecimal(value)),
            None => Err(LexErrorKind::MalformedNumber),
        }
    } else {
        if decimal_numeral(&text) {
            Ok(Numeral::Decimal(string_of(&text)))
        } else {
            Err(LexErrorKind::MalformedNumber)
        }
    }
}

} // verus!

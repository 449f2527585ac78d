//! Fatal lexical errors.

use crate::position::{Position, TokenPosition};
use vstd::prelude::*;

verus! {

/// The kinds of lexical error. Each of them ends the analysis.
#[derive(Debug, Clone, Copy, PartialEq, Eq)]
pub enum LexErrorKind {
    /// The text ended inside a string literal.
    UnterminatedString,
    /// A backslash in a string literal is followed by a character that is
    /// no escape code, or by the end of the text.
    InvalidEscapeSequence,
    /// A numeral holds a second point or a second exponent, a character
    /// other than a digit in its exponent, or does not denote a number.
    MalformedNumber,
    /// `0x` or `0X` is followed by something other than a hexadecimal
    /// digit, or by the end of the text.
    MalformedHexNumeral,
    /// `#!` stands anywhere but at the very start of the text.
    MisplacedHashbang,
    /// A character that begins no token.
    UnsupportedCharacter,
}

/// A fatal lexical error: what went wrong, and where the analysis stood.
#[derive(Debug, Clone, Copy, PartialEq, Eq)]
pub struct LexError {
    /// What went wrong.
    pub kind: LexErrorKind,
    /// The position of the first character that was not consumed.
    pub position: TokenPosition,
}

impl LexErrorKind {
    /// The sentence that describes the kind in a message.
    pub open spec fn spec_description(self) -> Seq<char> {
        match self {
            LexErrorKind::UnterminatedString => "Unterminated string."@,
            LexErrorKind::InvalidEscapeSequence => "Invalid escape code."@,
            LexErrorKind::MalformedNumber => "The number is malformed and doesn't parse."@,
            LexErrorKind::MalformedHexNumeral => "Malformed hexadecimal numeral."@,
            LexErrorKind::MisplacedHashbang => "The shebang has to be on the first line!"@,
            LexErrorKind::UnsupportedCharacter => "Unsupported character."@,
        }
    }

    /// The sentence that describes the kind in a message.
    pub fn description(&self) -> (text: &'static str)
        ensures
            text@ == self.spec_description(),
    {
        match self {
            LexErrorKind::UnterminatedString => "Unterminated string.",
            LexErrorKind::InvalidEscapeSequence => "Invalid escape code.",
            LexErrorKind::MalformedNumber => "The number is malformed and doesn't parse.",
            LexErrorKind::MalformedHexNumeral => "Malformed hexadecimal numeral.",
            LexErrorKind::MisplacedHashbang => "The shebang has to be on the first line!",
            LexErrorKind::UnsupportedCharacter => "Unsupported character.",
        }
    }
}

impl LexError {
    /// The message of an error of kind `kind` at `position`: the position
    /// in square brackets, a space, and the description of the kind.
    pub open spec fn spec_message(kind: LexErrorKind, position: Position) -> Seq<char> {
        TokenPosition::spec_text(position) + seq![' '] + kind.spec_description()
    }

    /// The message that reports the error: `[line, column] description`.
    pub fn message(&self) -> (text: String)
        ensures
            text@ == Self::spec_message(self.kind, self.position@),
    {
        let mut text = self.position.to_string();
        text.push(' ');
        text.append(self.kind.description());
        text
    }
}

} // verus!

//! The lexical analyser.
//! Performs lexical analysis on Lua source code.

use crate::chars::{classified, classify_text, decimal_digit, SourceChar};
use crate::error::{LexError, LexErrorKind};
use crate::grammar::{lemma_pull_at, lemma_token_at, pull_at, token_at, Pull, Scanned};
use crate::lookahead::Lookahead;
use crate::position::{
    lemma_newlines_below, lemma_newlines_bound, position_at, Position, TokenPosition,
};
use crate::scanner::{
    operator, scan_identifier, scan_number, scan_rest_of_line, scan_string, skip_whitespace,
};
use crate::token::{Token, TokenView};
use vstd::prelude::*;

verus! {

/// A lexical token with positional information.
#[derive(Debug, Clone, PartialEq, Eq)]
pub struct Lexeme(pub Token, pub TokenPosition);

/// A lexeme as mathematics sees it.
pub struct LexemeView {
    /// The token.
    pub token: TokenView,
    /// The position of the token's first character.
    pub position: Position,
}

impl View for Lexeme {
    type V = LexemeView;

    open spec fn view(&self) -> LexemeView {
        LexemeView { token: self.0@, position: self.1@ }
    }
}

/// A fatal error as mathematics sees it.
pub struct FaultView {
    /// What went wrong.
    pub kind: LexErrorKind,
    /// The position at which the analysis stood.
    pub position: Position,
}

impl View for LexError {
    type V = FaultView;

    open spec fn view(&self) -> FaultView {
        FaultView { kind: self.kind, position: self.position@ }
    }
}

/// `first` followed by the lexemes of `rest`; the error of `rest` where it
/// is one.
pub open spec fn lexeme_then(first: LexemeView, rest: Result<Seq<LexemeView>, FaultView>) -> Result<
    Seq<LexemeView>,
    FaultView,
> {
    match rest {
        Ok(lexemes) => Ok(seq![first] + lexemes),
        Err(fault) => Err(fault),
    }
}

/// All the lexemes of `s` from index `i` on, in the order of the text, or
/// the first error. Nothing of the lexemes before an error is kept.
pub open spec fn lex_from(s: Seq<SourceChar>, i: int) -> Result<Seq<LexemeView>, FaultView>
    decreases s.len() - i,
{
    match pull_at(s, i) {
        Pull::End => Ok(Seq::empty()),
        Pull::Lexeme { token, start, end } => {
            if i < end <= s.len() {
                lexeme_then(
                    LexemeView { token, position: position_at(s, start) },
                    lex_from(s, end),
                )
            } else {
                Ok(Seq::empty())
            }
        },
        Pull::Fault { kind, at } => Err(FaultView { kind, position: position_at(s, at) }),
    }
}

/// All the lexemes of a classified text, or its first error.
pub open spec fn lex(s: Seq<SourceChar>) -> Result<Seq<LexemeView>, FaultView> {
    lex_from(s, 0)
}

/// The index at which reading the lexemes of `s` from index `i` on stops:
/// the end of the text, or the index at which the first error is found.
pub open spec fn lex_stop(s: Seq<SourceChar>, i: int) -> int
    decreases s.len() - i,
{
    match pull_at(s, i) {
        Pull::End => s.len() as int,
        Pull::Lexeme { token, start, end } => {
            if i < end <= s.len() {
                lex_stop(s, end)
            } else {
                s.len() as int
            }
        },
        Pull::Fault { kind, at } => at,
    }
}

/// What reading all the lexemes gave, as mathematics sees it.
pub open spec fn lexing_view(r: Result<Vec<Lexeme>, LexError>) -> Result<
    Seq<LexemeView>,
    FaultView,
> {
    match r {
        Ok(found) => Ok(lexeme_views(found@)),
        Err(e) => Err(e@),
    }
}

/// The views of `lexemes`, in order.
pub open spec fn lexeme_views(lexemes: Seq<Lexeme>) -> Seq<LexemeView> {
    Seq::new(lexemes.len(), |k: int| lexemes[k]@)
}

/// `r` with the lexemes `before` put before its own.
spec fn lexemes_then(
    before: Seq<LexemeView>,
    r: Result<Seq<LexemeView>, FaultView>,
) -> Result<Seq<LexemeView>, FaultView> {
    match r {
        Ok(lexemes) => Ok(before + lexemes),
        Err(fault) => Err(fault),
    }
}

/// Putting `before` and then `next` before the lexemes of `r` is putting
/// `before` with `next` at its end before them.
proof fn lemma_lexemes_then(
    before: Seq<LexemeView>,
    next: LexemeView,
    r: Result<Seq<LexemeView>, FaultView>,
)
    ensures
        lexemes_then(before, lexeme_then(next, r)) == lexemes_then(before.push(next), r),
{
    match r {
        Ok(lexemes) => {
            assert(before + (seq![next] + lexemes) == before.push(next) + lexemes);
        },
        Err(fault) => {},
    }
}

/// Where the first character of a token is a line break, an error in the
/// token is found at that character.
proof fn lemma_fault_behind_line_break(s: Seq<SourceChar>, i: int)
    requires
        0 <= i < s.len(),
        s[i].value == '\n',
    ensures
        token_at(s, i) matches Scanned::Fault { kind, at } ==> at == i,
{
}

/// Lexical analyser.
#[derive(Debug, Clone)]
pub struct Lexer {
    /// The lookahead buffer, with the current position.
    buf: Lookahead,
    /// The error that ended the analysis.
    failure: Option<LexError>,
}

impl Lexer {
    /// The whole classified text that is analysed.
    pub closed spec fn stream(&self) -> Seq<SourceChar> {
        self.buf.stream()
    }

    /// The number of characters consumed so far.
    pub closed spec fn consumed(&self) -> int {
        self.buf.consumed()
    }

    /// The error that ended the analysis, if one did.
    pub closed spec fn failure(&self) -> Option<LexError> {
        self.failure
    }

    /// The analyser stands inside its text or at its end.
    pub closed spec fn wf(&self) -> bool {
        self.buf.wf()
    }

    /// What is left to read: the error that ended the analysis, if one
    /// did; otherwise the lexemes from the cursor on, or the first error
    /// among them.
    pub open spec fn remaining(&self) -> Result<Seq<LexemeView>, FaultView> {
        match self.failure() {
            Some(e) => Err(e@),
            None => lex_from(self.stream(), self.consumed()),
        }
    }

    /// A well-formed analyser stands inside its text or at its end, and
    /// the length of the text fits in a `usize`.
    pub proof fn lemma_inside(&self)
        requires
            self.wf(),
        ensures
            0 <= self.consumed() <= self.stream().len() <= usize::MAX,
    {
        self.buf.lemma_inside();
    }

    /// Constructs a new `Lexer` at the start of `src`, whose characters
    /// are classified by the Unicode tables.
    pub fn new(src: &String) -> (lexer: Lexer)
        ensures
            lexer.wf(),
            lexer.stream() == classified(src@),
            lexer.consumed() == 0,
            lexer.failure() is None,
    {
        Lexer::from_chars(classify_text(src.as_str()))
    }

    /// Constructs a new `Lexer` at the start of a text that is classified
    /// already.
    pub fn from_chars(chars: Vec<SourceChar>) -> (lexer: Lexer)
        ensures
            lexer.wf(),
            lexer.stream() == chars@,
            lexer.consumed() == 0,
            lexer.failure() is None,
    {
        Lexer { buf: Lookahead::new(chars), failure: None }
    }

    /// Reads the token at the cursor, which stands at a character that is
    /// no whitespace, and whose position is `start`.
    fn scan_token(&mut self, first: SourceChar, start: TokenPosition) -> (r: Result<
        Token,
        LexErrorKind,
    >)
        requires
            old(self).wf(),
            old(self).consumed() < old(self).stream().len(),
            first == old(self).stream()[old(self).consumed()],
            start@ == position_at(old(self).stream(), old(self).consumed()),
        ensures
            final(self).wf(),
            final(self).stream() == old(self).stream(),
            final(self).failure() == old(self).failure(),
            match token_at(old(self).stream(), old(self).consumed()) {
                Scanned::Done { value, end } => {
                    &&& r matches Ok(token) && token@ == value
                    &&& final(self).consumed() == end
                },
                Scanned::Fault { kind, at } => {
                    &&& r == Err::<Token, LexErrorKind>(kind)
                    &&& final(self).consumed() == at
                },
            },
    {
        proof {
            self.buf.lemma_inside();
        }
        let c: char = first.value;
        let c1: Option<char> = match self.buf.peek(1) {
            Some(sc) => Some(sc.value),
            None => None,
        };
        let c2: Option<char> = match self.buf.peek(2) {
            Some(sc) => Some(sc.value),
            None => None,
        };
        match operator(c, c1, c2) {
            Some((token, length)) => {
                self.buf.advance(length);
                Ok(token)
            },
            None => {
                if c == '~' {
                    Err(LexErrorKind::UnsupportedCharacter)
                } else if c == '#' {
                    if start.line() == 1 && start.column() == 0 {
                        self.buf.advance(2);
                        Ok(Token::Hashbang(scan_rest_of_line(&mut self.buf)))
                    } else {
                        Err(LexErrorKind::MisplacedHashbang)
                    }
                } else if c == '-' {
                    self.buf.advance(2);
                    Ok(Token::Comment(scan_rest_of_line(&mut self.buf)))
                } else if c == '"' || c == '\'' {
                    match scan_string(&mut self.buf) {
                        Ok(text) => Ok(Token::StaticString(text)),
                        Err(kind) => Err(kind),
                    }
                } else if first.class.alphabetic || c == '_' {
                    Ok(Token::Ident(scan_identifier(&mut self.buf)))
                } else if decimal_digit(c) {
                    match scan_number(&mut self.buf) {
                        Ok(numeral) => Ok(Token::Number(numeral)),
                        Err(kind) => Err(kind),
                    }
                } else {
                    Err(LexErrorKind::UnsupportedCharacter)
                }
            },
        }
    }

    /// Reads the next lexeme.
    ///
    /// `Ok(Some(..))` holds the next token and the position of its first
    /// character; the cursor then stands behind the token. `Ok(None)` says
    /// that nothing but whitespace was left; the cursor then stands at the
    /// end of the text, and every later pull gives `Ok(None)` again.
    /// `Err(..)` reports a fatal error with the position at which the
    /// analysis stood; the analysis is over, and every later pull gives
    /// the same error.
    pub fn next(&mut self) -> (r: Result<Option<Lexeme>, LexError>)
        requires
            old(self).wf(),
        ensures
            final(self).wf(),
            final(self).stream() == old(self).stream(),
            match old(self).failure() {
                Some(e) => {
                    &&& r == Err::<Option<Lexeme>, LexError>(e)
                    &&& final(self).consumed() == old(self).consumed()
                    &&& final(self).failure() == old(self).failure()
                },
                None => match pull_at(old(self).stream(), old(self).consumed()) {
                    Pull::End => {
                        &&& r == Ok::<Option<Lexeme>, LexError>(None)
                        &&& final(self).consumed() == old(self).stream().len()
                        &&& final(self).failure() is None
                    },
                    Pull::Lexeme { token, start, end } => {
                        &&& r matches Ok(Some(lexeme))
                        &&& lexeme@ == LexemeView {
                            token,
                            position: position_at(old(self).stream(), start),
                        }
                        &&& final(self).consumed() == end
                        &&& final(self).failure() is None
                    },
                    Pull::Fault { kind, at } => {
                        &&& r matches Err(e)
                        &&& e@ == FaultView { kind, position: position_at(old(self).stream(), at) }
                        &&& final(self).consumed() == at
                        &&& final(self).failure() == Some(e)
                    },
                },
            },
    {
        if let Some(e) = self.failure {
            return Err(e);
        }
        let ghost s = self.buf.stream();
        skip_whitespace(&mut self.buf);
        proof {
            self.buf.lemma_inside();
        }
        let ghost i = self.buf.consumed();
        let first: SourceChar = match self.buf.peek(0) {
            Some(sc) => sc,
            None => {
                return Ok(None);
            },
        };
        proof {
            lemma_newlines_bound(s, i);
            lemma_token_at(s, i);
        }
        let start: TokenPosition = self.buf.position();
        match self.scan_token(first, start) {
            Ok(token) => Ok(Some(Lexeme(token, start))),
            Err(kind) => {
                proof {
                    let at = self.buf.consumed();
                    lemma_newlines_bound(s, at);
                    if at == s.len() {
                        if first.value == '\n' {
                            lemma_fault_behind_line_break(s, i);
                        } else {
                            lemma_newlines_below(s, i, at);
                        }
                    }
                }
                let e = LexError { kind, position: self.buf.position() };
                self.failure = Some(e);
                Err(e)
            },
        }
    }

    /// Reads all the lexemes that are left, in the order of the text.
    ///
    /// `Ok(..)` holds them. `Err(..)` reports the first fatal error; none
    /// of the lexemes before it is handed out.
    pub fn tokenize(&mut self) -> (r: Result<Vec<Lexeme>, LexError>)
        requires
            old(self).wf(),
        ensures
            final(self).wf(),
            final(self).stream() == old(self).stream(),
            lexing_view(r) == old(self).remaining(),
            final(self).failure() == match r {
                Ok(found) => None,
                Err(e) => Some(e),
            },
            final(self).consumed() == if old(self).failure() is Some {
                old(self).consumed()
            } else {
                lex_stop(old(self).stream(), old(self).consumed())
            },
    {
        if let Some(e) = self.failure {
            return Err(e);
        }
        let ghost s = self.buf.stream();
        let ghost from = self.buf.consumed();
        let mut found: Vec<Lexeme> = Vec::new();
        proof {
            self.buf.lemma_inside();
        }
        loop
            invariant
                self.wf(),
                self.stream() == s,
                s == old(self).stream(),
                from == old(self).consumed(),
                old(self).failure() is None,
                self.failure() is None,
                0 <= self.consumed() <= s.len(),
                lex_from(s, from) == lexemes_then(
                    lexeme_views(found@),
                    lex_from(s, self.consumed()),
                ),
                lex_stop(s, from) == lex_stop(s, self.consumed()),
            decreases s.len() - self.consumed(),
        {
            let ghost i = self.consumed();
            let ghost before = lexeme_views(found@);
            proof {
                lemma_pull_at(s, i);
            }
            match self.next() {
                Ok(Some(lexeme)) => {
                    proof {
                        lemma_lexemes_then(before, lexeme@, lex_from(s, self.consumed()));
                        assert(lexeme_views(found@.push(lexeme)) == before.push(lexeme@));
                    }
                    found.push(lexeme);
                },
                Ok(None) => {
                    return Ok(found);
                },
                Err(e) => {
                    return Err(e);
                },
            }
        }
    }
}

} // verus!

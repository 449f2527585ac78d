//! The abstract syntax tree.

use crate::numeral::Numeral;
use vstd::prelude::*;

verus! {

/// Visits the nodes of a syntax tree, giving a `T` for each.
pub trait Visitor<T> {
    /// Visits a name.
    fn visit_name(&mut self, val: &Name) -> T;
}

/// A name for something.
pub struct Name(pub String);

/// Pseudo type for holding statements.
pub struct Block(pub Vec<Stmt>);

impl Block {
    /// Appends `stmt` to the statements of the block.
    pub fn add_child(&mut self, stmt: Stmt)
        ensures
            final(self).0@ == old(self).0@.push(stmt),
    {
        self.0.push(stmt);
    }
}

/// A statement.
pub enum Stmt {
    /// `"do" block "end"`
    Do(Block),
    /// `name {"," name} "=" expr {"," expr}`
    Assign(Vec<(Name, Expr)>),
    /// `"while" expr "do" block "end"`
    While(Expr, Block),
    /// `"repeat" block "until" expr`
    Repeat(Expr, Block),
    /// `"if" expr "then" block {"else if" expr "then" block} ["else" block] end`
    If(Vec<(Expr, Block)>, Option<Block>),
    /// `"for" name "=" expr "," expr ["," expr] "do" block "end"`
    ForNum(Name, Expr, Expr, Option<Expr>, Block),
    /// `"for" name {"," name} "in" expr {"," expr} "do" block "end"`
    ForIn(Vec<(Name, Expr)>, Block),
    /// `"local" name {"," name} "=" expr {"," expr}`
    Local(Vec<(Name, Expr)>),
    /// `"goto" string`
    Goto(String),
    /// `"::" string "::"`
    Label(String),
    /// `"return" expr {"," expr}`
    Return(Vec<Expr>),
    /// `"break"`
    Break,
}

/// An expression.
pub enum Expr {
    /// `nil`
    Nil,
    /// `...`
    Dots,
    /// `true`
    True,
    /// `false`
    False,
    /// A number.
    Number(Numeral),
    /// A string literal.
    StaticString(String),
    /// A call of a named function with its arguments.
    Call(Name, Vec<Box<Expr>>),
}

} // verus!

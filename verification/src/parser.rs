//! Data holders for the downstream parser.  The parser itself is not
//! part of this library; these types only carry the token sequence and a
//! cursor for it.

use vstd::prelude::*;

use crate::token::Token;

verus! {

/// A binary expression node: an operator token between two
/// sub-expressions.  The children stand behind `Option` only so that the
/// recursive type has a base case; a constructed node always holds both.
pub struct Expr {
    left: Option<Box<Expr>>,
    operator: Token,
    right: Option<Box<Expr>>,
}

impl Expr {
    pub closed spec fn spec_left(&self) -> Option<Box<Expr>> {
        self.left
    }

    pub closed spec fn spec_operator(&self) -> Token {
        self.operator
    }

    pub closed spec fn spec_right(&self) -> Option<Box<Expr>> {
        self.right
    }

    /// Builds the node as given.
    pub fn new(left: Box<Expr>, operator: Token, right: Box<Expr>) -> (e: Expr)
        ensures
            e.spec_left() == Some(left),
            e.spec_operator() == operator,
            e.spec_right() == Some(right),
    {
        Expr { left: Some(left), operator, right: Some(right) }
    }
}

/// The parser's state: the token sequence under parse and a cursor into
/// it, starting at the first token.
pub struct Parser {
    tokens: Vec<Token>,
    current: i32,
}

impl Parser {
    pub closed spec fn spec_tokens(&self) -> Seq<Token> {
        self.tokens@
    }

    pub closed spec fn spec_current(&self) -> int {
        self.current as int
    }

    /// Builds a parser over `tokens` with its cursor at the start.
    pub fn new(tokens: Vec<Token>) -> (p: Parser)
        ensures
            p.spec_tokens() == tokens@,
            p.spec_current() == 0,
    {
        Parser { tokens, current: 0 }
    }
}

} // verus!

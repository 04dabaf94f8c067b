//! The token model: the closed set of token kinds, the per-token record,
//! and the structured lexical errors, together with their mathematical
//! views used by the scanner's contracts.

use vstd::prelude::*;

verus! {

/// The closed enumeration of lexical categories.
#[derive(Debug, Clone, Copy, PartialEq, Eq, Structural)]
pub enum TokenType {
    // Operators
    Bang,
    BangEqual,
    Equal,
    EqualEqual,
    Less,
    LessEqual,
    Greater,
    GreaterEqual,

    // One character
    LeftBrace,
    RightBrace,
    LeftParen,
    RightParen,
    Dot,
    Minus,
    Plus,
    Comma,
    Semicolon,
    Slash,
    Star,

    // Literals
    Number,
    Identifier,
    String,

    // Keywords
    And,
    Else,
    False,
    True,
    Fn,
    If,
    Nil,
    Or,
    Print,
    Return,
    Var,
    Match,
    Do,
    End,
    FnTypeAssigner,
    FnTypeImplication,

    // Types
    NumberType,
    FloatType,
    BoolType,
    StringType,
    NilType,
    FunctionType,
    UnknownType,

    EOF,
}

/// One lexical unit: its kind, the exact source substring matched
/// (`lexeme`), the extracted semantic payload (`literal` — the unquoted
/// contents for a string, the numeric text for a number, the name for an
/// identifier, empty for everything else), and the 1-based source line of
/// the token's first character.
#[derive(Debug, Clone)]
pub struct Token {
    pub token: TokenType,
    pub lexeme: String,
    pub literal: String,
    pub line: i32,
}

/// The mathematical value of a `Token`: the same record over `Seq<char>`
/// and unbounded integers.
pub struct SpecToken {
    pub kind: TokenType,
    pub lexeme: Seq<char>,
    pub literal: Seq<char>,
    pub line: int,
}

impl View for Token {
    type V = SpecToken;

    open spec fn view(&self) -> SpecToken {
        SpecToken {
            kind: self.token,
            lexeme: self.lexeme@,
            literal: self.literal@,
            line: self.line as int,
        }
    }
}

impl DeepView for Token {
    type V = SpecToken;

    open spec fn deep_view(&self) -> SpecToken {
        self.view()
    }
}

impl Token {
    /// Builds the record as given.
    pub fn new(token: TokenType, lexeme: String, literal: String, line: i32) -> (t: Token)
        ensures
            t.token == token,
            t.lexeme@ == lexeme@,
            t.literal@ == literal@,
            t.line == line,
    {
        Token { token, lexeme, literal, line }
    }
}

/// A structured lexical error.  Each carries the 1-based source line on
/// which the offending construct begins (for an unexpected character, the
/// line of that character).
#[derive(Debug, Clone, PartialEq, Eq, Structural)]
pub enum LexError {
    /// A character matched none of the recognized lexical rules.
    UnexpectedCharacter { character: char, line: i32 },
    /// A string literal's opening quote has no matching closing quote
    /// before the input ends.
    UnterminatedString { line: i32 },
    /// A `/*` has no matching `*/` before the input ends.
    UnterminatedBlockComment { line: i32 },
}

/// The mathematical value of a `LexError`, with an unbounded line number.
pub enum SpecLexError {
    UnexpectedCharacter { character: char, line: int },
    UnterminatedString { line: int },
    UnterminatedBlockComment { line: int },
}

impl View for LexError {
    type V = SpecLexError;

    open spec fn view(&self) -> SpecLexError {
        match *self {
            LexError::UnexpectedCharacter { character, line } => {
                SpecLexError::UnexpectedCharacter { character, line: line as int }
            },
            LexError::UnterminatedString { line } => {
                SpecLexError::UnterminatedString { line: line as int }
            },
            LexError::UnterminatedBlockComment { line } => {
                SpecLexError::UnterminatedBlockComment { line: line as int }
            },
        }
    }
}

impl DeepView for LexError {
    type V = SpecLexError;

    open spec fn deep_view(&self) -> SpecLexError {
        self.view()
    }
}

} // verus!

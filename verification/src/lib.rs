//! Lexical-analysis front end for a small expression-oriented language
//! with optional type annotations.
//!
//! The scanner consumes a source string left to right exactly once and
//! produces the complete token sequence, terminated by a single
//! end-of-input token.  Lexical errors (unexpected characters,
//! unterminated strings, unterminated block comments) are collected as
//! structured values rather than aborting the scan.

pub mod laws;
pub mod lexer;
pub mod model;
pub mod parser;
pub mod token;

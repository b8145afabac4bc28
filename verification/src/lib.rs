//! A scanner for a minimal C-like language: the keywords `int`, `void` and
//! `return`, identifiers, integer constants, parentheses, braces, the
//! semicolon and whitespace.

pub mod decimal;
pub mod glyph;
pub mod grammar;
pub mod laws;
pub mod lexer;
pub mod token;

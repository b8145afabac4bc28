//! Tokens: the classified units of source text.

use crate::decimal::{decimal_len, decimal_text, push_decimal};
use vstd::prelude::*;
use vstd::std_specs::cmp::PartialEqSpecImpl;

verus! {

/// A token as a mathematical value: the model of [`TokenTypes`].
pub enum Token {
    /// A run of whitespace and its length.
    Whitespace(nat),
    /// A decimal integer literal and its value.
    Constant(int),
    /// The keyword `int`.
    IntKeyword,
    /// The keyword `void`.
    VoidKeyword,
    /// The keyword `return`.
    ReturnKeyword,
    /// An identifier and its text.
    Identifier(Seq<char>),
    /// `(`
    OpenParen,
    /// `)`
    CloseParen,
    /// `{`
    OpenBrace,
    /// `}`
    CloseBrace,
    /// `;`
    Semicolon,
    /// No token: the text has ended or starts with a character that begins
    /// no token.
    Empty,
}

impl Token {
    /// The number of characters of source text that the token accounts for.
    ///
    /// It is read off the token alone. A keyword counts its letters, not the
    /// character that ends it; a constant counts the characters of its value
    /// written out in decimal, whatever the source spelled.
    pub open spec fn consumed(self) -> nat {
        match self {
            Token::Whitespace(n) => n,
            Token::Constant(i) => decimal_text(i).len(),
            Token::IntKeyword => 3,
            Token::VoidKeyword => 4,
            Token::ReturnKeyword => 6,
            Token::Identifier(s) => s.len(),
            Token::OpenParen => 1,
            Token::CloseParen => 1,
            Token::OpenBrace => 1,
            Token::CloseBrace => 1,
            Token::Semicolon => 1,
            Token::Empty => 0,
        }
    }

    /// The human-readable rendering of the token: the name of its kind, and
    /// for a constant or an identifier a colon, a space and the payload.
    pub open spec fn label(self) -> Seq<char> {
        match self {
            Token::Whitespace(_) => "Whitespace"@,
            Token::Constant(i) => "Constant: "@ + decimal_text(i),
            Token::IntKeyword => "IntKeyword"@,
            Token::VoidKeyword => "VoidKeyword"@,
            Token::ReturnKeyword => "ReturnKeyword"@,
            Token::Identifier(s) => "Identifier: "@ + s,
            Token::OpenParen => "OpenParen"@,
            Token::CloseParen => "CloseParen"@,
            Token::OpenBrace => "OpenBrace"@,
            Token::CloseBrace => "CloseBrace"@,
            Token::Semicolon => "Semicolon"@,
            Token::Empty => "Empty"@,
        }
    }
}

/// The kinds of token that the scanner tells apart.
#[derive(Debug)]
pub enum TokenTypes {
    /// A run of whitespace and its length in characters.
    Whitespace(usize),
    /// A decimal integer literal and its value.
    Constant(isize),
    /// The keyword `int`.
    IntKeyword,
    /// The keyword `void`.
    VoidKeyword,
    /// The keyword `return`.
    ReturnKeyword,
    /// An identifier and its text.
    Identifier(String),
    /// `(`
    OpenParen,
    /// `)`
    CloseParen,
    /// `{`
    OpenBrace,
    /// `}`
    CloseBrace,
    /// `;`
    Semicolon,
    /// No token: the text has ended or starts with a character that begins
    /// no token.
    Empty,
}

impl View for TokenTypes {
    type V = Token;

    open spec fn view(&self) -> Token {
        match self {
            TokenTypes::Whitespace(n) => Token::Whitespace(*n as nat),
            TokenTypes::Constant(i) => Token::Constant(*i as int),
            TokenTypes::IntKeyword => Token::IntKeyword,
            TokenTypes::VoidKeyword => Token::VoidKeyword,
            TokenTypes::ReturnKeyword => Token::ReturnKeyword,
            TokenTypes::Identifier(s) => Token::Identifier(s@),
            TokenTypes::OpenParen => Token::OpenParen,
            TokenTypes::CloseParen => Token::CloseParen,
            TokenTypes::OpenBrace => Token::OpenBrace,
            TokenTypes::CloseBrace => Token::CloseBrace,
            TokenTypes::Semicolon => Token::Semicolon,
            TokenTypes::Empty => Token::Empty,
        }
    }
}

impl PartialEq for TokenTypes {
    /// Two tokens are equal when they are of one kind and carry the same
    /// payload.
    fn eq(&self, other: &Self) -> (r: bool) {
        match (self, other) {
            (TokenTypes::Whitespace(a), TokenTypes::Whitespace(b)) => *a == *b,
            (TokenTypes::Constant(a), TokenTypes::Constant(b)) => *a == *b,
            (TokenTypes::IntKeyword, TokenTypes::IntKeyword) => true,
            (TokenTypes::VoidKeyword, TokenTypes::VoidKeyword) => true,
            (TokenTypes::ReturnKeyword, TokenTypes::ReturnKeyword) => true,
            (TokenTypes::Identifier(a), TokenTypes::Identifier(b)) => *a == *b,
            (TokenTypes::OpenParen, TokenTypes::OpenParen) => true,
            (TokenTypes::CloseParen, TokenTypes::CloseParen) => true,
            (TokenTypes::OpenBrace, TokenTypes::OpenBrace) => true,
            (TokenTypes::CloseBrace, TokenTypes::CloseBrace) => true,
            (TokenTypes::Semicolon, TokenTypes::Semicolon) => true,
            (TokenTypes::Empty, TokenTypes::Empty) => true,
            _ => false,
        }
    }
}

impl PartialEqSpecImpl for TokenTypes {
    open spec fn obeys_eq_spec() -> bool {
        true
    }

    open spec fn eq_spec(&self, other: &Self) -> bool {
        self@ == other@
    }
}

impl TokenTypes {
    /// The number of characters of source text that the token accounts for.
    pub fn consumed(&self) -> (n: usize)
        ensures
            n == self@.consumed(),
    {
        match self {
            TokenTypes::Whitespace(n) => *n,
            TokenTypes::Constant(i) => decimal_len(*i),
            TokenTypes::IntKeyword => 3,
            TokenTypes::VoidKeyword => 4,
            TokenTypes::ReturnKeyword => 6,
            TokenTypes::Identifier(s) => s.as_str().unicode_len(),
            TokenTypes::OpenParen => 1,
            TokenTypes::CloseParen => 1,
            TokenTypes::OpenBrace => 1,
            TokenTypes::CloseBrace => 1,
            TokenTypes::Semicolon => 1,
            TokenTypes::Empty => 0,
        }
    }

    /// Renders the token for a human reader.
    pub fn to_string(&self) -> (text: String)
        ensures
            text@ == self@.label(),
    {
        match self {
            TokenTypes::Whitespace(_) => String::from_str("Whitespace"),
            TokenTypes::Constant(i) => {
                let mut text = String::from_str("Constant: ");
                push_decimal(&mut text, *i);
                text
            },
            TokenTypes::IntKeyword => String::from_str("IntKeyword"),
            TokenTypes::VoidKeyword => String::from_str("VoidKeyword"),
            TokenTypes::ReturnKeyword => String::from_str("ReturnKeyword"),
            TokenTypes::Identifier(s) => {
                let mut text = String::from_str("Identifier: ");
                text.append(s.as_str());
                text
            },
            TokenTypes::OpenParen => String::from_str("OpenParen"),
            TokenTypes::CloseParen => String::from_str("CloseParen"),
            TokenTypes::OpenBrace => String::from_str("OpenBrace"),
            TokenTypes::CloseBrace => String::from_str("CloseBrace"),
            TokenTypes::Semicolon => String::from_str("Semicolon"),
            TokenTypes::Empty => String::from_str("Empty"),
        }
    }
}

/// The models of a sequence of tokens, in order.
pub open spec fn models(tokens: Seq<TokenTypes>) -> Seq<Token> {
    Seq::new(tokens.len(), |i: int| tokens[i]@)
}

} // verus!

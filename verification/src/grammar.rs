//! The scanning rules, as functions on sequences of classified characters.

use crate::decimal::{
    all_decimal_digits, decimal_digits, decimal_value, lemma_rendering_fits_run,
};
use crate::glyph::{text_of, Class, Glyph};
use crate::token::Token;
use vstd::prelude::*;

verus! {

/// The length of the longest run of glyphs of `class` at the start of `s`.
pub open spec fn run_len(s: Seq<Glyph>, class: Class) -> nat
    decreases s.len(),
{
    if s.len() > 0 && s[0].has(class) {
        1 + run_len(s.drop_first(), class)
    } else {
        0
    }
}

/// The characters of the longest run of glyphs of `class` at the start of `s`.
pub open spec fn run_text(s: Seq<Glyph>, class: Class) -> Seq<char> {
    text_of(s.take(run_len(s, class) as int))
}

/// The characters of `s` begin with `word`.
pub open spec fn starts_with(s: Seq<Glyph>, word: Seq<char>) -> bool {
    word.is_prefix_of(text_of(s))
}

/// One of the ASCII punctuation characters: `!` to `/`, `:` to `@`, `[` to
/// `` ` ``, `{` to `~`.
pub open spec fn is_ascii_punctuation(c: char) -> bool {
    ||| '!' <= c <= '/'
    ||| ':' <= c <= '@'
    ||| '[' <= c <= '`'
    ||| '{' <= c <= '~'
}

/// The token of a punctuation character; `Empty` for one that the language
/// does not use.
pub open spec fn punctuation(c: char) -> Token {
    if c == '{' {
        Token::OpenBrace
    } else if c == '(' {
        Token::OpenParen
    } else if c == '}' {
        Token::CloseBrace
    } else if c == ')' {
        Token::CloseParen
    } else if c == ';' {
        Token::Semicolon
    } else {
        Token::Empty
    }
}

/// The token of a text that starts with a letter: a keyword where the text
/// starts with the keyword and the character that must follow it, else the
/// identifier made of the leading letters and numeric characters.
pub open spec fn word(s: Seq<Glyph>) -> Token {
    if starts_with(s, "void "@) {
        Token::VoidKeyword
    } else if starts_with(s, "int "@) {
        Token::IntKeyword
    } else if starts_with(s, "return "@) || starts_with(s, "return;"@) {
        Token::ReturnKeyword
    } else {
        Token::Identifier(run_text(s, Class::Alphanumeric))
    }
}

/// The token that starts the text `s`, decided by its first glyph: a run of
/// whitespace, a keyword or an identifier, a constant, a punctuation sign, in
/// this order of precedence; `Empty` where the text is empty or its first
/// character starts none of these.
pub open spec fn classify(s: Seq<Glyph>) -> Token {
    if s.len() == 0 {
        Token::Empty
    } else if s[0].whitespace {
        Token::Whitespace(run_len(s, Class::Whitespace))
    } else if s[0].alphabetic {
        word(s)
    } else if s[0].numeric {
        Token::Constant(decimal_value(run_text(s, Class::Numeric)))
    } else if is_ascii_punctuation(s[0].ch) {
        punctuation(s[0].ch)
    } else {
        Token::Empty
    }
}

/// The text `s` starts with a constant.
pub open spec fn starts_constant(s: Seq<Glyph>) -> bool {
    s.len() > 0 && !s[0].whitespace && !s[0].alphabetic && s[0].numeric
}

/// The token that starts `s` can be represented: where it is a constant, its
/// numeric run is made of the digits `0` to `9` and its value fits an `isize`.
pub open spec fn scannable(s: Seq<Glyph>) -> bool {
    starts_constant(s) ==> {
        &&& all_decimal_digits(run_text(s, Class::Numeric))
        &&& decimal_value(run_text(s, Class::Numeric)) <= isize::MAX
    }
}

/// A glyph that starts no token.
pub open spec fn unrecognized(g: Glyph) -> bool {
    &&& !g.whitespace
    &&& !g.alphabetic
    &&& !g.numeric
    &&& g.ch != '{'
    &&& g.ch != '('
    &&& g.ch != '}'
    &&& g.ch != ')'
    &&& g.ch != ';'
}

/// How far the cursor at `pos` is from the end of `s`.
pub open spec fn remaining(s: Seq<Glyph>, pos: nat) -> nat {
    if pos < s.len() {
        (s.len() - pos) as nat
    } else {
        0
    }
}

/// The tokens of `s` from the cursor `pos` on: the token that starts there,
/// then the tokens from where it ends, until the text ends or no token starts
/// at the cursor.
pub open spec fn scan_from(s: Seq<Glyph>, pos: nat) -> Seq<Token>
    decreases remaining(s, pos),
    via scan_from_decreases
{
    if pos >= s.len() {
        Seq::empty()
    } else {
        let token = classify(s.skip(pos as int));
        if token is Empty {
            Seq::empty()
        } else {
            seq![token] + scan_from(s, pos + token.consumed())
        }
    }
}

#[via_fn]
proof fn scan_from_decreases(s: Seq<Glyph>, pos: nat) {
    if pos < s.len() {
        lemma_token_consumes(s.skip(pos as int));
    }
}

/// The tokens of the text `s`.
pub open spec fn scan(s: Seq<Glyph>) -> Seq<Token> {
    scan_from(s, 0)
}

/// Every token that the scan of `s` meets from the cursor `pos` on can be
/// represented.
pub open spec fn lexable_from(s: Seq<Glyph>, pos: nat) -> bool
    decreases remaining(s, pos),
    via lexable_from_decreases
{
    if pos >= s.len() {
        true
    } else if !scannable(s.skip(pos as int)) {
        false
    } else {
        let token = classify(s.skip(pos as int));
        if token is Empty {
            true
        } else {
            lexable_from(s, pos + token.consumed())
        }
    }
}

#[via_fn]
proof fn lexable_from_decreases(s: Seq<Glyph>, pos: nat) {
    if pos < s.len() {
        lemma_token_consumes(s.skip(pos as int));
    }
}

/// Every token that the scan of `s` meets can be represented.
pub open spec fn lexable(s: Seq<Glyph>) -> bool {
    lexable_from(s, 0)
}

/// The characters that a sequence of tokens accounts for.
pub open spec fn consumed_total(tokens: Seq<Token>) -> nat
    decreases tokens.len(),
{
    if tokens.len() == 0 {
        0
    } else {
        tokens[0].consumed() + consumed_total(tokens.drop_first())
    }
}

/// The run of `class` at the start of `s` lies within `s`, is made of glyphs
/// of `class` only, and is maximal: the glyph that follows it, if there is
/// one, is not of `class`.
pub proof fn lemma_run_is_maximal(s: Seq<Glyph>, class: Class)
    ensures
        run_len(s, class) <= s.len(),
        forall|i: int| 0 <= i < run_len(s, class) ==> (#[trigger] s[i]).has(class),
        run_len(s, class) < s.len() ==> !s[run_len(s, class) as int].has(class),
    decreases s.len(),
{
    if s.len() > 0 && s[0].has(class) {
        let rest = s.drop_first();
        lemma_run_is_maximal(rest, class);
        assert forall|i: int| 0 <= i < run_len(s, class) implies (#[trigger] s[i]).has(class) by {
            if i > 0 {
                assert(s[i] == rest[i - 1]);
            }
        }
        if run_len(s, class) < s.len() {
            assert(s[run_len(s, class) as int] == rest[run_len(rest, class) as int]);
        }
    }
}

/// A token other than `Empty` accounts for at least one character.
pub proof fn lemma_token_consumes(s: Seq<Glyph>)
    ensures
        !(classify(s) is Empty) ==> classify(s).consumed() >= 1,
{
    if s.len() > 0 {
        if s[0].whitespace {
        } else if s[0].alphabetic {
            assert(s[0].has(Class::Alphanumeric));
            lemma_run_is_maximal(s, Class::Alphanumeric);
        } else if s[0].numeric {
            let value = decimal_value(run_text(s, Class::Numeric));
            if value >= 0 {
                assert(decimal_digits(value as nat).len() >= 1);
            }
        }
    }
}

/// A token that can be represented accounts for no more characters than the
/// text has.
pub proof fn lemma_token_fits(s: Seq<Glyph>)
    requires
        scannable(s),
    ensures
        classify(s).consumed() <= s.len(),
{
    if s.len() > 0 {
        if s[0].whitespace {
            lemma_run_is_maximal(s, Class::Whitespace);
        } else if s[0].alphabetic {
            reveal_strlit("void ");
            reveal_strlit("int ");
            reveal_strlit("return ");
            reveal_strlit("return;");
            lemma_run_is_maximal(s, Class::Alphanumeric);
        } else if s[0].numeric {
            lemma_run_is_maximal(s, Class::Numeric);
            lemma_rendering_fits_run(run_text(s, Class::Numeric));
        }
    }
}

} // verus!

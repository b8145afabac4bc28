//! Classified characters.
//!
//! The scanner never asks the platform about a character while it decides:
//! each character is classified once, and the scanning rules read the
//! recorded answers. A [`Glyph`] is a character together with those answers.

use vstd::prelude::*;

verus! {

/// The answer of `char::is_whitespace` for `c`: whether `c` has the Unicode
/// property `White_Space`.
pub uninterp spec fn unicode_whitespace(c: char) -> bool;

/// The answer of `char::is_alphabetic` for `c`: whether `c` has the Unicode
/// property `Alphabetic`.
pub uninterp spec fn unicode_alphabetic(c: char) -> bool;

/// The answer of `char::is_numeric` for `c`: whether `c` is in one of the
/// Unicode general categories for numbers (`Nd`, `Nl`, `No`).
pub uninterp spec fn unicode_numeric(c: char) -> bool;

/// Calls `char::is_whitespace`. Trusted: the result is the answer named
/// [`unicode_whitespace`]; nothing is claimed about which characters have it.
#[verifier::external_body]
fn char_is_whitespace(c: char) -> (r: bool)
    ensures
        r == unicode_whitespace(c),
{
    c.is_whitespace()
}

/// Calls `char::is_alphabetic`. Trusted: the result is the answer named
/// [`unicode_alphabetic`]; nothing is claimed about which characters have it.
#[verifier::external_body]
fn char_is_alphabetic(c: char) -> (r: bool)
    ensures
        r == unicode_alphabetic(c),
{
    c.is_alphabetic()
}

/// Calls `char::is_numeric`. Trusted: the result is the answer named
/// [`unicode_numeric`]; nothing is claimed about which characters have it.
#[verifier::external_body]
fn char_is_numeric(c: char) -> (r: bool)
    ensures
        r == unicode_numeric(c),
{
    c.is_numeric()
}

/// A character and its classification.
///
/// The three flags are independent: a character may be both alphabetic and
/// numeric, and the scanning rules settle such overlaps by their order.
#[derive(Clone, Copy, Debug, PartialEq, Eq)]
pub struct Glyph {
    /// The character itself.
    pub ch: char,
    /// The character counts as whitespace.
    pub whitespace: bool,
    /// The character counts as a letter.
    pub alphabetic: bool,
    /// The character counts as a digit or another numeric sign.
    pub numeric: bool,
}

/// The character classes over which the scanner takes runs.
#[derive(Clone, Copy, Debug, PartialEq, Eq)]
pub enum Class {
    /// Whitespace characters.
    Whitespace,
    /// Letters and numeric characters.
    Alphanumeric,
    /// Numeric characters.
    Numeric,
}

impl Glyph {
    /// The glyph of `c` under the platform's Unicode classification.
    pub open spec fn of(c: char) -> Glyph {
        Glyph {
            ch: c,
            whitespace: unicode_whitespace(c),
            alphabetic: unicode_alphabetic(c),
            numeric: unicode_numeric(c),
        }
    }

    /// A letter or a numeric character.
    pub open spec fn alphanumeric(self) -> bool {
        self.alphabetic || self.numeric
    }

    /// Membership of the glyph in `class`.
    pub open spec fn has(self, class: Class) -> bool {
        match class {
            Class::Whitespace => self.whitespace,
            Class::Alphanumeric => self.alphanumeric(),
            Class::Numeric => self.numeric,
        }
    }

    /// Classifies `c` with the platform's Unicode tables.
    pub fn new(c: char) -> (g: Glyph)
        ensures
            g == Glyph::of(c),
    {
        Glyph {
            ch: c,
            whitespace: char_is_whitespace(c),
            alphabetic: char_is_alphabetic(c),
            numeric: char_is_numeric(c),
        }
    }

    /// Tests membership of the glyph in `class`.
    pub fn in_class(&self, class: Class) -> (r: bool)
        ensures
            r == self.has(class),
    {
        match class {
            Class::Whitespace => self.whitespace,
            Class::Alphanumeric => self.alphabetic || self.numeric,
            Class::Numeric => self.numeric,
        }
    }
}

/// The glyphs of a text, character by character.
pub open spec fn glyphs_of(text: Seq<char>) -> Seq<Glyph> {
    Seq::new(text.len(), |i: int| Glyph::of(text[i]))
}

/// The characters of a glyph sequence.
pub open spec fn text_of(glyphs: Seq<Glyph>) -> Seq<char> {
    Seq::new(glyphs.len(), |i: int| glyphs[i].ch)
}

/// Classifying a text keeps its characters.
pub proof fn lemma_glyphs_keep_text(text: Seq<char>)
    ensures
        glyphs_of(text).len() == text.len(),
        text_of(glyphs_of(text)) == text,
{
    assert(text_of(glyphs_of(text)) =~= text);
}

/// Classifies every character of `source`.
pub fn glyphs(source: &str) -> (r: Vec<Glyph>)
    ensures
        r@ == glyphs_of(source@),
{
    let mut out: Vec<Glyph> = Vec::new();
    for c in it: source.chars()
        invariant
            out@ =~= glyphs_of(it.seq().take(it.index() as int)),
    {
        out.push(Glyph::new(c));
    }
    out
}

} // verus!

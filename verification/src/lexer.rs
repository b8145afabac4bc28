//! The scanner: the classifier that finds the token at the start of a text,
//! and the driver that applies it along a whole source.

use crate::decimal::{
    all_decimal_digits, append_digit, decimal_value, lemma_decimal_value_bound,
    lemma_decimal_value_prefix,
};
use crate::glyph::{glyphs, glyphs_of, text_of, unicode_whitespace, Class, Glyph};
use crate::grammar::{
    classify, is_ascii_punctuation, lemma_token_consumes, lemma_token_fits, lexable,
    lexable_from, run_len, run_text, scan, scan_from, scannable, starts_with,
};
use crate::token::{models, Token, TokenTypes};
use vstd::prelude::*;
use vstd::std_specs::iter::IteratorSpec;

verus! {

/// Counts the run of glyphs of `class` that starts at `start`.
pub fn count_run(text: &[Glyph], start: usize, class: Class) -> (n: usize)
    requires
        start <= text@.len(),
    ensures
        n == run_len(text@.skip(start as int), class),
        start + n <= text@.len(),
{
    let mut end: usize = start;
    while end < text.len() && text[end].in_class(class)
        invariant
            start <= end <= text@.len(),
            run_len(text@.skip(start as int), class) == (end - start) + run_len(
                text@.skip(end as int),
                class,
            ),
        decreases text@.len() - end,
    {
        assert(text@.skip(end as int).drop_first() =~= text@.skip(end + 1));
        end += 1;
    }
    end - start
}

/// Tests whether the characters from `start` on begin with `word`.
fn has_word(text: &[Glyph], start: usize, word: &str) -> (r: bool)
    requires
        start <= text@.len(),
    ensures
        r == starts_with(text@.skip(start as int), word@),
{
    let ghost rest = text_of(text@.skip(start as int));
    let mut at: usize = start;
    for c in it: word.chars()
        invariant
            it.seq() == word@,
            at == start + it.index(),
            at <= text@.len(),
            rest == text_of(text@.skip(start as int)),
            forall|j: int| 0 <= j < it.index() ==> rest[j] == word@[j],
    {
        if at >= text.len() || text[at].ch != c {
            return false;
        }
        at += 1;
    }
    assert(rest.subrange(0, word@.len() as int) =~= word@);
    true
}

/// Copies the `n` characters from `start` on into a string.
fn collect_text(text: &[Glyph], start: usize, n: usize) -> (r: String)
    requires
        start + n <= text@.len(),
    ensures
        r@ == text_of(text@.skip(start as int).take(n as int)),
{
    let len = text.len();
    let mut out = String::new();
    let mut i: usize = 0;
    while i < n
        invariant
            i <= n,
            start + n <= len == text@.len(),
            out@ == text_of(text@.skip(start as int).take(i as int)),
        decreases n - i,
    {
        out.push(text[start + i].ch);
        i += 1;
        assert(out@ =~= text_of(text@.skip(start as int).take(i as int)));
    }
    out
}

/// Reads the `n` characters from `start` on as a decimal number: its value,
/// unless one of them is no decimal digit or the value does not fit.
fn parse_run(text: &[Glyph], start: usize, n: usize) -> (r: Option<isize>)
    requires
        start + n <= text@.len(),
    ensures
        r == ({
            let digits = text_of(text@.skip(start as int).take(n as int));
            if all_decimal_digits(digits) && decimal_value(digits) <= isize::MAX {
                Some(decimal_value(digits) as isize)
            } else {
                None
            }
        }),
{
    let ghost digits = text_of(text@.skip(start as int).take(n as int));
    let len = text.len();
    let mut value: isize = 0;
    let mut i: usize = 0;
    while i < n
        invariant
            i <= n,
            start + n <= len == text@.len(),
            digits == text_of(text@.skip(start as int).take(n as int)),
            all_decimal_digits(digits.take(i as int)),
            value == decimal_value(digits.take(i as int)),
            value >= 0,
        decreases n - i,
    {
        let c = text[start + i].ch;
        assert(c == digits[i as int]);
        assert(digits.take(i + 1).drop_last() =~= digits.take(i as int));
        match append_digit(value, c) {
            Some(longer) => {
                value = longer;
            },
            None => {
                proof {
                    if all_decimal_digits(digits) {
                        lemma_decimal_value_prefix(digits, i + 1);
                    }
                }
                return None;
            },
        }
        i += 1;
        proof {
            lemma_decimal_value_bound(digits.take(i as int));
        }
    }
    assert(digits.take(n as int) =~= digits);
    Some(value)
}

/// Tests whether `c` is an ASCII punctuation character.
fn ascii_punctuation(c: char) -> (r: bool)
    ensures
        r == is_ascii_punctuation(c),
{
    ('!' <= c && c <= '/') || (':' <= c && c <= '@') || ('[' <= c && c <= '`') || ('{' <= c && c
        <= '~')
}

/// Tests whether the token that starts at `start` can be represented.
pub fn scannable_at(text: &[Glyph], start: usize) -> (r: bool)
    requires
        start <= text@.len(),
    ensures
        r == scannable(text@.skip(start as int)),
{
    if start >= text.len() {
        return true;
    }
    let first = text[start];
    if first.whitespace || first.alphabetic || !first.numeric {
        return true;
    }
    let n = count_run(text, start, Class::Numeric);
    parse_run(text, start, n).is_some()
}

/// Classifies the token that starts at `start`.
pub fn scan_at(text: &[Glyph], start: usize) -> (token: TokenTypes)
    requires
        start <= text@.len(),
        scannable(text@.skip(start as int)),
    ensures
        token@ == classify(text@.skip(start as int)),
{
    if start >= text.len() {
        return TokenTypes::Empty;
    }
    let first = text[start];
    if first.whitespace {
        TokenTypes::Whitespace(count_run(text, start, Class::Whitespace))
    } else if first.alphabetic {
        if has_word(text, start, "void ") {
            TokenTypes::VoidKeyword
        } else if has_word(text, start, "int ") {
            TokenTypes::IntKeyword
        } else if has_word(text, start, "return ") || has_word(text, start, "return;") {
            TokenTypes::ReturnKeyword
        } else {
            let n = count_run(text, start, Class::Alphanumeric);
            TokenTypes::Identifier(collect_text(text, start, n))
        }
    } else if first.numeric {
        let n = count_run(text, start, Class::Numeric);
        proof {
            lemma_decimal_value_bound(run_text(text@.skip(start as int), Class::Numeric));
        }
        TokenTypes::Constant(parse_run(text, start, n).unwrap())
    } else if ascii_punctuation(first.ch) {
        if first.ch == '{' {
            TokenTypes::OpenBrace
        } else if first.ch == '(' {
            TokenTypes::OpenParen
        } else if first.ch == '}' {
            TokenTypes::CloseBrace
        } else if first.ch == ')' {
            TokenTypes::CloseParen
        } else if first.ch == ';' {
            TokenTypes::Semicolon
        } else {
            TokenTypes::Empty
        }
    } else {
        TokenTypes::Empty
    }
}

/// Tests whether every token that the scan of `text` meets can be
/// represented.
pub fn lexable_glyphs(text: &[Glyph]) -> (r: bool)
    ensures
        r == lexable(text@),
{
    let len = text.len();
    let mut pointer: usize = 0;
    while pointer < len
        invariant
            pointer <= len == text@.len(),
            lexable(text@) == lexable_from(text@, pointer as nat),
        ensures
            lexable(text@),
        decreases len - pointer,
    {
        if !scannable_at(text, pointer) {
            return false;
        }
        let token = scan_at(text, pointer);
        if matches!(token, TokenTypes::Empty) {
            break ;
        }
        proof {
            lemma_token_consumes(text@.skip(pointer as int));
            lemma_token_fits(text@.skip(pointer as int));
        }
        pointer += token.consumed();
    }
    true
}

/// Scans the whole of `text`: the tokens in source order, up to the end of
/// the text or to the first character that starts no token.
pub fn lex_glyphs(text: &[Glyph]) -> (tokens: Vec<TokenTypes>)
    requires
        lexable(text@),
    ensures
        models(tokens@) == scan(text@),
{
    let len = text.len();
    let mut pointer: usize = 0;
    let mut tokens: Vec<TokenTypes> = Vec::new();
    assert(models(tokens@) =~= Seq::<Token>::empty());
    while pointer < len
        invariant
            pointer <= len == text@.len(),
            lexable_from(text@, pointer as nat),
            scan(text@) == models(tokens@) + scan_from(text@, pointer as nat),
        ensures
            models(tokens@) == scan(text@),
        decreases len - pointer,
    {
        let token = scan_at(text, pointer);
        if matches!(token, TokenTypes::Empty) {
            break ;
        }
        proof {
            lemma_token_consumes(text@.skip(pointer as int));
            lemma_token_fits(text@.skip(pointer as int));
            assert(models(tokens@.push(token)) =~= models(tokens@).push(token@));
            assert(models(tokens@).push(token@) + scan_from(
                text@,
                (pointer + token@.consumed()) as nat,
            ) =~= models(tokens@) + scan_from(text@, pointer as nat));
        }
        pointer += token.consumed();
        tokens.push(token);
    }
    tokens
}

/// Classifies the token at the start of `source`.
pub fn mad_scan(source: &str) -> (token: TokenTypes)
    requires
        scannable(glyphs_of(source@)),
    ensures
        token@ == classify(glyphs_of(source@)),
{
    let text = glyphs(source);
    assert(text@.skip(0) =~= text@);
    scan_at(text.as_slice(), 0)
}

/// Classifies the token at the start of `source`, or returns `None` where
/// that token is a constant that cannot be represented.
pub fn try_mad_scan(source: &str) -> (r: Option<TokenTypes>)
    ensures
        r is Some <==> scannable(glyphs_of(source@)),
        r is Some ==> r->0@ == classify(glyphs_of(source@)),
{
    let text = glyphs(source);
    assert(text@.skip(0) =~= text@);
    if scannable_at(text.as_slice(), 0) {
        Some(mad_scan(source))
    } else {
        None
    }
}

/// Scans the whole of `source`: the tokens in source order, up to the end of
/// the text or to the first character that starts no token.
pub fn lexer(source: &str) -> (tokens: Vec<TokenTypes>)
    requires
        lexable(glyphs_of(source@)),
    ensures
        models(tokens@) == scan(glyphs_of(source@)),
{
    let text = glyphs(source);
    lex_glyphs(text.as_slice())
}

/// Scans the whole of `source`, or returns `None` where the scan meets a
/// constant that cannot be represented.
pub fn try_lexer(source: &str) -> (r: Option<Vec<TokenTypes>>)
    ensures
        r is Some <==> lexable(glyphs_of(source@)),
        r is Some ==> models(r->0@) == scan(glyphs_of(source@)),
{
    let text = glyphs(source);
    if lexable_glyphs(text.as_slice()) {
        Some(lexer(source))
    } else {
        None
    }
}

/// Probes the start of `source` for whitespace: whether the first character
/// is whitespace, and the length of the whitespace run that starts there (zero
/// where there is none).
pub fn scan_for_whitespace(source: &str) -> (r: (bool, i64))
    requires
        source@.len() > 0,
    ensures
        r.0 == unicode_whitespace(source@[0]),
        r.0 ==> r.1 == run_len(glyphs_of(source@), Class::Whitespace) as i64,
        !r.0 ==> r.1 == 0,
{
    let text = glyphs(source);
    assert(text@.skip(0) =~= text@);
    if text[0].whitespace {
        let n = count_run(text.as_slice(), 0, Class::Whitespace);
        (true, n as i64)
    } else {
        (false, 0)
    }
}

/// Tests whether `source` begins with `word`.
fn begins_with(source: &str, word: &str) -> (r: bool)
    ensures
        r == word@.is_prefix_of(source@),
{
    let mut rest = source.chars();
    for c in it: word.chars()
        invariant
            it.seq() == word@,
            rest.remaining() == source@.skip(it.index() as int),
            it.index() <= source@.len(),
            forall|j: int| 0 <= j < it.index() ==> source@[j] == word@[j],
    {
        match rest.next() {
            Some(d) => {
                if d != c {
                    return false;
                }
            },
            None => {
                return false;
            },
        }
    }
    assert(source@.subrange(0, word@.len() as int) =~= word@);
    true
}

/// Tests whether `source` begins with the keyword `void` followed by a space.
pub fn scan_for_void(source: &str) -> (r: bool)
    ensures
        r == "void "@.is_prefix_of(source@),
{
    begins_with(source, "void ")
}

} // verus!

//! What holds of the scanning rules on every text.

use crate::decimal::{decimal_text, decimal_value, lemma_canonical_digits_are_kept};
use crate::glyph::{glyphs_of, text_of, Class, Glyph};
use crate::grammar::{
    classify, consumed_total, lemma_run_is_maximal, lemma_token_consumes, lemma_token_fits,
    lexable, lexable_from, remaining, run_len, run_text, scan, scan_from, scannable, starts_with,
    unrecognized,
};
use crate::token::Token;
use vstd::prelude::*;

verus! {

/// Classification is a function of the text: whatever two calls of the
/// classifier on one text return, the two tokens are the same.
pub proof fn lemma_classification_is_deterministic(text: Seq<char>, first: Token, second: Token)
    requires
        first == classify(glyphs_of(text)),
        second == classify(glyphs_of(text)),
    ensures
        first == second,
{
}

/// No token starts a text exactly when the text is empty or its first
/// character is one that starts no token.
pub proof fn lemma_empty_means_unrecognized(s: Seq<Glyph>)
    ensures
        classify(s) is Empty <==> s.len() == 0 || unrecognized(s[0]),
{
}

/// Keywords take precedence over identifiers. A text that starts with a
/// letter is the keyword `void`, `int` or `return` where it begins with
/// `void `, `int `, or one of `return ` and `return;`; every other such text
/// is an identifier.
pub proof fn lemma_keyword_precedence(s: Seq<Glyph>)
    requires
        s.len() > 0,
        !s[0].whitespace,
        s[0].alphabetic,
    ensures
        starts_with(s, "void "@) ==> classify(s) == Token::VoidKeyword,
        starts_with(s, "int "@) ==> classify(s) == Token::IntKeyword,
        starts_with(s, "return "@) || starts_with(s, "return;"@) ==> classify(s)
            == Token::ReturnKeyword,
        !starts_with(s, "void "@) && !starts_with(s, "int "@) && !starts_with(s, "return "@)
            && !starts_with(s, "return;"@) ==> classify(s) is Identifier,
{
    reveal_strlit("void ");
    reveal_strlit("int ");
    reveal_strlit("return ");
    reveal_strlit("return;");
    let text = text_of(s);
    if starts_with(s, "void "@) {
        assert(text[0] == "void "@[0]);
    }
    if starts_with(s, "int "@) {
        assert(text[0] == "int "@[0]);
    }
    if starts_with(s, "return "@) {
        assert(text[0] == "return "@[0]);
    }
    if starts_with(s, "return;"@) {
        assert(text[0] == "return;"@[0]);
    }
}

/// A whitespace token counts the whole run of whitespace at the start of the
/// text and nothing after it: the run is not empty, every character of it is
/// whitespace, and the character that follows it, if any, is not.
pub proof fn lemma_whitespace_is_maximal(s: Seq<Glyph>)
    requires
        classify(s) is Whitespace,
    ensures
        ({
            let n = classify(s)->Whitespace_0;
            &&& 1 <= n <= s.len()
            &&& forall|i: int| 0 <= i < n ==> (#[trigger] s[i]).whitespace
            &&& n < s.len() ==> !s[n as int].whitespace
        }),
{
    lemma_run_is_maximal(s, Class::Whitespace);
    assert(s[0].has(Class::Whitespace));
    assert forall|i: int| 0 <= i < run_len(s, Class::Whitespace) implies (
    #[trigger] s[i]).whitespace by {
        assert(s[i].has(Class::Whitespace));
    }
}

/// An identifier is the whole run of letters and numeric characters at the
/// start of the text: it is not empty, it ends before the first character
/// that is neither, and its text is the text of that run.
pub proof fn lemma_identifier_is_maximal(s: Seq<Glyph>)
    requires
        classify(s) is Identifier,
    ensures
        ({
            let name = classify(s)->Identifier_0;
            let n = name.len();
            &&& 1 <= n <= s.len()
            &&& name == text_of(s.take(n as int))
            &&& forall|i: int| 0 <= i < n ==> (#[trigger] s[i]).alphanumeric()
            &&& n < s.len() ==> !s[n as int].alphanumeric()
        }),
{
    lemma_run_is_maximal(s, Class::Alphanumeric);
    assert(s[0].has(Class::Alphanumeric));
    assert forall|i: int| 0 <= i < run_len(s, Class::Alphanumeric) implies (
    #[trigger] s[i]).alphanumeric() by {
        assert(s[i].has(Class::Alphanumeric));
    }
}

/// A constant is read from the whole run of numeric characters at the start
/// of the text: the run is not empty, it ends before the first character that
/// is not numeric, and the constant is the decimal value of its text.
pub proof fn lemma_constant_is_maximal(s: Seq<Glyph>)
    requires
        classify(s) is Constant,
    ensures
        ({
            let n = run_len(s, Class::Numeric);
            &&& 1 <= n <= s.len()
            &&& classify(s)->Constant_0 == decimal_value(text_of(s.take(n as int)))
            &&& forall|i: int| 0 <= i < n ==> (#[trigger] s[i]).numeric
            &&& n < s.len() ==> !s[n as int].numeric
        }),
{
    lemma_run_is_maximal(s, Class::Numeric);
    assert(s[0].has(Class::Numeric));
    assert forall|i: int| 0 <= i < run_len(s, Class::Numeric) implies (#[trigger] s[i]).numeric by {
        assert(s[i].has(Class::Numeric));
    }
}

/// A constant accounts for its whole numeric run where the run is written
/// without a leading zero; the text it accounts for is then the run itself.
pub proof fn lemma_constant_consumes_run(s: Seq<Glyph>)
    requires
        classify(s) is Constant,
        scannable(s),
        run_len(s, Class::Numeric) == 1 || s[0].ch != '0',
    ensures
        classify(s).consumed() == run_len(s, Class::Numeric),
        decimal_text(classify(s)->Constant_0) == run_text(s, Class::Numeric),
{
    lemma_run_is_maximal(s, Class::Numeric);
    assert(s[0].has(Class::Numeric));
    lemma_canonical_digits_are_kept(run_text(s, Class::Numeric));
}

/// From a cursor within a text whose tokens can all be represented, the scan
/// stays within the text and ends where no token starts.
proof fn lemma_scan_from_covers(s: Seq<Glyph>, pos: nat)
    requires
        pos <= s.len(),
        lexable_from(s, pos),
    ensures
        pos + consumed_total(scan_from(s, pos)) <= s.len(),
        classify(s.skip((pos + consumed_total(scan_from(s, pos))) as int)) is Empty,
        forall|i: int| 0 <= i < scan_from(s, pos).len() ==> !(#[trigger] scan_from(s, pos)[i] is Empty),
    decreases remaining(s, pos),
{
    if pos < s.len() {
        let token = classify(s.skip(pos as int));
        if !(token is Empty) {
            lemma_token_consumes(s.skip(pos as int));
            lemma_token_fits(s.skip(pos as int));
            let next = pos + token.consumed();
            lemma_scan_from_covers(s, next);
            assert(scan_from(s, pos).drop_first() =~= scan_from(s, next));
        }
    }
}

/// The tokens of a text account, one after the other, for a prefix of it: the
/// characters they consume add up to no more than the text has, and what is
/// left is empty or starts with a character that starts no token. No token of
/// the result is `Empty`.
pub proof fn lemma_scan_covers_prefix(s: Seq<Glyph>)
    requires
        lexable(s),
    ensures
        consumed_total(scan(s)) <= s.len(),
        consumed_total(scan(s)) == s.len() || unrecognized(s[consumed_total(scan(s)) as int]),
        forall|i: int| 0 <= i < scan(s).len() ==> !(#[trigger] scan(s)[i] is Empty),
{
    lemma_scan_from_covers(s, 0);
    lemma_empty_means_unrecognized(s.skip(consumed_total(scan(s)) as int));
}

} // verus!

use minic_lexer::lexer::{lexer, mad_scan, try_lexer, try_mad_scan};
use minic_lexer::token::TokenTypes;

fn ident(name: &str) -> TokenTypes {
    TokenTypes::Identifier(String::from(name))
}

#[test]
fn scans_a_small_program() {
    let tokens = lexer("int main() { return 365; }");
    let expected = vec![
        TokenTypes::IntKeyword,
        TokenTypes::Whitespace(1),
        ident("main"),
        TokenTypes::OpenParen,
        TokenTypes::CloseParen,
        TokenTypes::Whitespace(1),
        TokenTypes::OpenBrace,
        TokenTypes::Whitespace(1),
        TokenTypes::ReturnKeyword,
        TokenTypes::Whitespace(1),
        TokenTypes::Constant(365),
        TokenTypes::Semicolon,
        TokenTypes::Whitespace(1),
        TokenTypes::CloseBrace,
    ];
    assert_eq!(tokens, expected);
}

#[test]
fn stops_at_an_unrecognized_character() {
    let tokens = lexer("int x #");
    let expected = vec![
        TokenTypes::IntKeyword,
        TokenTypes::Whitespace(1),
        ident("x"),
        TokenTypes::Whitespace(1),
    ];
    assert_eq!(tokens, expected);
}

#[test]
fn nothing_after_an_unrecognized_character_is_scanned() {
    assert_eq!(lexer("# int x"), Vec::<TokenTypes>::new());
    assert_eq!(lexer("x=1"), vec![ident("x")]);
}

#[test]
fn empty_source_has_no_tokens() {
    assert_eq!(lexer(""), Vec::<TokenTypes>::new());
    assert_eq!(mad_scan(""), TokenTypes::Empty);
}

#[test]
fn no_token_of_the_result_is_empty() {
    for token in lexer("void f() { return 0; } @ int") {
        assert_ne!(token, TokenTypes::Empty);
    }
}

#[test]
fn consumed_lengths_add_up_to_a_prefix() {
    for source in ["int main() { return 365; }", "int x #", "   ", "", "007;", "a1 b2\t\n(", "$"] {
        let total: usize = lexer(source).iter().map(|t| t.consumed()).sum();
        let length = source.chars().count();
        assert!(total <= length);
        let rest: String = source.chars().skip(total).collect();
        assert_eq!(mad_scan(&rest), TokenTypes::Empty);
    }
}

#[test]
fn classification_is_repeatable() {
    for source in ["void f", "365 days", "  x", "name;", "{", "#", ""] {
        assert_eq!(mad_scan(source), mad_scan(source));
    }
}

#[test]
fn void_keyword_needs_its_space() {
    assert_eq!(mad_scan("void main"), TokenTypes::VoidKeyword);
    assert_eq!(mad_scan("voidx main"), ident("voidx"));
    assert_eq!(mad_scan("void"), ident("void"));
    assert_eq!(mad_scan("void;"), ident("void"));
    assert_eq!(mad_scan("v"), ident("v"));
}

#[test]
fn int_keyword_needs_its_space() {
    assert_eq!(mad_scan("int x"), TokenTypes::IntKeyword);
    assert_eq!(mad_scan("int"), ident("int"));
    assert_eq!(mad_scan("integer x"), ident("integer"));
    assert_eq!(mad_scan("int\tx"), ident("int"));
    assert_eq!(mad_scan("i"), ident("i"));
}

#[test]
fn return_keyword_ends_with_space_or_semicolon() {
    assert_eq!(mad_scan("return;"), TokenTypes::ReturnKeyword);
    assert_eq!(mad_scan("return 32;"), TokenTypes::ReturnKeyword);
    assert_eq!(mad_scan("return"), ident("return"));
    assert_eq!(mad_scan("return("), ident("return"));
    assert_eq!(mad_scan("returned "), ident("returned"));
    assert_eq!(mad_scan("r"), ident("r"));
}

#[test]
fn keyword_leaves_its_terminator_for_the_next_token() {
    assert_eq!(
        lexer("return;"),
        vec![TokenTypes::ReturnKeyword, TokenTypes::Semicolon]
    );
    assert_eq!(
        lexer("void f"),
        vec![TokenTypes::VoidKeyword, TokenTypes::Whitespace(1), ident("f")]
    );
}

#[test]
fn whitespace_run_is_maximal() {
    assert_eq!(mad_scan("   x"), TokenTypes::Whitespace(3));
    assert_eq!(mad_scan(" \t\n\r x y"), TokenTypes::Whitespace(5));
    assert_eq!(mad_scan(" "), TokenTypes::Whitespace(1));
    assert_eq!(mad_scan(" x  "), TokenTypes::Whitespace(1));
}

#[test]
fn numeric_run_is_maximal() {
    assert_eq!(mad_scan("365 days"), TokenTypes::Constant(365));
    assert_eq!(mad_scan("0"), TokenTypes::Constant(0));
    assert_eq!(mad_scan("12ab"), TokenTypes::Constant(12));
    assert_eq!(mad_scan("42;"), TokenTypes::Constant(42));
}

#[test]
fn identifier_stops_at_first_other_character() {
    assert_eq!(mad_scan("variable123 = 10"), ident("variable123"));
    assert_eq!(mad_scan("a_b"), ident("a"));
    assert_eq!(mad_scan("a-b"), ident("a"));
    assert_eq!(mad_scan("x1y2z3("), ident("x1y2z3"));
}

#[test]
fn punctuation_signs() {
    assert_eq!(mad_scan("{"), TokenTypes::OpenBrace);
    assert_eq!(mad_scan("}"), TokenTypes::CloseBrace);
    assert_eq!(mad_scan("("), TokenTypes::OpenParen);
    assert_eq!(mad_scan(")"), TokenTypes::CloseParen);
    assert_eq!(mad_scan(";"), TokenTypes::Semicolon);
    assert_eq!(mad_scan("){"), TokenTypes::CloseParen);
}

#[test]
fn other_characters_start_no_token() {
    for source in ["#", "=", "+1", "-1", "_a", "\"s\"", "[", "~", "\u{1F49D}", "\u{0}"] {
        assert_eq!(mad_scan(source), TokenTypes::Empty);
    }
}

#[test]
fn zero_padded_constant_is_rescanned() {
    assert_eq!(
        lexer("007"),
        vec![
            TokenTypes::Constant(7),
            TokenTypes::Constant(7),
            TokenTypes::Constant(7)
        ]
    );
    assert_eq!(
        lexer("00"),
        vec![TokenTypes::Constant(0), TokenTypes::Constant(0)]
    );
}

#[test]
fn letters_and_spaces_beyond_ascii() {
    assert_eq!(mad_scan("\u{e9}t\u{e9}1 x"), ident("\u{e9}t\u{e9}1"));
    assert_eq!(mad_scan("\u{a0} x"), TokenTypes::Whitespace(2));
    assert_eq!(
        lexer("\u{a0}\u{e9};"),
        vec![
            TokenTypes::Whitespace(1),
            ident("\u{e9}"),
            TokenTypes::Semicolon
        ]
    );
}

#[test]
fn checked_scan_agrees_on_representable_input() {
    for source in ["void f", "365 days", "  x", "name;", "{", "#", "", "007"] {
        assert_eq!(try_mad_scan(source), Some(mad_scan(source)));
        assert_eq!(try_lexer(source), Some(lexer(source)));
    }
}

#[test]
fn checked_scan_refuses_a_constant_that_does_not_fit() {
    let largest = format!("{}", isize::MAX);
    assert_eq!(try_mad_scan(&largest), Some(TokenTypes::Constant(isize::MAX)));
    let too_large = format!("{}", isize::MAX as u128 + 1);
    assert_eq!(try_mad_scan(&too_large), None);
    assert_eq!(try_mad_scan("99999999999999999999999999999999999999999"), None);
    assert_eq!(try_lexer("return 99999999999999999999999999;"), None);
}

#[test]
fn checked_scan_refuses_a_numeric_character_that_is_no_digit() {
    assert_eq!(try_mad_scan("\u{663}"), None);
    assert_eq!(try_mad_scan("1\u{b2}"), None);
    assert_eq!(try_lexer("x \u{bd};"), None);
}

#[test]
fn checked_lexer_ignores_what_lies_behind_the_stop() {
    assert_eq!(
        try_lexer("x # 99999999999999999999999999"),
        Some(vec![ident("x"), TokenTypes::Whitespace(1)])
    );
}

#[test]
fn leading_zeros_do_not_overflow() {
    let mut source = String::from("0000000000000000000000000000000000000000");
    source.push_str(&format!("{}", isize::MAX));
    assert_eq!(try_mad_scan(&source), Some(TokenTypes::Constant(isize::MAX)));
}

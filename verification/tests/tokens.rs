use minic_lexer::decimal::{append_digit, decimal_len, push_decimal};
use minic_lexer::token::TokenTypes;

#[test]
fn labels_of_plain_tokens() {
    assert_eq!(TokenTypes::Whitespace(4).to_string(), "Whitespace");
    assert_eq!(TokenTypes::IntKeyword.to_string(), "IntKeyword");
    assert_eq!(TokenTypes::VoidKeyword.to_string(), "VoidKeyword");
    assert_eq!(TokenTypes::ReturnKeyword.to_string(), "ReturnKeyword");
    assert_eq!(TokenTypes::OpenParen.to_string(), "OpenParen");
    assert_eq!(TokenTypes::CloseParen.to_string(), "CloseParen");
    assert_eq!(TokenTypes::OpenBrace.to_string(), "OpenBrace");
    assert_eq!(TokenTypes::CloseBrace.to_string(), "CloseBrace");
    assert_eq!(TokenTypes::Semicolon.to_string(), "Semicolon");
    assert_eq!(TokenTypes::Empty.to_string(), "Empty");
}

#[test]
fn labels_with_payload() {
    assert_eq!(TokenTypes::Constant(365).to_string(), "Constant: 365");
    assert_eq!(TokenTypes::Constant(0).to_string(), "Constant: 0");
    assert_eq!(TokenTypes::Constant(-12).to_string(), "Constant: -12");
    assert_eq!(
        TokenTypes::Identifier(String::from("main")).to_string(),
        "Identifier: main"
    );
    assert_eq!(
        TokenTypes::Constant(isize::MAX).to_string(),
        format!("Constant: {}", isize::MAX)
    );
    assert_eq!(
        TokenTypes::Constant(isize::MIN).to_string(),
        format!("Constant: {}", isize::MIN)
    );
}

#[test]
fn consumed_length_of_each_kind() {
    assert_eq!(TokenTypes::Whitespace(4).consumed(), 4);
    assert_eq!(TokenTypes::Constant(365).consumed(), 3);
    assert_eq!(TokenTypes::Constant(0).consumed(), 1);
    assert_eq!(TokenTypes::Constant(-12).consumed(), 3);
    assert_eq!(TokenTypes::IntKeyword.consumed(), 3);
    assert_eq!(TokenTypes::VoidKeyword.consumed(), 4);
    assert_eq!(TokenTypes::ReturnKeyword.consumed(), 6);
    assert_eq!(TokenTypes::Identifier(String::from("main")).consumed(), 4);
    assert_eq!(TokenTypes::Identifier(String::from("\u{e9}t\u{e9}")).consumed(), 3);
    assert_eq!(TokenTypes::OpenParen.consumed(), 1);
    assert_eq!(TokenTypes::CloseParen.consumed(), 1);
    assert_eq!(TokenTypes::OpenBrace.consumed(), 1);
    assert_eq!(TokenTypes::CloseBrace.consumed(), 1);
    assert_eq!(TokenTypes::Semicolon.consumed(), 1);
    assert_eq!(TokenTypes::Empty.consumed(), 0);
}

#[test]
fn tokens_compare_by_kind_and_payload() {
    assert_eq!(TokenTypes::Constant(1), TokenTypes::Constant(1));
    assert_ne!(TokenTypes::Constant(1), TokenTypes::Constant(2));
    assert_ne!(TokenTypes::Constant(1), TokenTypes::Whitespace(1));
    assert_eq!(
        TokenTypes::Identifier(String::from("a")),
        TokenTypes::Identifier(String::from("a"))
    );
    assert_ne!(
        TokenTypes::Identifier(String::from("a")),
        TokenTypes::Identifier(String::from("b"))
    );
    assert_ne!(TokenTypes::OpenParen, TokenTypes::CloseParen);
    assert_ne!(TokenTypes::IntKeyword, TokenTypes::Identifier(String::from("int")));
    assert_eq!(TokenTypes::Empty, TokenTypes::Empty);
}

#[test]
fn decimal_length_matches_the_rendering() {
    for i in [0isize, 1, 9, 10, 99, 100, 365, -1, -9, -10, -365, isize::MAX, isize::MIN] {
        assert_eq!(decimal_len(i), format!("{}", i).len());
    }
}

#[test]
fn decimal_rendering_is_appended() {
    for i in [0isize, 7, 10, 365, 1000, -1, -40, isize::MAX, isize::MIN] {
        let mut out = String::from("n=");
        push_decimal(&mut out, i);
        assert_eq!(out, format!("n={}", i));
    }
}

#[test]
fn digits_extend_a_value() {
    assert_eq!(append_digit(0, '0'), Some(0));
    assert_eq!(append_digit(0, '7'), Some(7));
    assert_eq!(append_digit(36, '5'), Some(365));
    assert_eq!(append_digit(36, 'x'), None);
    assert_eq!(append_digit(36, ' '), None);
    assert_eq!(append_digit(36, '/'), None);
    assert_eq!(append_digit(36, ':'), None);
    assert_eq!(append_digit(3, '\u{663}'), None);
}

#[test]
fn digits_stop_at_the_largest_value() {
    let last = (isize::MAX % 10) as u8;
    let digit = (b'0' + last) as char;
    assert_eq!(append_digit(isize::MAX / 10, digit), Some(isize::MAX));
    let next = (b'0' + last + 1) as char;
    assert_eq!(append_digit(isize::MAX / 10, next), None);
    assert_eq!(append_digit(isize::MAX / 10 + 1, '0'), None);
    assert_eq!(append_digit(isize::MAX, '0'), None);
}

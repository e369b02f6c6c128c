//! The tokenizer, checked against exact token sequences.

use calculator::lexer::tokenize;
use calculator::token::{AddOperator, ExpOperator, MulOperator, Token, TokenValue};

#[test]
fn test_01_blank_input() {
    assert_eq!(
        tokenize("   \n\n \r \t\t\t\t").unwrap(),
        vec![Token::new(TokenValue::Eof, "EOF".to_owned(), 12, 12)]
    );
}

#[test]
fn test_02_numerical_literal() {
    assert_eq!(
        tokenize("9 44.4").unwrap(),
        vec![
            Token::new(TokenValue::Number(9.0f32.to_bits()), "9".to_owned(), 0, 0),
            Token::new(TokenValue::Number(44.4f32.to_bits()), "44.4".to_owned(), 2, 5),
            Token::new(TokenValue::Eof, "EOF".to_owned(), 6, 6)
        ]
    );
}

#[test]
fn test_03_add_operator_literal() {
    assert_eq!(
        tokenize("+-").unwrap(),
        vec![
            Token::new(TokenValue::AddOperator(AddOperator::Add), "+".to_owned(), 0, 0),
            Token::new(TokenValue::AddOperator(AddOperator::Sub), "-".to_owned(), 1, 1),
            Token::new(TokenValue::Eof, "EOF".to_owned(), 2, 2)
        ]
    );
}

#[test]
fn test_04_mul_operator_literal() {
    assert_eq!(
        tokenize("*/%").unwrap(),
        vec![
            Token::new(TokenValue::MulOperator(MulOperator::Mul), "*".to_owned(), 0, 0),
            Token::new(TokenValue::MulOperator(MulOperator::Div), "/".to_owned(), 1, 1),
            Token::new(TokenValue::MulOperator(MulOperator::Mod), "%".to_owned(), 2, 2),
            Token::new(TokenValue::Eof, "EOF".to_owned(), 3, 3)
        ]
    );
}

#[test]
fn test_05_bracket_literal() {
    assert_eq!(
        tokenize("()").unwrap(),
        vec![
            Token::new(TokenValue::OpenBracket, "(".to_owned(), 0, 0),
            Token::new(TokenValue::CloseBracket, ")".to_owned(), 1, 1),
            Token::new(TokenValue::Eof, "EOF".to_owned(), 2, 2)
        ]
    );
}

#[test]
fn test_06_equals_character() {
    assert_eq!(
        tokenize("= 4").unwrap(),
        vec![
            Token::new(TokenValue::Equals, "=".to_owned(), 0, 0),
            Token::new(TokenValue::Number(4.0f32.to_bits()), "4".to_owned(), 2, 2),
            Token::new(TokenValue::Eof, "EOF".to_owned(), 3, 3)
        ]
    );
}

#[test]
fn test_07_identifier() {
    assert_eq!(
        tokenize("Id id123").unwrap(),
        vec![
            Token::new(TokenValue::Identifier("Id".to_owned()), "Id".to_owned(), 0, 1),
            Token::new(TokenValue::Identifier("id123".to_owned()), "id123".to_owned(), 3, 7),
            Token::new(TokenValue::Eof, "EOF".to_owned(), 8, 8)
        ]
    );

    assert_eq!(
        tokenize("4id").unwrap(),
        vec![
            Token::new(TokenValue::Number(4.0f32.to_bits()), "4".to_owned(), 0, 0),
            Token::new(TokenValue::Identifier("id".to_owned()), "id".to_owned(), 1, 2),
            Token::new(TokenValue::Eof, "EOF".to_owned(), 3, 3)
        ]
    );
}

#[test]
fn test_08_invalid_character() {
    match tokenize("<") {
        Err(_) => (),
        _ => panic!(),
    }
}

#[test]
fn lexer_test_09_last_result() {
    assert_eq!(
        tokenize("a$4").unwrap(),
        vec![
            Token::new(TokenValue::Identifier("a".to_owned()), "a".to_owned(), 0, 0),
            Token::new(TokenValue::LastResult, "$".to_owned(), 1, 1),
            Token::new(TokenValue::Number(4.0f32.to_bits()), "4".to_owned(), 2, 2),
            Token::new(TokenValue::Eof, "EOF".to_owned(), 3, 3)
        ]
    );
}

#[test]
fn test_10_exp_operator_literal() {
    assert_eq!(
        tokenize("**//").unwrap(),
        vec![
            Token::new(TokenValue::ExpOperator(ExpOperator::Power), "**".to_owned(), 0, 1),
            Token::new(TokenValue::ExpOperator(ExpOperator::Root), "//".to_owned(), 2, 3),
            Token::new(TokenValue::Eof, "EOF".to_owned(), 4, 4)
        ]
    );
}

#[test]
fn second_decimal_point_ends_the_number() {
    // The number token stops before the second point; the point itself is
    // then rejected as an invalid character, since no token starts with it.
    assert_eq!(
        tokenize("1.2.3").unwrap_err(),
        calculator::error::Error::InvalidCharacter('.', 3)
    );
    assert_eq!(
        tokenize("1.2 3").unwrap(),
        vec![
            Token::new(TokenValue::Number(1.2f32.to_bits()), "1.2".to_owned(), 0, 2),
            Token::new(TokenValue::Number(3.0f32.to_bits()), "3".to_owned(), 4, 4),
            Token::new(TokenValue::Eof, "EOF".to_owned(), 5, 5)
        ]
    );
}

#[test]
fn keyword_token() {
    assert_eq!(
        tokenize("let lets").unwrap(),
        vec![
            Token::new(TokenValue::Let, "let".to_owned(), 0, 2),
            Token::new(TokenValue::Identifier("lets".to_owned()), "lets".to_owned(), 4, 7),
            Token::new(TokenValue::Eof, "EOF".to_owned(), 8, 8)
        ]
    );
}

#[test]
fn invalid_character_position() {
    assert_eq!(tokenize("4 + ?").unwrap_err(), calculator::error::Error::InvalidCharacter('?', 4));
}

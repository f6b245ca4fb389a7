use molgylang::lexer::token::{Token, TokenType};

#[test]
fn test_same_token() {
    let token: Token = Token::new(String::from("Hello"), TokenType::IDENTIFIER);
    let expected_token =
        Token { token_value: String::from("Hello"), token_type: TokenType::IDENTIFIER };
    assert_eq!(token, expected_token);
}

#[test]
fn test_different_token() {
    let token: Token = Token::new(String::from("Hello"), TokenType::IDENTIFIER);
    let expected_token =
        Token { token_value: String::from("World"), token_type: TokenType::IDENTIFIER };
    assert_ne!(token, expected_token);
}

#[test]
fn token_differs_by_kind() {
    let token = Token::new(String::from("1"), TokenType::NUMBER);
    let other = Token::new(String::from("1"), TokenType::IDENTIFIER);
    assert_ne!(token, other);
}

#[test]
fn new_pairs_any_value_with_any_kind() {
    let token = Token::new(String::from("not a number"), TokenType::NUMBER);
    assert_eq!(token.token_value, "not a number");
    assert_eq!(token.token_type, TokenType::NUMBER);
}

#[test]
fn kind_names() {
    assert_eq!(TokenType::ILLEGAL.name(), "ILLEGAL");
    assert_eq!(TokenType::EOF.name(), "EOF");
    assert_eq!(TokenType::IDENTIFIER.name(), "IDENTIFIER");
    assert_eq!(TokenType::NUMBER.name(), "NUMBER");
    assert_eq!(TokenType::ASSIGN.name(), "ASSIGN");
    assert_eq!(TokenType::PLUS.name(), "PLUS");
    assert_eq!(TokenType::COMMA.name(), "COMMA");
    assert_eq!(TokenType::SEMICOLON.name(), "SEMICOLON");
    assert_eq!(TokenType::LPAREN.name(), "LPAREN");
    assert_eq!(TokenType::RPAREN.name(), "RPAREN");
    assert_eq!(TokenType::LCURLY.name(), "LCURLY");
    assert_eq!(TokenType::RCURLY.name(), "RCURLY");
    assert_eq!(TokenType::COLON.name(), "COLON");
    assert_eq!(TokenType::DQUOTES.name(), "DQUOTES");
}

#[test]
fn render_aligns_value_and_kind() {
    let token = Token::new(String::from("print"), TokenType::IDENTIFIER);
    assert_eq!(token.render(), "Value:      print Type:          IDENTIFIER");
    assert_eq!(
        token.render(),
        format!("Value: {:>10} Type:{:>20}", "print", "IDENTIFIER")
    );
}

#[test]
fn render_single_symbol() {
    let token = Token::new(String::from(";"), TokenType::SEMICOLON);
    assert_eq!(token.render(), "Value:          ; Type:           SEMICOLON");
}

#[test]
fn render_keeps_a_wide_value_whole() {
    let token = Token::new(String::from("a_rather_long_name"), TokenType::IDENTIFIER);
    assert_eq!(token.render(), "Value: a_rather_long_name Type:          IDENTIFIER");
}

#[test]
fn render_value_of_exactly_the_column_width() {
    let token = Token::new(String::from("0123456789"), TokenType::NUMBER);
    assert_eq!(token.render(), "Value: 0123456789 Type:              NUMBER");
}

#[test]
fn render_counts_characters_not_bytes() {
    let token = Token::new(String::from("\u{e9}"), TokenType::ILLEGAL);
    assert_eq!(
        token.render(),
        format!("Value: {:>10} Type:{:>20}", "\u{e9}", "ILLEGAL")
    );
    assert_eq!(token.render(), "Value:          \u{e9} Type:             ILLEGAL");
}

#[test]
fn render_empty_value() {
    let token = Token::new(String::new(), TokenType::EOF);
    assert_eq!(token.render(), "Value:            Type:                 EOF");
}

//! The token model: the closed set of token kinds and the value/kind pair.

use vstd::prelude::*;
use vstd::string::*;
use super::text::{push_right_aligned, right_aligned};

verus! {

/// The kind of a token. The set is closed: every byte of input falls under
/// exactly one of these.
#[derive(Debug, PartialEq, Eq, Structural, Clone, Copy)]
pub enum TokenType {
    ILLEGAL,
    EOF,
    // Identifiers and literals
    IDENTIFIER,
    NUMBER,
    // Operators
    ASSIGN,
    PLUS,
    // Delimiters
    COMMA,
    SEMICOLON,
    LPAREN,
    RPAREN,
    LCURLY,
    RCURLY,
    COLON,
    DQUOTES,
}

impl TokenType {
    /// The symbolic name of the kind.
    pub open spec fn spec_name(self) -> Seq<char> {
        match self {
            TokenType::ILLEGAL => "ILLEGAL"@,
            TokenType::EOF => "EOF"@,
            TokenType::IDENTIFIER => "IDENTIFIER"@,
            TokenType::NUMBER => "NUMBER"@,
            TokenType::ASSIGN => "ASSIGN"@,
            TokenType::PLUS => "PLUS"@,
            TokenType::COMMA => "COMMA"@,
            TokenType::SEMICOLON => "SEMICOLON"@,
            TokenType::LPAREN => "LPAREN"@,
            TokenType::RPAREN => "RPAREN"@,
            TokenType::LCURLY => "LCURLY"@,
            TokenType::RCURLY => "RCURLY"@,
            TokenType::COLON => "COLON"@,
            TokenType::DQUOTES => "DQUOTES"@,
        }
    }

    /// The symbolic name of the kind, for display.
    pub fn name(&self) -> (name: &'static str)
        ensures
            name@ == self.spec_name(),
    {
        match self {
            TokenType::ILLEGAL => "ILLEGAL",
            TokenType::EOF => "EOF",
            TokenType::IDENTIFIER => "IDENTIFIER",
            TokenType::NUMBER => "NUMBER",
            TokenType::ASSIGN => "ASSIGN",
            TokenType::PLUS => "PLUS",
            TokenType::COMMA => "COMMA",
            TokenType::SEMICOLON => "SEMICOLON",
            TokenType::LPAREN => "LPAREN",
            TokenType::RPAREN => "RPAREN",
            TokenType::LCURLY => "LCURLY",
            TokenType::RCURLY => "RCURLY",
            TokenType::COLON => "COLON",
            TokenType::DQUOTES => "DQUOTES",
        }
    }
}

/// The least width of a token's value in its rendering.
pub const VALUE_WIDTH: usize = 10;

/// The least width of a kind's name in a token's rendering.
pub const KIND_WIDTH: usize = 20;

/// What a token is to a contract: its text and its kind.
pub struct TokenView {
    pub value: Seq<char>,
    pub kind: TokenType,
}

/// A lexeme together with its kind. Any text may be paired with any kind.
#[derive(Debug, PartialEq)]
pub struct Token {
    pub token_value: String,
    pub token_type: TokenType,
}

impl View for Token {
    type V = TokenView;

    open spec fn view(&self) -> TokenView {
        TokenView { value: self.token_value@, kind: self.token_type }
    }
}

impl Token {
    /// Pairs a value with a kind, unchecked.
    pub fn new(token_value: String, token_type: TokenType) -> (token: Token)
        ensures
            token@ == (TokenView { value: token_value@, kind: token_type }),
            token.token_value == token_value,
            token.token_type == token_type,
    {
        Token { token_value, token_type }
    }

    /// The token's rendering: the value and the kind's name, each under its
    /// label and right-aligned in its column.
    pub open spec fn spec_render(self) -> Seq<char> {
        "Value: "@ + right_aligned(self.token_value@, VALUE_WIDTH as nat) + " Type:"@
            + right_aligned(self.token_type.spec_name(), KIND_WIDTH as nat)
    }

    /// One line of text that shows the token.
    pub fn render(&self) -> (line: String)
        ensures
            line@ == self.spec_render(),
    {
        let mut line = String::from_str("Value: ");
        push_right_aligned(&mut line, self.token_value.as_str(), VALUE_WIDTH);
        line.append(" Type:");
        push_right_aligned(&mut line, self.token_type.name(), KIND_WIDTH);
        line
    }
}

} // verus!

use molgylang::lexer::lexer::{is_digit_byte, is_letter_byte, is_space_byte, symbol_type, Lexer};
use molgylang::lexer::token::{Token, TokenType};

fn scan(text: &str) -> Vec<Token> {
    Lexer::new(String::from(text)).get_tokens()
}

fn tok(value: &str, kind: TokenType) -> Token {
    Token::new(String::from(value), kind)
}

fn sentinel() -> Token {
    tok("\0", TokenType::EOF)
}

#[test]
fn same_lexer_object() {
    let content_example = String::from("Testing");
    let lex = Lexer::new(content_example.clone());
    let expected_lex = Lexer::new(String::from("Testing"));

    assert_eq!(lex, expected_lex);
    assert_eq!(lex.cursor(), 0);
    assert_eq!(lex.character(), 0);
    assert_eq!(lex.input(), &content_example.into_bytes());
}

#[test]
fn different_lexer_object() {
    let content_example = String::from("Testing");
    let different_content_example = String::from("Test");
    let lex = Lexer::new(content_example);
    let expected_lex = Lexer::new(different_content_example);

    assert_ne!(lex, expected_lex);
}

#[test]
fn test_get_tokens() {
    let content_example = String::from("print(\"Hello, World\");");
    let mut lex = Lexer::new(content_example);
    let result: Vec<Token> = lex.get_tokens();

    let expected_result: Vec<Token> = vec![
        Token { token_value: String::from("\0"), token_type: TokenType::EOF },
        Token { token_value: String::from("print"), token_type: TokenType::IDENTIFIER },
        Token { token_value: String::from("("), token_type: TokenType::LPAREN },
        Token { token_value: String::from("\""), token_type: TokenType::DQUOTES },
        Token { token_value: String::from("Hello"), token_type: TokenType::IDENTIFIER },
        Token { token_value: String::from(","), token_type: TokenType::COMMA },
        Token { token_value: String::from("World"), token_type: TokenType::IDENTIFIER },
        Token { token_value: String::from("\""), token_type: TokenType::DQUOTES },
        Token { token_value: String::from(")"), token_type: TokenType::RPAREN },
        Token { token_value: String::from(";"), token_type: TokenType::SEMICOLON },
    ];

    assert_eq!(result, expected_result);
}

#[test]
fn statement_with_line_end_closes_with_sentinel() {
    let result = scan("print(\"Hello, World\");\n");
    let expected = vec![
        sentinel(),
        tok("print", TokenType::IDENTIFIER),
        tok("(", TokenType::LPAREN),
        tok("\"", TokenType::DQUOTES),
        tok("Hello", TokenType::IDENTIFIER),
        tok(",", TokenType::COMMA),
        tok("World", TokenType::IDENTIFIER),
        tok("\"", TokenType::DQUOTES),
        tok(")", TokenType::RPAREN),
        tok(";", TokenType::SEMICOLON),
        sentinel(),
    ];
    assert_eq!(result, expected);
}

#[test]
fn empty_input_is_one_sentinel() {
    assert_eq!(scan(""), vec![sentinel()]);
}

#[test]
fn first_token_is_always_the_sentinel() {
    for text in ["a", "1", ";", " ", "#", "abc def", "\n\n", "x=1;"] {
        let tokens = scan(text);
        assert!(!tokens.is_empty());
        assert_eq!(tokens[0], sentinel());
    }
}

#[test]
fn last_token_is_the_sentinel_where_input_ends_open() {
    for text in ["", " ", "a ", "a\n", "12\t", "x = 1;\r\n", "a\0", ";  \n  "] {
        let tokens = scan(text);
        assert_eq!(tokens[tokens.len() - 1], sentinel());
    }
}

#[test]
fn last_token_is_the_last_lexeme_where_input_ends_in_one() {
    assert_eq!(scan("a"), vec![sentinel(), tok("a", TokenType::IDENTIFIER)]);
    assert_eq!(scan("7"), vec![sentinel(), tok("7", TokenType::NUMBER)]);
    assert_eq!(scan(";"), vec![sentinel(), tok(";", TokenType::SEMICOLON)]);
    assert_eq!(scan("#"), vec![sentinel(), tok("#", TokenType::ILLEGAL)]);
}

#[test]
fn identifier_run_is_one_token() {
    assert_eq!(
        scan("(foo_Bar_)"),
        vec![
            sentinel(),
            tok("(", TokenType::LPAREN),
            tok("foo_Bar_", TokenType::IDENTIFIER),
            tok(")", TokenType::RPAREN),
        ]
    );
}

#[test]
fn identifier_followed_by_digit_and_symbol() {
    assert_eq!(
        scan("abc1+x"),
        vec![
            sentinel(),
            tok("abc", TokenType::IDENTIFIER),
            tok("1", TokenType::NUMBER),
            tok("+", TokenType::PLUS),
            tok("x", TokenType::IDENTIFIER),
        ]
    );
}

#[test]
fn leading_underscore_is_illegal() {
    assert_eq!(
        scan("_a"),
        vec![sentinel(), tok("_", TokenType::ILLEGAL), tok("a", TokenType::IDENTIFIER)]
    );
    assert_eq!(scan("_"), vec![sentinel(), tok("_", TokenType::ILLEGAL)]);
}

#[test]
fn number_run_is_one_token() {
    assert_eq!(
        scan("=0123456789;"),
        vec![
            sentinel(),
            tok("=", TokenType::ASSIGN),
            tok("0123456789", TokenType::NUMBER),
            tok(";", TokenType::SEMICOLON),
        ]
    );
}

#[test]
fn number_has_no_sign_point_or_letters() {
    assert_eq!(
        scan("12.5"),
        vec![
            sentinel(),
            tok("12", TokenType::NUMBER),
            tok(".", TokenType::ILLEGAL),
            tok("5", TokenType::NUMBER),
        ]
    );
    assert_eq!(
        scan("-3"),
        vec![sentinel(), tok("-", TokenType::ILLEGAL), tok("3", TokenType::NUMBER)]
    );
    assert_eq!(
        scan("12ab"),
        vec![sentinel(), tok("12", TokenType::NUMBER), tok("ab", TokenType::IDENTIFIER)]
    );
    assert_eq!(
        scan("1_"),
        vec![sentinel(), tok("1", TokenType::NUMBER), tok("_", TokenType::ILLEGAL)]
    );
}

#[test]
fn each_symbol_alone() {
    let cases = [
        ("{", TokenType::LCURLY),
        ("}", TokenType::RCURLY),
        ("(", TokenType::LPAREN),
        (")", TokenType::RPAREN),
        ("=", TokenType::ASSIGN),
        ("+", TokenType::PLUS),
        (";", TokenType::SEMICOLON),
        (":", TokenType::COLON),
        (",", TokenType::COMMA),
        ("\"", TokenType::DQUOTES),
    ];
    for (text, kind) in cases {
        assert_eq!(scan(text), vec![sentinel(), tok(text, kind)]);
    }
}

#[test]
fn symbols_in_a_row() {
    assert_eq!(
        scan("{}=="),
        vec![
            sentinel(),
            tok("{", TokenType::LCURLY),
            tok("}", TokenType::RCURLY),
            tok("=", TokenType::ASSIGN),
            tok("=", TokenType::ASSIGN),
        ]
    );
}

#[test]
fn unknown_bytes_are_illegal() {
    assert_eq!(scan("#"), vec![sentinel(), tok("#", TokenType::ILLEGAL)]);
    assert_eq!(scan("@"), vec![sentinel(), tok("@", TokenType::ILLEGAL)]);
    assert_eq!(
        scan("a#b"),
        vec![
            sentinel(),
            tok("a", TokenType::IDENTIFIER),
            tok("#", TokenType::ILLEGAL),
            tok("b", TokenType::IDENTIFIER),
        ]
    );
}

#[test]
fn bytes_beyond_ascii_are_illegal_one_by_one() {
    assert_eq!(
        scan("\u{e9}"),
        vec![sentinel(), tok("\u{c3}", TokenType::ILLEGAL), tok("\u{a9}", TokenType::ILLEGAL)]
    );
}

#[test]
fn whitespace_gives_no_token() {
    assert_eq!(
        scan("a \t\n\x0c\r b"),
        vec![sentinel(), tok("a", TokenType::IDENTIFIER), tok("b", TokenType::IDENTIFIER)]
    );
    assert_eq!(scan("   a"), vec![sentinel(), tok("a", TokenType::IDENTIFIER)]);
    assert_eq!(scan("   a"), scan("a"));
}

#[test]
fn whitespace_alone_ends_in_one_sentinel() {
    assert_eq!(scan(" "), vec![sentinel(), sentinel()]);
    assert_eq!(scan(" \n\t  "), vec![sentinel(), sentinel()]);
}

#[test]
fn vertical_tab_is_no_whitespace() {
    assert_eq!(
        scan("a\x0bb"),
        vec![
            sentinel(),
            tok("a", TokenType::IDENTIFIER),
            tok("\x0b", TokenType::ILLEGAL),
            tok("b", TokenType::IDENTIFIER),
        ]
    );
}

#[test]
fn nul_byte_inside_input_is_a_sentinel_token() {
    assert_eq!(
        scan("a\0b"),
        vec![sentinel(), tok("a", TokenType::IDENTIFIER), sentinel(), tok("b", TokenType::IDENTIFIER)]
    );
}

#[test]
fn scanning_twice_gives_the_same_tokens() {
    let text = "let x = 12 + y_1; # {print(\"hi\"): z}\n";
    let first = Lexer::new(String::from(text)).get_tokens();
    let second = Lexer::new(String::from(text)).get_tokens();
    assert_eq!(first, second);
    let expected = vec![
        sentinel(),
        tok("let", TokenType::IDENTIFIER),
        tok("x", TokenType::IDENTIFIER),
        tok("=", TokenType::ASSIGN),
        tok("12", TokenType::NUMBER),
        tok("+", TokenType::PLUS),
        tok("y_", TokenType::IDENTIFIER),
        tok("1", TokenType::NUMBER),
        tok(";", TokenType::SEMICOLON),
        tok("#", TokenType::ILLEGAL),
        tok("{", TokenType::LCURLY),
        tok("print", TokenType::IDENTIFIER),
        tok("(", TokenType::LPAREN),
        tok("\"", TokenType::DQUOTES),
        tok("hi", TokenType::IDENTIFIER),
        tok("\"", TokenType::DQUOTES),
        tok(")", TokenType::RPAREN),
        tok(":", TokenType::COLON),
        tok("z", TokenType::IDENTIFIER),
        tok("}", TokenType::RCURLY),
        sentinel(),
    ];
    assert_eq!(first, expected);
}

#[test]
fn a_scanner_that_is_done_gives_nothing_more() {
    let mut lex = Lexer::new(String::from("a b"));
    let first = lex.get_tokens();
    assert_eq!(first.len(), 3);
    let cursor = lex.cursor();
    let second = lex.get_tokens();
    assert!(second.is_empty());
    assert_eq!(lex.cursor(), cursor);
}

#[test]
fn cursor_ends_past_the_buffer() {
    let mut lex = Lexer::new(String::from("ab"));
    lex.get_tokens();
    assert_eq!(lex.cursor(), 3);
    assert_eq!(lex.character(), 0);
    assert_eq!(lex.input(), &vec![b'a', b'b']);

    let mut lex = Lexer::new(String::from("a "));
    lex.get_tokens();
    assert_eq!(lex.cursor(), 4);

    let mut lex = Lexer::new(String::new());
    lex.get_tokens();
    assert_eq!(lex.cursor(), 1);
}

#[test]
fn byte_classes() {
    for b in [b' ', b'\t', b'\n', b'\x0c', b'\r'] {
        assert!(is_space_byte(b));
    }
    assert!(!is_space_byte(0x0b));
    assert!(!is_space_byte(0));
    for b in 0..=255u8 {
        assert_eq!(is_space_byte(b), b.is_ascii_whitespace());
        assert_eq!(is_letter_byte(b), b.is_ascii_alphabetic());
        assert_eq!(is_digit_byte(b), b.is_ascii_digit());
    }
}

#[test]
fn symbol_types() {
    assert_eq!(symbol_type(b'{'), TokenType::LCURLY);
    assert_eq!(symbol_type(b'}'), TokenType::RCURLY);
    assert_eq!(symbol_type(b'('), TokenType::LPAREN);
    assert_eq!(symbol_type(b')'), TokenType::RPAREN);
    assert_eq!(symbol_type(b'='), TokenType::ASSIGN);
    assert_eq!(symbol_type(b'+'), TokenType::PLUS);
    assert_eq!(symbol_type(b';'), TokenType::SEMICOLON);
    assert_eq!(symbol_type(b':'), TokenType::COLON);
    assert_eq!(symbol_type(b','), TokenType::COMMA);
    assert_eq!(symbol_type(b'"'), TokenType::DQUOTES);
    assert_eq!(symbol_type(0), TokenType::EOF);
    assert_eq!(symbol_type(b'#'), TokenType::ILLEGAL);
    assert_eq!(symbol_type(b'_'), TokenType::ILLEGAL);
    assert_eq!(symbol_type(0xff), TokenType::ILLEGAL);
}

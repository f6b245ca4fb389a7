//! The scanner: a cursor over a byte buffer that hands out one token after
//! the other.

use vstd::prelude::*;
use vstd::string::*;
use vstd::utf8::encode_utf8;
use super::model::{
    byte_at, is_digit, is_letter, is_space, lemma_next_pos_advances, lemma_run_end, next_pos,
    run_end, stop_pos, symbol_kind, token_at, tokens_from, tokens_of, ByteClass,
    COLON, COMMA, DOUBLE_QUOTE, EQUALS_SIGN, LEFT_BRACE, LEFT_PAREN, PLUS_SIGN, RIGHT_BRACE,
    RIGHT_PAREN, SEMICOLON, SENTINEL, UNDERSCORE,
};
use super::text::{byte_char, bytes_text, char_of_byte};
use super::token::{Token, TokenType, TokenView};

verus! {

/// A scanner over a complete buffer of source text.
#[derive(PartialEq, Debug)]
pub struct Lexer {
    character: u8,
    cursor: usize,
    input: Vec<u8>,
}

/// What a scanner is to a contract.
pub struct LexerView {
    /// The whole input, fixed for the scanner's lifetime.
    pub input: Seq<u8>,
    /// The index of the next unread byte.
    pub cursor: nat,
    /// The byte under classification.
    pub lookahead: u8,
}

impl View for Lexer {
    type V = LexerView;

    closed spec fn view(&self) -> LexerView {
        LexerView { input: self.input@, cursor: self.cursor as nat, lookahead: self.character }
    }
}

/// What each token of a sequence is to a contract.
pub open spec fn token_views(tokens: Seq<Token>) -> Seq<TokenView> {
    tokens.map_values(|t: Token| t@)
}

/// Whether the byte is ASCII whitespace.
pub fn is_space_byte(b: u8) -> (r: bool)
    ensures
        r == is_space(b),
{
    b == 0x20 || b == 0x09 || b == 0x0a || b == 0x0c || b == 0x0d
}

/// Whether the byte is an ASCII letter.
pub fn is_letter_byte(b: u8) -> (r: bool)
    ensures
        r == is_letter(b),
{
    (0x61 <= b && b <= 0x7a) || (0x41 <= b && b <= 0x5a)
}

/// Whether the byte is an ASCII digit.
pub fn is_digit_byte(b: u8) -> (r: bool)
    ensures
        r == is_digit(b),
{
    0x30 <= b && b <= 0x39
}

/// The kind of a token that is the single byte `b`.
pub fn symbol_type(b: u8) -> (kind: TokenType)
    ensures
        kind == symbol_kind(b),
{
    if b == LEFT_BRACE {
        TokenType::LCURLY
    } else if b == RIGHT_BRACE {
        TokenType::RCURLY
    } else if b == LEFT_PAREN {
        TokenType::LPAREN
    } else if b == RIGHT_PAREN {
        TokenType::RPAREN
    } else if b == EQUALS_SIGN {
        TokenType::ASSIGN
    } else if b == PLUS_SIGN {
        TokenType::PLUS
    } else if b == SEMICOLON {
        TokenType::SEMICOLON
    } else if b == COLON {
        TokenType::COLON
    } else if b == COMMA {
        TokenType::COMMA
    } else if b == DOUBLE_QUOTE {
        TokenType::DQUOTES
    } else if b == SENTINEL {
        TokenType::EOF
    } else {
        TokenType::ILLEGAL
    }
}

impl Lexer {
    /// The position of the byte under classification: one before the cursor.
    /// It is -1 as long as nothing has been read.
    pub open spec fn pos(&self) -> int {
        self@.cursor - 1
    }

    /// The scanner's invariant: the lookahead is the byte one before the
    /// cursor, which never runs more than two past the buffer's end.
    pub open spec fn wf(&self) -> bool {
        &&& self@.input.len() + 2 <= usize::MAX
        &&& self@.cursor <= self@.input.len() + 2
        &&& self@.lookahead == byte_at(self@.input, self.pos())
    }

    /// A scanner over the bytes of `file_content`, with nothing read yet: the
    /// cursor at 0 and the sentinel as lookahead.
    pub fn new(file_content: String) -> (lexer: Lexer)
        requires
            encode_utf8(file_content@).len() + 2 <= usize::MAX,
        ensures
            lexer@ == (LexerView {
                input: encode_utf8(file_content@),
                cursor: 0,
                lookahead: SENTINEL,
            }),
            lexer.wf(),
    {
        Lexer { cursor: 0, character: 0, input: file_content.as_str().as_bytes_vec() }
    }

    /// Takes the byte at the cursor as lookahead, the sentinel where the
    /// buffer has ended, and moves the cursor on by one.
    fn read_char(&mut self)
        requires
            old(self)@.cursor < usize::MAX,
        ensures
            final(self)@.input == old(self)@.input,
            final(self)@.cursor == old(self)@.cursor + 1,
            final(self)@.lookahead == byte_at(old(self)@.input, old(self)@.cursor as int),
    {
        if self.cursor >= self.input.len() {
            self.character = 0;
        } else {
            self.character = self.input[self.cursor];
        }
        self.cursor += 1;
    }

    /// Moves on to the first byte that is no whitespace.
    fn remove_whitespace(&mut self)
        requires
            old(self).wf(),
            old(self)@.cursor <= old(self)@.input.len() + 1,
        ensures
            final(self).wf(),
            final(self)@.input == old(self)@.input,
            final(self)@.cursor <= final(self)@.input.len() + 1,
            final(self).pos() == run_end(old(self)@.input, old(self).pos(), ByteClass::Space),
    {
        while is_space_byte(self.character)
            invariant
                self.wf(),
                self@.input == old(self)@.input,
                self@.cursor <= self@.input.len() + 1,
                run_end(self@.input, self.pos(), ByteClass::Space) == run_end(
                    old(self)@.input,
                    old(self).pos(),
                    ByteClass::Space,
                ),
            decreases self@.input.len() + 1 - self@.cursor,
        {
            self.read_char();
        }
    }

    /// Reads the run of letters and underscores at the lookahead and returns
    /// its text. The lookahead is then the first byte behind the run.
    fn get_identifier(&mut self) -> (result: String)
        requires
            old(self).wf(),
            0 <= old(self).pos() <= old(self)@.input.len(),
        ensures
            final(self).wf(),
            final(self)@.input == old(self)@.input,
            final(self)@.cursor <= final(self)@.input.len() + 1,
            final(self).pos() == run_end(old(self)@.input, old(self).pos(), ByteClass::Word),
            result@ == bytes_text(old(self)@.input.subrange(old(self).pos(), final(self).pos())),
    {
        let mut result = String::new();
        while is_letter_byte(self.character) || self.character == UNDERSCORE
            invariant
                self.wf(),
                self@.input == old(self)@.input,
                0 <= old(self).pos() <= self.pos() <= self@.input.len(),
                run_end(self@.input, self.pos(), ByteClass::Word) == run_end(
                    old(self)@.input,
                    old(self).pos(),
                    ByteClass::Word,
                ),
                result@ == bytes_text(self@.input.subrange(old(self).pos(), self.pos())),
            decreases self@.input.len() + 1 - self@.cursor,
        {
            result.push(char_of_byte(self.character));
            self.read_char();
            assert(result@ =~= bytes_text(self@.input.subrange(old(self).pos(), self.pos())));
        }
        result
    }

    /// Reads the run of digits at the lookahead and returns its text. The
    /// lookahead is then the first byte behind the run.
    fn get_number(&mut self) -> (result: String)
        requires
            old(self).wf(),
            0 <= old(self).pos() <= old(self)@.input.len(),
        ensures
            final(self).wf(),
            final(self)@.input == old(self)@.input,
            final(self)@.cursor <= final(self)@.input.len() + 1,
            final(self).pos() == run_end(old(self)@.input, old(self).pos(), ByteClass::Digit),
            result@ == bytes_text(old(self)@.input.subrange(old(self).pos(), final(self).pos())),
    {
        let mut result = String::new();
        while is_digit_byte(self.character)
            invariant
                self.wf(),
                self@.input == old(self)@.input,
                0 <= old(self).pos() <= self.pos() <= self@.input.len(),
                run_end(self@.input, self.pos(), ByteClass::Digit) == run_end(
                    old(self)@.input,
                    old(self).pos(),
                    ByteClass::Digit,
                ),
                result@ == bytes_text(self@.input.subrange(old(self).pos(), self.pos())),
            decreases self@.input.len() + 1 - self@.cursor,
        {
            result.push(char_of_byte(self.character));
            self.read_char();
            assert(result@ =~= bytes_text(self@.input.subrange(old(self).pos(), self.pos())));
        }
        result
    }

    /// Scans one token: skips whitespace, classifies the lookahead, and
    /// leaves the byte behind the token as the new lookahead.
    fn next_token(&mut self) -> (token: Token)
        requires
            old(self).wf(),
            old(self).pos() < old(self)@.input.len(),
        ensures
            final(self).wf(),
            final(self)@.input == old(self)@.input,
            token@ == token_at(old(self)@.input, old(self).pos()),
            final(self).pos() == next_pos(old(self)@.input, old(self).pos()),
    {
        self.remove_whitespace();
        proof {
            lemma_run_end(self@.input, old(self).pos(), ByteClass::Space);
            lemma_run_end(self@.input, self.pos(), ByteClass::Word);
            lemma_run_end(self@.input, self.pos(), ByteClass::Digit);
        }
        let mut token_value = String::new();
        let first = self.character;
        let token_type = if is_letter_byte(first) {
            token_value = self.get_identifier();
            // The run's scan has read one byte too far: step back, so that
            // the read below presents the boundary byte again.
            self.cursor -= 1;
            TokenType::IDENTIFIER
        } else if is_digit_byte(first) {
            token_value = self.get_number();
            self.cursor -= 1;
            TokenType::NUMBER
        } else {
            symbol_type(first)
        };
        if token_value.as_str().is_empty() {
            token_value.push(char_of_byte(self.character));
            assert(token_value@ =~= seq![byte_char(first)]);
        }
        self.read_char();
        Token::new(token_value, token_type)
    }

    /// Scans the rest of the buffer and returns its tokens in order.
    ///
    /// A token is scanned as long as the cursor has not passed the buffer's
    /// end. On a scanner that has read nothing yet the first token is
    /// therefore the sentinel's.
    pub fn get_tokens(&mut self) -> (tokens: Vec<Token>)
        requires
            old(self).wf(),
        ensures
            final(self).wf(),
            final(self)@.input == old(self)@.input,
            token_views(tokens@) == tokens_from(old(self)@.input, old(self).pos()),
            old(self)@.cursor == 0 ==> token_views(tokens@) == tokens_of(old(self)@.input),
            final(self).pos() == stop_pos(old(self)@.input, old(self).pos()),
            final(self)@.cursor >= old(self)@.cursor,
            final(self)@.cursor > final(self)@.input.len(),
    {
        let mut tokens: Vec<Token> = Vec::new();
        assert(token_views(tokens@) =~= Seq::<TokenView>::empty());
        while self.cursor <= self.input.len()
            invariant
                self.wf(),
                self@.input == old(self)@.input,
                token_views(tokens@) + tokens_from(self@.input, self.pos()) == tokens_from(
                    old(self)@.input,
                    old(self).pos(),
                ),
                stop_pos(self@.input, self.pos()) == stop_pos(old(self)@.input, old(self).pos()),
                self@.cursor >= old(self)@.cursor,
            decreases self@.input.len() + 2 - self@.cursor,
        {
            let ghost before = token_views(tokens@);
            let ghost p = self.pos();
            let token: Token = self.next_token();
            tokens.push(token);
            proof {
                lemma_next_pos_advances(self@.input, p);
                assert(token_views(tokens@) =~= before.push(token_at(self@.input, p)));
                assert(before.push(token_at(self@.input, p)) + tokens_from(self@.input, self.pos())
                    =~= before + tokens_from(self@.input, p));
            }
        }
        assert(token_views(tokens@) + tokens_from(self@.input, self.pos()) =~= token_views(
            tokens@,
        ));
        tokens
    }

    /// The index of the next unread byte.
    pub fn cursor(&self) -> (cursor: usize)
        ensures
            cursor == self@.cursor,
    {
        self.cursor
    }

    /// The byte under classification.
    pub fn character(&self) -> (character: u8)
        ensures
            character == self@.lookahead,
    {
        self.character
    }

    /// The whole input.
    pub fn input(&self) -> (input: &Vec<u8>)
        ensures
            input@ == self@.input,
    {
        &self.input
    }
}

} // verus!

//! The mathematical model of scanning: byte classes, runs, the token that
//! starts at a position, and the token sequence of a whole buffer.
//!
//! A position is the index of the byte under classification. It may lie
//! outside the buffer, before its start or past its end; there the byte reads
//! as the sentinel 0.

use vstd::prelude::*;
use super::text::{byte_char, bytes_text};
use super::token::{TokenType, TokenView};

verus! {

/// The sentinel byte: what the scanner sees where there is no input.
pub const SENTINEL: u8 = 0;

pub const LEFT_BRACE: u8 = 0x7b;

pub const RIGHT_BRACE: u8 = 0x7d;

pub const LEFT_PAREN: u8 = 0x28;

pub const RIGHT_PAREN: u8 = 0x29;

pub const EQUALS_SIGN: u8 = 0x3d;

pub const PLUS_SIGN: u8 = 0x2b;

pub const SEMICOLON: u8 = 0x3b;

pub const COLON: u8 = 0x3a;

pub const COMMA: u8 = 0x2c;

pub const DOUBLE_QUOTE: u8 = 0x22;

pub const UNDERSCORE: u8 = 0x5f;

/// The classes of bytes that form runs.
pub enum ByteClass {
    /// ASCII whitespace: space, tab, line feed, form feed, carriage return.
    Space,
    /// ASCII letters and the underscore.
    Word,
    /// ASCII digits.
    Digit,
}

pub open spec fn is_space(b: u8) -> bool {
    b == 0x20 || b == 0x09 || b == 0x0a || b == 0x0c || b == 0x0d
}

pub open spec fn is_letter(b: u8) -> bool {
    (0x61 <= b <= 0x7a) || (0x41 <= b <= 0x5a)
}

pub open spec fn is_word(b: u8) -> bool {
    is_letter(b) || b == UNDERSCORE
}

pub open spec fn is_digit(b: u8) -> bool {
    0x30 <= b <= 0x39
}

pub open spec fn in_class(class: ByteClass, b: u8) -> bool {
    match class {
        ByteClass::Space => is_space(b),
        ByteClass::Word => is_word(b),
        ByteClass::Digit => is_digit(b),
    }
}

/// The byte at a position: the buffer's byte inside it, the sentinel outside.
pub open spec fn byte_at(s: Seq<u8>, p: int) -> u8 {
    if 0 <= p < s.len() {
        s[p]
    } else {
        SENTINEL
    }
}

/// The first position at or after `p` whose byte is not in `class`.
pub open spec fn run_end(s: Seq<u8>, p: int, class: ByteClass) -> int
    decreases s.len() - p,
{
    if 0 <= p < s.len() && in_class(class, s[p]) {
        run_end(s, p + 1, class)
    } else {
        p
    }
}

/// The ten bytes that are a token of their own kind each.
pub open spec fn is_symbol(b: u8) -> bool {
    b == LEFT_BRACE || b == RIGHT_BRACE || b == LEFT_PAREN || b == RIGHT_PAREN || b == EQUALS_SIGN
        || b == PLUS_SIGN || b == SEMICOLON || b == COLON || b == COMMA || b == DOUBLE_QUOTE
}

/// The kind of a token that is a single byte.
pub open spec fn symbol_kind(b: u8) -> TokenType {
    if b == LEFT_BRACE {
        TokenType::LCURLY
    } else if b == RIGHT_BRACE {
        TokenType::RCURLY
    } else if b == LEFT_PAREN {
        TokenType::LPAREN
    } else if b == RIGHT_PAREN {
        TokenType::RPAREN
    } else if b == EQUALS_SIGN {
        TokenType::ASSIGN
    } else if b == PLUS_SIGN {
        TokenType::PLUS
    } else if b == SEMICOLON {
        TokenType::SEMICOLON
    } else if b == COLON {
        TokenType::COLON
    } else if b == COMMA {
        TokenType::COMMA
    } else if b == DOUBLE_QUOTE {
        TokenType::DQUOTES
    } else if b == SENTINEL {
        TokenType::EOF
    } else {
        TokenType::ILLEGAL
    }
}

/// Where the token begins that is scanned from position `p`: behind the
/// whitespace that starts at `p`.
pub open spec fn token_start(s: Seq<u8>, p: int) -> int {
    run_end(s, p, ByteClass::Space)
}

/// The position behind the token that is scanned from position `p`.
pub open spec fn next_pos(s: Seq<u8>, p: int) -> int {
    let q = token_start(s, p);
    let b = byte_at(s, q);
    if is_letter(b) {
        run_end(s, q, ByteClass::Word)
    } else if is_digit(b) {
        run_end(s, q, ByteClass::Digit)
    } else {
        q + 1
    }
}

/// The token that is scanned from position `p`.
///
/// A letter starts an identifier, which runs on over letters and underscores;
/// a digit starts a number. Every other byte is a token by itself, the
/// sentinel included.
pub open spec fn token_at(s: Seq<u8>, p: int) -> TokenView {
    let q = token_start(s, p);
    let b = byte_at(s, q);
    if is_letter(b) {
        TokenView { value: bytes_text(s.subrange(q, next_pos(s, p))), kind: TokenType::IDENTIFIER }
    } else if is_digit(b) {
        TokenView { value: bytes_text(s.subrange(q, next_pos(s, p))), kind: TokenType::NUMBER }
    } else {
        TokenView { value: seq![byte_char(b)], kind: symbol_kind(b) }
    }
}

/// A run ends at or after its start, at a byte outside the class, and holds
/// bytes of the class only.
pub proof fn lemma_run_end(s: Seq<u8>, p: int, class: ByteClass)
    ensures
        p <= run_end(s, p, class),
        p < s.len() ==> run_end(s, p, class) <= s.len(),
        !in_class(class, byte_at(s, run_end(s, p, class))),
        forall|i: int| p <= i < run_end(s, p, class) ==> 0 <= i < s.len() && in_class(class, #[trigger] s[i]),
    decreases s.len() - p,
{
    if 0 <= p < s.len() && in_class(class, s[p]) {
        lemma_run_end(s, p + 1, class);
    }
}

/// A run is the only stretch of bytes of the class that starts at `p` and
/// stops before a byte outside the class.
pub proof fn lemma_run_end_unique(s: Seq<u8>, p: int, e: int, class: ByteClass)
    requires
        p <= e,
        forall|i: int| p <= i < e ==> 0 <= i < s.len() && in_class(class, #[trigger] s[i]),
        !in_class(class, byte_at(s, e)),
    ensures
        run_end(s, p, class) == e,
    decreases e - p,
{
    if p < e {
        assert(in_class(class, s[p]));
        lemma_run_end_unique(s, p + 1, e, class);
    }
}

/// Every token takes up at least one position.
pub proof fn lemma_next_pos_advances(s: Seq<u8>, p: int)
    ensures
        p <= token_start(s, p) < next_pos(s, p),
        p < s.len() ==> next_pos(s, p) <= s.len() + 1,
{
    let q = token_start(s, p);
    lemma_run_end(s, p, ByteClass::Space);
    lemma_run_end(s, q, ByteClass::Word);
    lemma_run_end(s, q, ByteClass::Digit);
}

/// The tokens that are scanned from position `p` on: one token after the
/// other, as long as the position lies before the buffer's end.
pub open spec fn tokens_from(s: Seq<u8>, p: int) -> Seq<TokenView>
    decreases s.len() + 1 - p,
    via tokens_from_decreases
{
    if p < s.len() {
        seq![token_at(s, p)] + tokens_from(s, next_pos(s, p))
    } else {
        seq![]
    }
}

#[via_fn]
proof fn tokens_from_decreases(s: Seq<u8>, p: int) {
    lemma_next_pos_advances(s, p);
}

/// The position at which scanning from `p` stops: the first one reached that
/// lies at or past the buffer's end.
pub open spec fn stop_pos(s: Seq<u8>, p: int) -> int
    decreases s.len() + 1 - p,
    via stop_pos_decreases
{
    if p < s.len() {
        stop_pos(s, next_pos(s, p))
    } else {
        p
    }
}

#[via_fn]
proof fn stop_pos_decreases(s: Seq<u8>, p: int) {
    lemma_next_pos_advances(s, p);
}

/// The position of a scanner that has read nothing yet: one before the
/// buffer, where the byte reads as the sentinel.
pub open spec fn start_pos() -> int {
    -1
}

/// The sentinel's token: the text is the NUL character alone.
pub open spec fn sentinel_token() -> TokenView {
    TokenView { value: seq![byte_char(SENTINEL)], kind: TokenType::EOF }
}

/// The token sequence of a whole buffer.
pub open spec fn tokens_of(s: Seq<u8>) -> Seq<TokenView> {
    tokens_from(s, start_pos())
}

} // verus!

//! What holds of every scan.

use vstd::prelude::*;
use vstd::utf8::{encode_utf8, is_ascii_chars, is_ascii_chars_encode_utf8};
use super::lexer::Lexer;
use super::model::{
    byte_at, in_class, is_digit, is_letter, is_space, is_symbol, is_word, lemma_next_pos_advances,
    lemma_run_end, lemma_run_end_unique, next_pos, run_end, sentinel_token, symbol_kind, token_at,
    token_start, tokens_from, tokens_of, ByteClass, COLON, COMMA, DOUBLE_QUOTE, EQUALS_SIGN,
    LEFT_BRACE, LEFT_PAREN, PLUS_SIGN, RIGHT_BRACE, RIGHT_PAREN, SEMICOLON, SENTINEL,
};
use super::text::{byte_char, bytes_text};
use super::token::{TokenType, TokenView};

verus! {

/// The sentinel's text is the NUL character.
pub proof fn lemma_sentinel_text()
    ensures
        sentinel_token().value == seq!['\0'],
        sentinel_token().value.len() == 1,
{
    assert(byte_char(SENTINEL) == '\0');
}

/// A buffer ends open where no lexeme stands last in it: it is empty, or its
/// last byte is whitespace or the sentinel byte itself.
pub open spec fn ends_open(s: Seq<u8>) -> bool {
    s.len() == 0 || is_space(s.last()) || s.last() == SENTINEL
}

/// The token sequence of every buffer, the empty one included, is not empty
/// and begins with the sentinel's token.
pub proof fn lemma_first_token(s: Seq<u8>)
    ensures
        tokens_of(s).len() >= 1,
        tokens_of(s).first() == sentinel_token(),
{
    lemma_next_pos_advances(s, -1);
}

/// Scanning from a position before the buffer's end gives at least one
/// token, and the last one is the sentinel's exactly where the buffer ends
/// open.
pub proof fn lemma_last_token_from(s: Seq<u8>, p: int)
    requires
        -1 <= p < s.len(),
    ensures
        tokens_from(s, p).len() >= 1,
        tokens_from(s, p).last() == sentinel_token() <==> ends_open(s),
        tokens_from(s, p).last().kind == TokenType::EOF <==> ends_open(s),
    decreases s.len() - p,
{
    let n = next_pos(s, p);
    let q = token_start(s, p);
    lemma_next_pos_advances(s, p);
    lemma_run_end(s, p, ByteClass::Space);
    lemma_run_end(s, q, ByteClass::Word);
    lemma_run_end(s, q, ByteClass::Digit);
    if n < s.len() {
        lemma_last_token_from(s, n);
        assert(tokens_from(s, p).last() == tokens_from(s, n).last());
    } else {
        assert(tokens_from(s, n) =~= Seq::<TokenView>::empty());
        assert(tokens_from(s, p) =~= seq![token_at(s, p)]);
        if 0 <= q < s.len() {
            if is_letter(s[q]) || is_digit(s[q]) {
                assert(n == s.len());
                assert(q <= s.len() - 1 < n);
            } else {
                assert(q == s.len() - 1);
            }
        } else if p >= 0 {
            assert(p <= s.len() - 1 < q);
            assert(is_space(s[s.len() - 1]));
        }
    }
}

/// The token sequence of a buffer ends with the sentinel's token exactly
/// where the buffer ends open. A buffer whose last byte belongs to a token
/// ends with that token.
pub proof fn lemma_last_token(s: Seq<u8>)
    ensures
        tokens_of(s).last() == sentinel_token() <==> ends_open(s),
        tokens_of(s).last().kind == TokenType::EOF <==> ends_open(s),
{
    lemma_last_token_from(s, -1);
}

/// A run of letters and underscores that begins with a letter at `a` and
/// stops at `e` before a byte of another class is one identifier, whose text
/// is the run, and scanning goes on at `e`.
pub proof fn lemma_identifier_run(s: Seq<u8>, a: int, e: int)
    requires
        0 <= a < e <= s.len(),
        is_letter(s[a]),
        forall|i: int| a <= i < e ==> is_word(#[trigger] s[i]),
        !is_word(byte_at(s, e)),
    ensures
        token_at(s, a) == (TokenView {
            value: bytes_text(s.subrange(a, e)),
            kind: TokenType::IDENTIFIER,
        }),
        next_pos(s, a) == e,
        tokens_from(s, a) == seq![token_at(s, a)] + tokens_from(s, e),
{
    lemma_run_end_unique(s, a, e, ByteClass::Word);
}

/// A run of digits that begins at `a` and stops at `e` before a byte of
/// another class is one number, whose text is the run, and scanning goes on
/// at `e`.
pub proof fn lemma_number_run(s: Seq<u8>, a: int, e: int)
    requires
        0 <= a < e <= s.len(),
        forall|i: int| a <= i < e ==> is_digit(#[trigger] s[i]),
        !is_digit(byte_at(s, e)),
    ensures
        token_at(s, a) == (TokenView {
            value: bytes_text(s.subrange(a, e)),
            kind: TokenType::NUMBER,
        }),
        next_pos(s, a) == e,
        tokens_from(s, a) == seq![token_at(s, a)] + tokens_from(s, e),
{
    assert(is_digit(s[a]));
    lemma_run_end_unique(s, a, e, ByteClass::Digit);
}

/// Each of the ten symbol bytes is one token of its own kind, whose text is
/// that byte, and scanning goes on behind it.
pub proof fn lemma_symbol(s: Seq<u8>, p: int)
    requires
        0 <= p < s.len(),
        is_symbol(s[p]),
    ensures
        token_at(s, p) == (TokenView { value: seq![byte_char(s[p])], kind: symbol_kind(s[p]) }),
        s[p] == LEFT_BRACE ==> token_at(s, p).kind == TokenType::LCURLY,
        s[p] == RIGHT_BRACE ==> token_at(s, p).kind == TokenType::RCURLY,
        s[p] == LEFT_PAREN ==> token_at(s, p).kind == TokenType::LPAREN,
        s[p] == RIGHT_PAREN ==> token_at(s, p).kind == TokenType::RPAREN,
        s[p] == EQUALS_SIGN ==> token_at(s, p).kind == TokenType::ASSIGN,
        s[p] == PLUS_SIGN ==> token_at(s, p).kind == TokenType::PLUS,
        s[p] == SEMICOLON ==> token_at(s, p).kind == TokenType::SEMICOLON,
        s[p] == COLON ==> token_at(s, p).kind == TokenType::COLON,
        s[p] == COMMA ==> token_at(s, p).kind == TokenType::COMMA,
        s[p] == DOUBLE_QUOTE ==> token_at(s, p).kind == TokenType::DQUOTES,
        next_pos(s, p) == p + 1,
        tokens_from(s, p) == seq![token_at(s, p)] + tokens_from(s, p + 1),
{
}

/// A byte that is neither whitespace, a letter, a digit, a symbol nor the
/// sentinel is one illegal token, whose text is that byte, and scanning goes
/// on behind it. The underscore is such a byte where no letter stands before
/// it.
pub proof fn lemma_illegal(s: Seq<u8>, p: int)
    requires
        0 <= p < s.len(),
        !is_space(s[p]),
        !is_letter(s[p]),
        !is_digit(s[p]),
        !is_symbol(s[p]),
        s[p] != SENTINEL,
    ensures
        token_at(s, p) == (TokenView { value: seq![byte_char(s[p])], kind: TokenType::ILLEGAL }),
        next_pos(s, p) == p + 1,
        tokens_from(s, p) == seq![token_at(s, p)] + tokens_from(s, p + 1),
{
}

/// Whitespace before a token leaves no trace: from the start of a stretch of
/// whitespace the same token is scanned as from its end, and scanning goes on
/// at the same position.
pub proof fn lemma_whitespace_skipped(s: Seq<u8>, p: int, q: int)
    requires
        0 <= p <= q <= s.len(),
        forall|i: int| p <= i < q ==> is_space(#[trigger] s[i]),
    ensures
        token_start(s, p) == token_start(s, q),
        token_at(s, p) == token_at(s, q),
        next_pos(s, p) == next_pos(s, q),
        q < s.len() ==> tokens_from(s, p) == tokens_from(s, q),
{
    let e = run_end(s, q, ByteClass::Space);
    lemma_run_end(s, q, ByteClass::Space);
    lemma_run_end_unique(s, p, e, ByteClass::Space);
}

/// Whether a lexeme begins at `a`: the byte there is no whitespace, and it
/// does not carry on a run of letters and underscores, or of digits, from
/// the byte before it.
pub open spec fn starts_lexeme(s: Seq<u8>, a: int) -> bool {
    &&& 0 <= a < s.len()
    &&& !is_space(s[a])
    &&& a > 0 ==> !(is_word(s[a - 1]) && is_word(s[a])) && !(is_digit(s[a - 1]) && is_digit(
        s[a],
    ))
}

/// No token is scanned across the begin of a lexeme: a scanner at or before
/// `a` comes to scan from `a`, after `k` tokens, and from there on its tokens
/// are those scanned from `a`. No byte is skipped and none is read twice.
pub proof fn lemma_lexeme_is_scanned_from(s: Seq<u8>, p: int, a: int) -> (k: nat)
    requires
        -1 <= p <= a,
        starts_lexeme(s, a),
    ensures
        k < tokens_from(s, p).len(),
        tokens_from(s, p)[k as int] == token_at(s, a),
        tokens_from(s, p).skip(k as int) == tokens_from(s, a),
    decreases a - p,
{
    let q = token_start(s, p);
    let n = next_pos(s, p);
    lemma_next_pos_advances(s, p);
    lemma_next_pos_advances(s, a);
    lemma_run_end(s, p, ByteClass::Space);
    lemma_run_end(s, q, ByteClass::Word);
    lemma_run_end(s, q, ByteClass::Digit);
    if q >= a {
        assert(q == a) by {
            if q > a {
                assert(is_space(s[a]));
            }
        }
        lemma_run_end_unique(s, a, a, ByteClass::Space);
        assert(tokens_from(s, p) =~= tokens_from(s, a));
        assert(tokens_from(s, p).skip(0) =~= tokens_from(s, a));
        0
    } else {
        assert(n <= a) by {
            if n > a {
                assert(q <= a - 1 < n);
                assert(q <= a < n);
                assert(in_class(ByteClass::Word, s[a - 1]) && in_class(ByteClass::Word, s[a])
                    || in_class(ByteClass::Digit, s[a - 1]) && in_class(ByteClass::Digit, s[a]));
            }
        }
        let rest = lemma_lexeme_is_scanned_from(s, n, a);
        assert(tokens_from(s, p).skip(rest as int + 1) =~= tokens_from(s, n).skip(rest as int));
        rest + 1
    }
}

/// Every lexeme of a buffer is scanned: the buffer's token sequence holds,
/// at some index `k`, the token that begins at `a`, and goes on from there
/// as a scan from `a` does.
pub proof fn lemma_lexeme_is_scanned(s: Seq<u8>, a: int) -> (k: nat)
    requires
        starts_lexeme(s, a),
    ensures
        1 <= k < tokens_of(s).len(),
        tokens_of(s)[k as int] == token_at(s, a),
        tokens_of(s).skip(k as int) == tokens_from(s, a),
{
    let rest = lemma_lexeme_is_scanned_from(s, 0, a);
    lemma_next_pos_advances(s, -1);
    assert(tokens_of(s) =~= seq![sentinel_token()] + tokens_from(s, 0));
    assert(tokens_of(s).skip(rest as int + 1) =~= tokens_from(s, 0).skip(rest as int));
    rest + 1
}

/// A run of letters and underscores that begins with a letter, with no
/// letter or underscore before it and none behind it, is one token of the
/// buffer's sequence: an identifier whose text is the run. The tokens behind
/// it are those scanned from the run's end.
pub proof fn lemma_identifier_is_scanned(s: Seq<u8>, a: int, e: int) -> (k: nat)
    requires
        0 <= a < e <= s.len(),
        is_letter(s[a]),
        forall|i: int| a <= i < e ==> is_word(#[trigger] s[i]),
        !is_word(byte_at(s, a - 1)),
        !is_word(byte_at(s, e)),
    ensures
        1 <= k < tokens_of(s).len(),
        tokens_of(s)[k as int] == (TokenView {
            value: bytes_text(s.subrange(a, e)),
            kind: TokenType::IDENTIFIER,
        }),
        tokens_of(s).skip(k as int + 1) == tokens_from(s, e),
{
    lemma_identifier_run(s, a, e);
    let k = lemma_lexeme_is_scanned(s, a);
    assert(tokens_of(s).skip(k as int + 1) =~= tokens_of(s).skip(k as int).skip(1));
    assert(tokens_from(s, a).skip(1) =~= tokens_from(s, e));
    k
}

/// A run of digits with no digit before it and none behind it is one token
/// of the buffer's sequence: a number whose text is the run. The tokens
/// behind it are those scanned from the run's end.
pub proof fn lemma_number_is_scanned(s: Seq<u8>, a: int, e: int) -> (k: nat)
    requires
        0 <= a < e <= s.len(),
        forall|i: int| a <= i < e ==> is_digit(#[trigger] s[i]),
        !is_digit(byte_at(s, a - 1)),
        !is_digit(byte_at(s, e)),
    ensures
        1 <= k < tokens_of(s).len(),
        tokens_of(s)[k as int] == (TokenView {
            value: bytes_text(s.subrange(a, e)),
            kind: TokenType::NUMBER,
        }),
        tokens_of(s).skip(k as int + 1) == tokens_from(s, e),
{
    assert(is_digit(s[a]));
    lemma_number_run(s, a, e);
    let k = lemma_lexeme_is_scanned(s, a);
    assert(tokens_of(s).skip(k as int + 1) =~= tokens_of(s).skip(k as int).skip(1));
    assert(tokens_from(s, a).skip(1) =~= tokens_from(s, e));
    k
}

/// A symbol byte, wherever it stands, is one token of the buffer's sequence,
/// of the symbol's kind and with the symbol as text. The tokens behind it are
/// those scanned from the next byte.
pub proof fn lemma_symbol_is_scanned(s: Seq<u8>, p: int) -> (k: nat)
    requires
        0 <= p < s.len(),
        is_symbol(s[p]),
    ensures
        1 <= k < tokens_of(s).len(),
        tokens_of(s)[k as int] == (TokenView {
            value: seq![byte_char(s[p])],
            kind: symbol_kind(s[p]),
        }),
        tokens_of(s).skip(k as int + 1) == tokens_from(s, p + 1),
{
    lemma_symbol(s, p);
    let k = lemma_lexeme_is_scanned(s, p);
    assert(tokens_of(s).skip(k as int + 1) =~= tokens_of(s).skip(k as int).skip(1));
    assert(tokens_from(s, p).skip(1) =~= tokens_from(s, p + 1));
    k
}

/// A byte of no class, wherever it stands, is one token of the buffer's
/// sequence, illegal and with the byte as text. So is an underscore with no
/// letter or underscore before it. The tokens behind it are those scanned
/// from the next byte.
pub proof fn lemma_illegal_is_scanned(s: Seq<u8>, p: int) -> (k: nat)
    requires
        0 <= p < s.len(),
        !is_space(s[p]),
        !is_letter(s[p]),
        !is_digit(s[p]),
        !is_symbol(s[p]),
        s[p] != SENTINEL,
        is_word(s[p]) ==> !is_word(byte_at(s, p - 1)),
    ensures
        1 <= k < tokens_of(s).len(),
        tokens_of(s)[k as int] == (TokenView {
            value: seq![byte_char(s[p])],
            kind: TokenType::ILLEGAL,
        }),
        tokens_of(s).skip(k as int + 1) == tokens_from(s, p + 1),
{
    lemma_illegal(s, p);
    let k = lemma_lexeme_is_scanned(s, p);
    assert(tokens_of(s).skip(k as int + 1) =~= tokens_of(s).skip(k as int).skip(1));
    assert(tokens_from(s, p).skip(1) =~= tokens_from(s, p + 1));
    k
}

/// The bytes of an ASCII text read back as that text, so the value of a
/// token scanned from such a text is the stretch of the text that it was
/// scanned from.
pub proof fn lemma_ascii_text_bytes(text: Seq<char>)
    requires
        is_ascii_chars(text),
    ensures
        encode_utf8(text).len() == text.len(),
        bytes_text(encode_utf8(text)) == text,
        forall|a: int, e: int|
            0 <= a <= e <= text.len() ==> #[trigger] bytes_text(encode_utf8(text).subrange(a, e))
                == text.subrange(a, e),
{
    is_ascii_chars_encode_utf8(text);
    let bytes = encode_utf8(text);
    assert forall|i: int| 0 <= i < text.len() implies byte_char(#[trigger] bytes[i]) == text[i] by {
        let c = text[i];
        assert('\0' <= c <= '\u{7f}');
        assert(c as u8 == bytes[i]);
    }
    assert(bytes_text(bytes) =~= text);
    assert forall|a: int, e: int| 0 <= a <= e <= text.len() implies #[trigger] bytes_text(
        bytes.subrange(a, e),
    ) == text.subrange(a, e) by {
        assert(bytes_text(bytes.subrange(a, e)) =~= text.subrange(a, e));
    }
}

/// Scanning has no hidden state: two scanners that have read nothing yet
/// and hold the same buffer have the same tokens before them, those of the
/// buffer.
pub proof fn lemma_same_buffer_same_tokens(a: Lexer, b: Lexer)
    requires
        a@.input == b@.input,
        a@.cursor == 0,
        b@.cursor == 0,
    ensures
        tokens_from(a@.input, a.pos()) == tokens_from(b@.input, b.pos()),
        tokens_from(a@.input, a.pos()) == tokens_of(a@.input),
{
}

} // verus!

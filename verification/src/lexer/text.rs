//! Text helpers shared by the token model and the scanner.

use vstd::prelude::*;
use vstd::string::*;

verus! {

/// `String::push` of the standard library: the character is appended at the
/// end of the string and nothing else changes. Taken on trust.
pub assume_specification[ String::push ](s: &mut String, ch: char)
    ensures
        final(s)@ == old(s)@.push(ch),
;

/// The character whose code point is the byte's value.
pub open spec fn byte_char(b: u8) -> char {
    b as char
}

/// The text that a sequence of bytes stands for, one character per byte.
pub open spec fn bytes_text(bytes: Seq<u8>) -> Seq<char> {
    Seq::new(bytes.len(), |i: int| byte_char(bytes[i]))
}

/// The character of one byte.
pub fn char_of_byte(b: u8) -> (c: char)
    ensures
        c == byte_char(b),
{
    b as char
}

/// `text` moved to the right end of a column of `width` characters, with
/// spaces before it. A text that is wider than the column stays as it is.
pub open spec fn right_aligned(text: Seq<char>, width: nat) -> Seq<char> {
    if text.len() >= width {
        text
    } else {
        Seq::new((width - text.len()) as nat, |i: int| ' ') + text
    }
}

/// Appends `text` to `out`, right-aligned in a column of `width` characters.
pub fn push_right_aligned(out: &mut String, text: &str, width: usize)
    ensures
        final(out)@ == old(out)@ + right_aligned(text@, width as nat),
{
    let length = text.unicode_len();
    let mut filled: usize = length;
    while filled < width
        invariant
            length == text@.len(),
            length <= filled,
            filled <= width || filled == length,
            out@ == old(out)@ + Seq::new((filled - length) as nat, |i: int| ' '),
        decreases width - filled,
    {
        out.push(' ');
        filled += 1;
        assert(out@ =~= old(out)@ + Seq::new((filled - length) as nat, |i: int| ' '));
    }
    out.append(text);
    assert(out@ =~= old(out)@ + right_aligned(text@, width as nat));
}

} // verus!

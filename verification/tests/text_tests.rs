use molgylang::lexer::text::{char_of_byte, push_right_aligned};

#[test]
fn byte_to_character() {
    assert_eq!(char_of_byte(0), '\0');
    assert_eq!(char_of_byte(b'a'), 'a');
    assert_eq!(char_of_byte(0x7f), '\u{7f}');
    assert_eq!(char_of_byte(0xe9), '\u{e9}');
    assert_eq!(char_of_byte(0xff), '\u{ff}');
}

#[test]
fn right_aligned_text_is_filled_from_the_left() {
    let mut out = String::from("[");
    push_right_aligned(&mut out, "ab", 5);
    assert_eq!(out, "[   ab");
}

#[test]
fn right_aligned_text_of_full_width_gets_no_space() {
    let mut out = String::new();
    push_right_aligned(&mut out, "abcde", 5);
    assert_eq!(out, "abcde");
}

#[test]
fn right_aligned_text_wider_than_the_column_stays_whole() {
    let mut out = String::from("x");
    push_right_aligned(&mut out, "abcdefg", 5);
    assert_eq!(out, "xabcdefg");
}

#[test]
fn right_aligned_empty_text_is_all_spaces() {
    let mut out = String::new();
    push_right_aligned(&mut out, "", 3);
    assert_eq!(out, "   ");
    push_right_aligned(&mut out, "", 0);
    assert_eq!(out, "   ");
}

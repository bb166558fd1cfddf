use purrtty::text::{
    push_chars, push_decimal, to_crlf, trim_trailing_spaces, trim_trailing_white_space, white_space,
};

#[test]
fn crlf_goes_before_every_line_feed() {
    assert_eq!(to_crlf("a\nb\n\n한"), "a\r\nb\r\n\r\n한");
    for text in ["", "\n", "\r\n", "x\r\ny", "no end"] {
        assert_eq!(to_crlf(text), text.replace('\n', "\r\n"));
    }
}

#[test]
fn crlf_distributes_and_keeps_strings_apart() {
    assert_eq!(to_crlf("a\n") + &to_crlf("b\n"), to_crlf("a\nb\n"));
    assert_ne!(to_crlf("\n"), to_crlf("\r\n"));
}

#[test]
fn trailing_spaces_are_trimmed() {
    let mut chars = vec![' ', 'a', '\t', ' ', ' '];
    trim_trailing_spaces(&mut chars);
    assert_eq!(chars, [' ', 'a', '\t']);
    let mut blank = vec![' ', ' '];
    trim_trailing_spaces(&mut blank);
    assert!(blank.is_empty());
}

#[test]
fn trailing_white_space_is_trimmed() {
    let mut chars = vec![' ', 'a', '\u{3000}', '\t', '\u{a0}', ' '];
    trim_trailing_white_space(&mut chars);
    assert_eq!(chars, [' ', 'a']);
}

#[test]
fn white_space_is_the_unicode_property() {
    for c in '\0'..=char::MAX {
        assert_eq!(white_space(c), c.is_whitespace(), "{:?}", c);
    }
}

#[test]
fn decimal_digits_are_appended() {
    for n in [0, 7, 10, 99, 100, 1234567890, usize::MAX] {
        let mut out = String::from("n=");
        push_decimal(&mut out, n);
        assert_eq!(out, format!("n={}", n));
    }
}

#[test]
fn characters_are_appended() {
    let mut out = String::from("ab");
    push_chars(&mut out, &vec!['글', 'c']);
    assert_eq!(out, "ab글c");
}

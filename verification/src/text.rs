//! Operations on strings, described by their sequences of characters.
use vstd::prelude::*;

verus! {

/// `String::push` appends one character.
pub assume_specification[ String::push ](s: &mut String, c: char)
    ensures
        final(s)@ == old(s)@.push(c),
;

/// Equality of `str` compares the characters of both sides.
pub assume_specification[ <str as PartialEq>::eq ](a: &str, b: &str) -> (equal: bool)
    ensures
        equal == (a@ == b@),
;

/// The characters of an optional string.
pub open spec fn chars_of(text: Option<&str>) -> Option<Seq<char>> {
    match text {
        Some(chars) => Some(chars@),
        None => None,
    }
}

/// `s` with a carriage return put in front of every line feed.
pub open spec fn crlf(s: Seq<char>) -> Seq<char>
    decreases s.len(),
{
    if s.len() == 0 {
        seq![]
    } else if s.last() == '\n' {
        crlf(s.drop_last()).push('\r').push('\n')
    } else {
        crlf(s.drop_last()).push(s.last())
    }
}

/// Puts a carriage return in front of every line feed, as a terminal in raw
/// mode needs to start each line at the left margin.
pub fn to_crlf(raw: &str) -> (out: String)
    ensures
        out@ == crlf(raw@),
{
    let mut out = String::new();
    for c in it: raw.chars()
        invariant
            it.seq() == raw@,
            out@ == crlf(raw@.take(it.index())),
    {
        assert(raw@.take(it.index() + 1).drop_last() == raw@.take(it.index()));
        if c == '\n' {
            out.push('\r');
        }
        out.push(c);
    }
    assert(raw@.take(raw@.len() as int) == raw@);
    out
}

/// `s` without its trailing spaces.
pub open spec fn trim_spaces(s: Seq<char>) -> Seq<char>
    decreases s.len(),
{
    if s.len() > 0 && s.last() == ' ' {
        trim_spaces(s.drop_last())
    } else {
        s
    }
}

/// Trimming takes away spaces from the end, all of them, and nothing else.
pub proof fn lemma_trim_spaces(s: Seq<char>)
    ensures
        trim_spaces(s).is_prefix_of(s),
        forall|i: int| trim_spaces(s).len() <= i < s.len() ==> #[trigger] s[i] == ' ',
        trim_spaces(s).len() > 0 ==> trim_spaces(s).last() != ' ',
    decreases s.len(),
{
    if s.len() > 0 && s.last() == ' ' {
        lemma_trim_spaces(s.drop_last());
        assert forall|i: int| trim_spaces(s).len() <= i < s.len() implies #[trigger] s[i] == ' ' by {
            if i < s.len() - 1 {
                assert(s.drop_last()[i] == ' ');
            }
        }
    }
}

/// Removes trailing spaces.
pub fn trim_trailing_spaces(chars: &mut Vec<char>)
    ensures
        final(chars)@ == trim_spaces(old(chars)@),
{
    while chars.len() > 0 && chars[chars.len() - 1] == ' '
        invariant
            trim_spaces(chars@) == trim_spaces(old(chars)@),
        decreases chars.len(),
    {
        chars.pop();
    }
}

/// Whether a character has the Unicode property `White_Space`.
pub open spec fn is_white_space(c: char) -> bool {
    ||| '\u{9}' <= c <= '\u{d}'
    ||| c == ' ' || c == '\u{85}' || c == '\u{a0}' || c == '\u{1680}'
    ||| '\u{2000}' <= c <= '\u{200a}'
    ||| c == '\u{2028}' || c == '\u{2029}' || c == '\u{202f}' || c == '\u{205f}' || c == '\u{3000}'
}

/// Whether a character has the Unicode property `White_Space`.
pub fn white_space(c: char) -> (is_space: bool)
    ensures
        is_space == is_white_space(c),
{
    ('\u{9}' <= c && c <= '\u{d}') || c == ' ' || c == '\u{85}' || c == '\u{a0}' || c == '\u{1680}'
        || ('\u{2000}' <= c && c <= '\u{200a}') || c == '\u{2028}' || c == '\u{2029}'
        || c == '\u{202f}' || c == '\u{205f}' || c == '\u{3000}'
}

/// `s` without its trailing white space.
pub open spec fn trim_white_space(s: Seq<char>) -> Seq<char>
    decreases s.len(),
{
    if s.len() > 0 && is_white_space(s.last()) {
        trim_white_space(s.drop_last())
    } else {
        s
    }
}

/// Trimming takes away white space from the end, all of it, and nothing else.
pub proof fn lemma_trim_white_space(s: Seq<char>)
    ensures
        trim_white_space(s).is_prefix_of(s),
        forall|i: int|
            trim_white_space(s).len() <= i < s.len() ==> is_white_space(#[trigger] s[i]),
        trim_white_space(s).len() > 0 ==> !is_white_space(trim_white_space(s).last()),
    decreases s.len(),
{
    if s.len() > 0 && is_white_space(s.last()) {
        lemma_trim_white_space(s.drop_last());
        assert forall|i: int|
            trim_white_space(s).len() <= i < s.len() implies is_white_space(#[trigger] s[i]) by {
            if i < s.len() - 1 {
                assert(is_white_space(s.drop_last()[i]));
            }
        }
    }
}

/// Removes trailing white space.
pub fn trim_trailing_white_space(chars: &mut Vec<char>)
    ensures
        final(chars)@ == trim_white_space(old(chars)@),
{
    while chars.len() > 0 && white_space(chars[chars.len() - 1])
        invariant
            trim_white_space(chars@) == trim_white_space(old(chars)@),
        decreases chars.len(),
    {
        chars.pop();
    }
}

/// The decimal digits of a number.
pub open spec fn decimal(n: nat) -> Seq<char>
    decreases n,
{
    if n < 10 {
        seq![(48 + n) as char]
    } else {
        decimal(n / 10).push((48 + n % 10) as char)
    }
}

/// Appends the decimal digits of a number.
pub fn push_decimal(out: &mut String, n: usize)
    ensures
        final(out)@ == old(out)@ + decimal(n as nat),
    decreases n,
{
    if n >= 10 {
        push_decimal(out, n / 10);
    }
    let digit: u8 = (n % 10) as u8;
    out.push((48 + digit) as char);
}

/// Appends a list of characters to a string.
pub fn push_chars(out: &mut String, chars: &Vec<char>)
    ensures
        final(out)@ == old(out)@ + chars@,
{
    let mut i: usize = 0;
    assert(out@ == old(out)@ + chars@.take(0));
    while i < chars.len()
        invariant
            i <= chars.len(),
            out@ == old(out)@ + chars@.take(i as int),
        decreases chars.len() - i,
    {
        assert(chars@.take(i + 1) == chars@.take(i as int).push(chars@[i as int]));
        out.push(chars[i]);
        i += 1;
    }
    assert(chars@.take(i as int) == chars@);
}

/// Line endings of two strings can be changed one by one or together.
pub proof fn lemma_crlf_concat(a: Seq<char>, b: Seq<char>)
    ensures
        crlf(a + b) == crlf(a) + crlf(b),
    decreases b.len(),
{
    if b.len() == 0 {
        assert(a + b == a);
    } else {
        assert((a + b).drop_last() == a + b.drop_last());
        lemma_crlf_concat(a, b.drop_last());
    }
}

/// Every line feed of the result stands behind a carriage return.
pub proof fn lemma_crlf_line_feeds(s: Seq<char>, i: int)
    requires
        0 <= i < crlf(s).len(),
        crlf(s)[i] == '\n',
    ensures
        i > 0,
        crlf(s)[i - 1] == '\r',
    decreases s.len(),
{
    if i < crlf(s.drop_last()).len() {
        lemma_crlf_line_feeds(s.drop_last(), i);
    }
}

/// Different strings stay different.
pub proof fn lemma_crlf_injective(a: Seq<char>, b: Seq<char>)
    requires
        crlf(a) == crlf(b),
    ensures
        a == b,
    decreases a.len(),
{
    if a.len() == 0 || b.len() == 0 {
        assert(a == b);
    } else {
        assert(crlf(a).last() == a.last());
        assert(crlf(b).last() == b.last());
        if a.last() == '\n' {
            assert(crlf(a).drop_last().drop_last() == crlf(a.drop_last()));
            assert(crlf(b).drop_last().drop_last() == crlf(b.drop_last()));
        } else {
            assert(crlf(a).drop_last() == crlf(a.drop_last()));
            assert(crlf(b).drop_last() == crlf(b.drop_last()));
        }
        lemma_crlf_injective(a.drop_last(), b.drop_last());
        assert(a == a.drop_last().push(a.last()));
        assert(b == b.drop_last().push(b.last()));
    }
}

/// An empty string stays empty, a line feed gets a carriage return in front, and
/// every other character stays as it is. As strings are changed piece by piece
/// (see [`lemma_crlf_concat`]), this tells the result for every string.
pub proof fn lemma_crlf_of_one_character(c: char)
    ensures
        crlf(Seq::<char>::empty()) == Seq::<char>::empty(),
        crlf(seq!['\n']) == seq!['\r', '\n'],
        c != '\n' ==> crlf(seq![c]) == seq![c],
{
    reveal_with_fuel(crlf, 2);
    assert(seq![c].drop_last() == Seq::<char>::empty());
    assert(seq!['\n'].drop_last() == Seq::<char>::empty());
}

/// The characters with the property `White_Space` are these 25.
pub proof fn lemma_white_space_characters(c: char)
    ensures
        is_white_space(c) <==> {
            let code = c as int;
            ||| 0x9 <= code < 0xe
            ||| code == 0x20
            ||| code == 0x85
            ||| code == 0xa0
            ||| code == 0x1680
            ||| 0x2000 <= code < 0x200b
            ||| 0x2028 <= code < 0x202a
            ||| code == 0x202f
            ||| code == 0x205f
            ||| code == 0x3000
        },
{
}

/// A number of one digit is written as that digit, and ten times a number plus a
/// digit as the number followed by the digit.
pub proof fn lemma_decimal_digits(n: nat, digit: nat)
    requires
        digit < 10,
    ensures
        decimal(digit) == seq![
            seq!['0', '1', '2', '3', '4', '5', '6', '7', '8', '9'][digit as int],
        ],
        n > 0 ==> decimal(10 * n + digit) == decimal(n) + decimal(digit),
{
    reveal_with_fuel(decimal, 2);
    if n > 0 {
        assert((10 * n + digit) / 10 == n);
        assert((10 * n + digit) % 10 == digit);
    }
}

/// An optional string has the characters of the string.
pub proof fn lemma_chars_of(text: &str)
    ensures
        chars_of(Some(text)) == Some(text@),
        chars_of(None) is None,
{
}

} // verus!

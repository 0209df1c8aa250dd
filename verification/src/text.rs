//! Characters and strings: the character classes of the input language, and
//! the few string operations that the library builds its texts with.
use vstd::prelude::*;

verus! {

/// An ASCII decimal digit.
pub open spec fn is_digit(c: char) -> bool {
    '0' <= c && c <= '9'
}

/// One of the two characters that separate the whole part of a number from
/// its fraction.
pub open spec fn is_separator(c: char) -> bool {
    c == '.' || c == ','
}

/// A character that a number may hold.
pub open spec fn is_numeric(c: char) -> bool {
    is_digit(c) || is_separator(c)
}

/// A character with the Unicode property `White_Space`.
pub open spec fn is_space(c: char) -> bool {
    ||| ('\u{9}' <= c && c <= '\u{d}')
    ||| c == ' '
    ||| c == '\u{85}'
    ||| c == '\u{a0}'
    ||| c == '\u{1680}'
    ||| ('\u{2000}' <= c && c <= '\u{200a}')
    ||| c == '\u{2028}'
    ||| c == '\u{2029}'
    ||| c == '\u{202f}'
    ||| c == '\u{205f}'
    ||| c == '\u{3000}'
}

/// The character that writes a digit.
pub open spec fn digit_sign(digit: int) -> char {
    ('0' as int + digit) as char
}

/// A natural number written in decimal digits, without leading zeros.
pub open spec fn decimal(n: nat) -> Seq<char>
    decreases n,
{
    if n < 10 {
        seq![digit_sign(n as int)]
    } else {
        decimal(n / 10).push(digit_sign(n as int % 10))
    }
}

/// Computes [`is_digit`].
pub fn digit(c: char) -> (yes: bool)
    ensures
        yes == is_digit(c),
{
    '0' <= c && c <= '9'
}

/// Computes [`is_numeric`].
pub fn numeric(c: char) -> (yes: bool)
    ensures
        yes == is_numeric(c),
{
    ('0' <= c && c <= '9') || c == '.' || c == ','
}

/// Computes [`is_space`].
pub fn space(c: char) -> (yes: bool)
    ensures
        yes == is_space(c),
{
    ('\u{9}' <= c && c <= '\u{d}') || c == ' ' || c == '\u{85}' || c == '\u{a0}' || c
        == '\u{1680}' || ('\u{2000}' <= c && c <= '\u{200a}') || c == '\u{2028}' || c
        == '\u{2029}' || c == '\u{202f}' || c == '\u{205f}' || c == '\u{3000}'
}

/// The characters of a string, in order.
pub fn chars_of(text: &str) -> (chars: Vec<char>)
    ensures
        chars@ == text@,
{
    let mut chars: Vec<char> = Vec::new();
    for c in walk: text.chars()
        invariant
            walk.seq() == text@,
            chars@ == text@.take(walk.index()),
    {
        chars.push(c);
        assert(text@.take(walk.index() + 1) == text@.take(walk.index()).push(c));
    }
    assert(text@.take(text@.len() as int) == text@);
    chars
}

/// Appends one character to a string.
///
/// Trusted: this is `String::push` of the standard library, which appends
/// the given character to the end of the string and changes nothing else.
#[verifier::external_body]
pub(crate) fn push_char(text: &mut String, c: char)
    ensures
        final(text)@ == old(text)@.push(c),
{
    text.push(c)
}

/// Appends the characters from `start` up to `end`.
pub(crate) fn push_range(text: &mut String, chars: &Vec<char>, start: usize, end: usize)
    requires
        start <= end <= chars@.len(),
    ensures
        final(text)@ == old(text)@ + chars@.subrange(start as int, end as int),
{
    let mut i: usize = start;
    assert(text@ == old(text)@ + chars@.subrange(start as int, i as int));
    while i < end
        invariant
            start <= i <= end <= chars@.len(),
            text@ == old(text)@ + chars@.subrange(start as int, i as int),
        decreases end - i,
    {
        push_char(text, chars[i]);
        i = i + 1;
        assert(chars@.subrange(start as int, i as int) == chars@.subrange(
            start as int,
            i - 1,
        ).push(chars@[i - 1]));
        assert(text@ == old(text)@ + chars@.subrange(start as int, i as int));
    }
}

/// Computes [`digit_sign`].
fn digit_char(digit: u64) -> (sign: char)
    requires
        digit < 10,
    ensures
        sign == digit_sign(digit as int),
{
    (48 + digit as u8) as char
}

/// Appends a number in decimal digits.
pub(crate) fn push_decimal(text: &mut String, n: u64)
    ensures
        final(text)@ == old(text)@ + decimal(n as nat),
    decreases n,
{
    if n < 10 {
        push_char(text, digit_char(n));
        assert(text@ == old(text)@ + decimal(n as nat));
    } else {
        push_decimal(text, n / 10);
        push_char(text, digit_char(n % 10));
        assert(text@ == old(text)@ + decimal(n as nat));
    }
}

} // verus!

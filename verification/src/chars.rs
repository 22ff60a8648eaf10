//! Character classes and conversions between strings and char sequences.

use vstd::prelude::*;

verus! {

/// Result of `char::is_alphanumeric` (Unicode Alphabetic or Numeric).
pub uninterp spec fn char_alphanumeric(c: char) -> bool;

/// ASCII letters and digits.
pub open spec fn ascii_alnum(c: char) -> bool {
    ('a' <= c && c <= 'z') || ('A' <= c && c <= 'Z') || ('0' <= c && c <= '9')
}

/// Calls `char::is_alphanumeric`. The result is named by
/// `char_alphanumeric`; for ASCII chars it is true exactly for letters and
/// digits, as the std documentation of the Alphabetic/Numeric classes gives.
/// What it answers for other chars (Unicode tables) is not stated.
#[verifier::external_body]
fn is_alphanumeric(c: char) -> (r: bool)
    ensures
        r == char_alphanumeric(c),
        (c as u32) < 128 ==> (r <==> ascii_alnum(c)),
{
    c.is_alphanumeric()
}

/// Word characters: alphanumeric chars and `_`.
pub open spec fn is_word_spec(c: char) -> bool {
    char_alphanumeric(c) || c == '_'
}

/// True for alphanumeric chars and `_`.
pub fn is_word_char(ch: char) -> (b: bool)
    ensures
        b == is_word_spec(ch),
        (ch as u32) < 128 ==> (b <==> (ascii_alnum(ch) || ch == '_')),
{
    is_alphanumeric(ch) || ch == '_'
}

/// Builds a `String` with `String::from_iter` over the chars; its contents
/// are exactly the chars in order.
#[verifier::external_body]
pub fn string_from_chars(chars: &[char]) -> (s: String)
    ensures
        s@ == chars@,
{
    String::from_iter(chars)
}

/// The chars of a string, in order.
pub fn chars_of(s: &str) -> (v: Vec<char>)
    ensures
        v@ == s@,
{
    let mut v: Vec<char> = Vec::new();
    for c in it: s.chars()
        invariant
            v@ == it.seq().take(it.index() as int),
            it.seq() == s@,
    {
        v.push(c);
    }
    v
}

/// Unicode White_Space, the property `char::is_whitespace` tests: U+0009
/// to U+000D, U+0020, U+0085, U+00A0, U+1680, U+2000 to U+200A, U+2028,
/// U+2029, U+202F, U+205F and U+3000.
pub open spec fn char_whitespace(c: char) -> bool {
    let u = c as u32;
    ||| 0x09 <= u <= 0x0D
    ||| u == 0x20
    ||| u == 0x85
    ||| u == 0xA0
    ||| u == 0x1680
    ||| 0x2000 <= u <= 0x200A
    ||| u == 0x2028
    ||| u == 0x2029
    ||| u == 0x202F
    ||| u == 0x205F
    ||| u == 0x3000
}

/// Calls `char::is_whitespace`, which holds exactly of the White_Space
/// chars (see `char_whitespace`).
#[verifier::external_body]
pub fn is_whitespace(c: char) -> (r: bool)
    ensures
        r == char_whitespace(c),
{
    c.is_whitespace()
}

} // verus!

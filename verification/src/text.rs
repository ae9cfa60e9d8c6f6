//! Characters and strings: the character classes of the language, and the
//! conversions between strings and character buffers.

use vstd::prelude::*;

verus! {

/// The four blanks that separate tokens.
pub open spec fn is_whitespace(c: char) -> bool {
    c == ' ' || c == '\t' || c == '\n' || c == '\r'
}

/// An ASCII decimal digit.
pub open spec fn is_digit(c: char) -> bool {
    '0' <= c && c <= '9'
}

/// An ASCII letter.
pub open spec fn is_ascii_letter(c: char) -> bool {
    ('a' <= c && c <= 'z') || ('A' <= c && c <= 'Z')
}

/// A character of the ASCII range.
pub open spec fn is_ascii(c: char) -> bool {
    c <= '\x7f'
}

/// What `char::is_alphabetic` returns for a character beyond ASCII: whether
/// it has the Unicode property `Alphabetic`.
pub uninterp spec fn unicode_alphabetic(c: char) -> bool;

/// What `char::is_numeric` returns for a character beyond ASCII: whether it
/// is in one of the Unicode number categories.
pub uninterp spec fn unicode_numeric(c: char) -> bool;

/// A letter: an ASCII letter, or a character beyond ASCII that Unicode calls alphabetic.
pub open spec fn is_alphabetic(c: char) -> bool {
    if is_ascii(c) {
        is_ascii_letter(c)
    } else {
        unicode_alphabetic(c)
    }
}

/// A letter or a number.
pub open spec fn is_alphanumeric(c: char) -> bool {
    if is_ascii(c) {
        is_ascii_letter(c) || is_digit(c)
    } else {
        unicode_alphabetic(c) || unicode_numeric(c)
    }
}

/// A character that may start a word: a letter or an underscore.
pub open spec fn is_word_start(c: char) -> bool {
    is_alphabetic(c) || c == '_'
}

/// A character that may continue a word: a letter, a number or an underscore.
pub open spec fn is_word_part(c: char) -> bool {
    is_alphanumeric(c) || c == '_'
}

/// Trusted: `char::is_alphabetic`. Within ASCII it holds of the letters and
/// of nothing else; beyond ASCII its answer is only named, as
/// `unicode_alphabetic`.
#[verifier::external_body]
fn char_is_alphabetic(c: char) -> (b: bool)
    ensures
        b == (if c <= '\x7f' {
            is_ascii_letter(c)
        } else {
            unicode_alphabetic(c)
        }),
{
    c.is_alphabetic()
}

/// Trusted: `char::is_alphanumeric`, which holds of a character exactly if
/// `char::is_alphabetic` or `char::is_numeric` does. Within ASCII these are
/// the letters and the ten digits; beyond ASCII the two answers are only
/// named.
#[verifier::external_body]
fn char_is_alphanumeric(c: char) -> (b: bool)
    ensures
        b == (if c <= '\x7f' {
            is_ascii_letter(c) || is_digit(c)
        } else {
            unicode_alphabetic(c) || unicode_numeric(c)
        }),
{
    c.is_alphanumeric()
}

/// Trusted: `String::push`, which appends one character.
#[verifier::external_body]
pub(crate) fn string_push(s: &mut String, c: char)
    ensures
        final(s)@ == old(s)@.push(c),
{
    s.push(c)
}

/// Whether a character is one of the four blanks.
pub fn check_whitespace(c: char) -> (b: bool)
    ensures
        b == is_whitespace(c),
{
    c == ' ' || c == '\t' || c == '\n' || c == '\r'
}

/// Whether a character is an ASCII digit.
pub fn check_digit(c: char) -> (b: bool)
    ensures
        b == is_digit(c),
{
    '0' <= c && c <= '9'
}

/// Whether a character may start a word.
pub fn check_word_start(c: char) -> (b: bool)
    ensures
        b == is_word_start(c),
{
    char_is_alphabetic(c) || c == '_'
}

/// Whether a character may continue a word.
pub fn check_word_part(c: char) -> (b: bool)
    ensures
        b == is_word_part(c),
{
    char_is_alphanumeric(c) || c == '_'
}

/// The characters of a string, in order.
pub fn chars_of(s: &str) -> (chars: Vec<char>)
    ensures
        chars@ == s@,
{
    let mut chars: Vec<char> = Vec::new();
    for c in it: s.chars()
        invariant
            chars@ == it.seq().take(it.index() as int),
    {
        chars.push(c);
    }
    chars
}

/// The string made of `chars[from..to]`.
pub fn string_from_chars(chars: &Vec<char>, from: usize, to: usize) -> (s: String)
    requires
        from <= to <= chars.len(),
    ensures
        s@ == chars@.subrange(from as int, to as int),
{
    let mut s = String::new();
    let mut i: usize = from;
    while i < to
        invariant
            from <= i <= to <= chars.len(),
            s@ == chars@.subrange(from as int, i as int),
        decreases to - i,
    {
        string_push(&mut s, chars[i]);
        i += 1;
        assert(s@ =~= chars@.subrange(from as int, i as int));
    }
    s
}

} // verus!

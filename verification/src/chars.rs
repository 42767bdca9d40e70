//! Character classes and conversions between `str`/`String` and `Vec<char>`.
//!
//! The engine works on sequences of characters. ASCII classes are defined
//! outright; the Unicode classes that identifier-boundary matching and
//! parameter-name validation need come from `char`'s own methods, named here
//! by uninterpreted spec functions.

use vstd::prelude::*;
use vstd::string::StrSliceExecFns;

verus! {

/// The ASCII whitespace characters: space, tab, line feed, form feed,
/// carriage return.
pub open spec fn is_ascii_space(c: char) -> bool {
    c == ' ' || c == '\t' || c == '\n' || c == '\x0c' || c == '\r'
}

/// Executable mirror of [`is_ascii_space`].
pub fn ascii_space(c: char) -> (r: bool)
    ensures
        r == is_ascii_space(c),
{
    c == ' ' || c == '\t' || c == '\n' || c == '\x0c' || c == '\r'
}

/// The ASCII alphanumeric characters, used for directive keywords.
pub open spec fn is_ascii_alnum(c: char) -> bool {
    ('a' as u32) <= (c as u32) && (c as u32) <= ('z' as u32) || ('A' as u32) <= (c as u32) && (c
        as u32) <= ('Z' as u32) || ('0' as u32) <= (c as u32) && (c as u32) <= ('9' as u32)
}

/// Executable mirror of [`is_ascii_alnum`].
pub fn ascii_alnum(c: char) -> (r: bool)
    ensures
        r == is_ascii_alnum(c),
{
    let u = c as u32;
    ('a' as u32) <= u && u <= ('z' as u32) || ('A' as u32) <= u && u <= ('Z' as u32) || ('0'
        as u32) <= u && u <= ('9' as u32)
}

/// What `char::is_alphanumeric` returns: a fact of the character alone.
pub uninterp spec fn unicode_alnum(c: char) -> bool;

/// What `char::is_numeric` returns: a fact of the character alone.
pub uninterp spec fn unicode_numeric(c: char) -> bool;

/// Relies on `char::is_alphanumeric`, whose result depends on the character
/// alone; the result is named by [`unicode_alnum`].
#[verifier::external_body]
pub(crate) fn char_alnum(c: char) -> (r: bool)
    ensures
        r == unicode_alnum(c),
{
    c.is_alphanumeric()
}

/// Relies on `char::is_numeric`, whose result depends on the character alone;
/// the result is named by [`unicode_numeric`].
#[verifier::external_body]
pub(crate) fn char_numeric(c: char) -> (r: bool)
    ensures
        r == unicode_numeric(c),
{
    c.is_numeric()
}

/// A character that can stand inside an identifier: alphanumeric or `_`.
/// Substitution happens only at places not bordered by such characters.
pub open spec fn word_char(c: char) -> bool {
    unicode_alnum(c) || c == '_'
}

/// Executable mirror of [`word_char`].
pub fn is_word_char(c: char) -> (r: bool)
    ensures
        r == word_char(c),
{
    char_alnum(c) || c == '_'
}

/// The characters of a string slice, as a vector.
pub fn str_to_chars(s: &str) -> (r: Vec<char>)
    ensures
        r@ == s@,
{
    let n = s.unicode_len();
    let mut r: Vec<char> = Vec::new();
    let mut i: usize = 0;
    while i < n
        invariant
            n == s@.len(),
            i <= n,
            r@ == s@.subrange(0, i as int),
        decreases n - i,
    {
        r.push(s.get_char(i));
        i = i + 1;
        proof {
            assert(r@ =~= s@.subrange(0, i as int));
        }
    }
    proof {
        assert(s@.subrange(0, n as int) =~= s@);
    }
    r
}

/// Relies on `String: FromIterator<char>`: collecting yields the string of
/// exactly the given characters, in order.
#[verifier::external_body]
pub(crate) fn chars_to_string(v: &Vec<char>) -> (r: String)
    ensures
        r@ == v@,
{
    v.iter().collect()
}

} // verus!

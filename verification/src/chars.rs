//! Character classes of the grammar, and conversion between strings and
//! character vectors.

use vstd::prelude::*;
use vstd::string::StrSliceExecFns;

verus! {

/// A name for what `char::is_alphanumeric` returns on characters beyond
/// ASCII: whether the character is a Unicode letter or number.
pub uninterp spec fn unicode_alphanumeric(c: char) -> bool;

/// An ASCII letter or digit.
pub open spec fn is_ascii_alphanumeric_char(c: char) -> bool {
    (97 <= c as u32 && c as u32 <= 122) || (65 <= c as u32 && c as u32 <= 90) || (48 <= c as u32
        && c as u32 <= 57)
}

/// A Unicode letter or number.  Among ASCII characters these are exactly
/// the letters and digits; beyond ASCII the class is only named.
pub open spec fn is_alphanumeric_char(c: char) -> bool {
    if (c as u32) < 128 {
        is_ascii_alphanumeric_char(c)
    } else {
        unicode_alphanumeric(c)
    }
}

/// Relies on `char::is_alphanumeric`: true exactly for Unicode letters and
/// numbers, which depends on the character alone; among ASCII characters
/// those are precisely the letters and digits.
#[verifier::external_body]
pub(crate) fn char_is_alphanumeric(c: char) -> (r: bool)
    ensures
        r == is_alphanumeric_char(c),
        (c as u32) >= 128 ==> r == unicode_alphanumeric(c),
{
    c.is_alphanumeric()
}

/// ASCII whitespace: space, tab, newline, form feed, carriage return.
pub open spec fn is_space_char(c: char) -> bool {
    c == ' ' || c == '\t' || c == '\n' || c == '\x0c' || c == '\r'
}

/// Identifier characters: Unicode letters and numbers, `_` and `-`.
pub open spec fn is_ident_char(c: char) -> bool {
    is_alphanumeric_char(c) || c == '_' || c == '-'
}

/// Characters allowed in a bare (unquoted) argument value.
pub open spec fn is_bare_value_char(c: char) -> bool {
    is_alphanumeric_char(c) || c == '_' || c == '-' || c == '.' || c == '%'
}

/// Characters that literal text may hold without escaping: everything but
/// the specials `$ ^ { } |` and the escape character `\`.
pub open spec fn is_text_char(c: char) -> bool {
    c != '$' && c != '^' && c != '{' && c != '}' && c != '|' && c != '\\'
}

pub(crate) fn space_char(c: char) -> (r: bool)
    ensures
        r == is_space_char(c),
{
    c == ' ' || c == '\t' || c == '\n' || c == '\x0c' || c == '\r'
}

pub(crate) fn ident_char(c: char) -> (r: bool)
    ensures
        r == is_ident_char(c),
{
    char_is_alphanumeric(c) || c == '_' || c == '-'
}

pub(crate) fn bare_value_char(c: char) -> (r: bool)
    ensures
        r == is_bare_value_char(c),
{
    char_is_alphanumeric(c) || c == '_' || c == '-' || c == '.' || c == '%'
}

pub(crate) fn text_char(c: char) -> (r: bool)
    ensures
        r == is_text_char(c),
{
    c != '$' && c != '^' && c != '{' && c != '}' && c != '|' && c != '\\'
}

/// The characters of a string, in order, as a vector.
pub(crate) fn str_to_chars(s: &str) -> (r: Vec<char>)
    ensures
        r@ == s@,
{
    let n = s.unicode_len();
    let mut v: Vec<char> = Vec::new();
    let mut i: usize = 0;
    while i < n
        invariant
            n == s@.len(),
            i <= n,
            v@ == s@.subrange(0, i as int),
        decreases n - i,
    {
        let c = s.get_char(i);
        v.push(c);
        i = i + 1;
        proof {
            assert(v@ =~= s@.subrange(0, i as int));
        }
    }
    proof {
        assert(v@ =~= s@);
    }
    v
}

/// Relies on the `FromIterator` impl of `String` for `char`: collecting
/// characters yields the string holding exactly those characters in order.
#[verifier::external_body]
pub(crate) fn chars_to_string(v: &Vec<char>) -> (r: String)
    ensures
        r@ == v@,
{
    v.iter().collect()
}

} // verus!

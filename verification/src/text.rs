//! Small helpers on text.

use vstd::prelude::*;
use vstd::string::StringExecFns;

verus! {

/// Whether std's `char::is_uppercase` holds of `c`.
pub uninterp spec fn is_uppercase_char(c: char) -> bool;

/// Whether std's `char::is_whitespace` holds of `c`.
pub uninterp spec fn is_whitespace_char(c: char) -> bool;

/// Calls `char::is_uppercase`. The contract only gives the result its name:
/// which characters are uppercase is the Unicode table's to say.
#[verifier::external_body]
pub(crate) fn char_is_uppercase(c: char) -> (b: bool)
    ensures
        b == is_uppercase_char(c),
{
    c.is_uppercase()
}

/// Calls `char::is_whitespace`. The contract only gives the result its name:
/// which characters are white space is the Unicode table's to say.
#[verifier::external_body]
pub(crate) fn char_is_whitespace(c: char) -> (b: bool)
    ensures
        b == is_whitespace_char(c),
{
    c.is_whitespace()
}

/// Calls `String::push`, which appends the character to the end of the
/// text.
#[verifier::external_body]
pub(crate) fn push_char(s: &mut String, c: char)
    ensures
        final(s)@ == old(s)@.push(c),
{
    s.push(c)
}

/// Whether two texts are the same.
pub fn str_eq(a: &str, b: &str) -> (r: bool)
    ensures
        r == (a@ == b@),
{
    let x = String::from_str(a);
    let y = String::from_str(b);
    x == y
}

} // verus!

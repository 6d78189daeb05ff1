//! Character classes used by the `${name}` reference syntax.

use vstd::prelude::*;

verus! {

/// Whether `c` belongs to the Unicode word class `\w` (alphabetic, decimal
/// digit, mark, connector punctuation or join control).
pub uninterp spec fn word_char(c: char) -> bool;

/// Relies on `regex_syntax::is_word_character`, the class that `\w` denotes in
/// a Unicode regex. Its source answers `true` for `[_0-9a-zA-Z]`, and `$`, `{`
/// and `}` lie in none of the categories that it accepts.
#[verifier::external_body]
pub(crate) fn is_word_char(c: char) -> (r: bool)
    ensures
        r == word_char(c),
        ('a' <= c <= 'z' || 'A' <= c <= 'Z' || '0' <= c <= '9' || c == '_') ==> r,
        (c == '$' || c == '{' || c == '}') ==> !r,
{
    regex_syntax::is_word_character(c)
}

} // verus!

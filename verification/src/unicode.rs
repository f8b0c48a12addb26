//! Character properties that come from Unicode tables.
use vstd::prelude::*;
use crate::text::is_ascii_alnum;

verus! {

/// What `char::is_alphanumeric` answers: membership in the Unicode
/// `Alphabetic` or `Numeric` categories, which takes tables to state.
pub uninterp spec fn char_is_alphanumeric(c: char) -> bool;

/// An ASCII character: code point below 128.
pub open spec fn is_ascii_char(c: char) -> bool {
    (c as u32) < 0x80
}

/// `char::is_alphanumeric` from std.  The contract names the answer, and
/// states what std documents of ASCII: its letters and digits are
/// alphanumeric (alphabetic or numeric) and no other ASCII character is.
/// The Unicode tables behind the rest are not restated here.
#[verifier::external_body]
pub(crate) fn is_alphanumeric(c: char) -> (r: bool)
    ensures
        r == char_is_alphanumeric(c),
        is_ascii_char(c) ==> (r <==> is_ascii_alnum(c)),
{
    c.is_alphanumeric()
}

/// Whether a character is alphanumeric: for ASCII, its letters and digits;
/// beyond ASCII, what the Unicode tables say.
pub open spec fn alphanumeric(c: char) -> bool {
    if is_ascii_char(c) {
        is_ascii_alnum(c)
    } else {
        char_is_alphanumeric(c)
    }
}

/// Characters that may appear inside a search term.
pub open spec fn is_word_char(c: char) -> bool {
    alphanumeric(c) || c == '_'
}

pub fn word_char(c: char) -> (r: bool)
    ensures
        r == is_word_char(c),
{
    is_alphanumeric(c) || c == '_'
}

} // verus!

//! Character-level checks on text fields.

use vstd::prelude::*;

verus! {

/// Whether a character has the Unicode `White_Space` property: the 25 code
/// points that the Unicode Character Database lists in `PropList.txt`.
pub open spec fn white_space(c: char) -> bool {
    let n = c as u32;
    ||| 0x9 <= n <= 0xd
    ||| n == 0x20
    ||| n == 0x85
    ||| n == 0xa0
    ||| n == 0x1680
    ||| 0x2000 <= n <= 0x200a
    ||| n == 0x2028 || n == 0x2029
    ||| n == 0x202f
    ||| n == 0x205f
    ||| n == 0x3000
}

/// Whether a string is a valid e-mail address in the HTML5 sense.
pub uninterp spec fn email_valid(s: Seq<char>) -> bool;

/// A text is blank when it holds nothing but white space (it trims to nothing).
pub open spec fn blank(s: Seq<char>) -> bool {
    forall|i: int| 0 <= i < s.len() ==> white_space(#[trigger] s[i])
}

/// Relies on `char::is_whitespace`, which tests the `White_Space` property.
#[verifier::external_body]
fn is_white_space(c: char) -> (r: bool)
    ensures
        r == white_space(c),
{
    c.is_whitespace()
}

/// Relies on `validator::ValidateEmail::validate_email`; an address without
/// an `@` is never valid.
#[verifier::external_body]
pub(crate) fn is_email(s: &str) -> (r: bool)
    ensures
        r == email_valid(s@),
        r ==> s@.contains('@'),
{
    validator::ValidateEmail::validate_email(&s)
}

/// Whether `s` trims to the empty string.
pub fn is_blank(s: &str) -> (r: bool)
    ensures
        r == blank(s@),
{
    let mut all_white = true;
    for c in it: s.chars()
        invariant
            it.seq() == s@,
            all_white == (forall|j: int| 0 <= j < it.index() ==> white_space(#[trigger] s@[j])),
    {
        if !is_white_space(c) {
            all_white = false;
        }
    }
    all_white
}

/// Whether `s` holds at least `min` characters.
pub fn has_min_chars(s: &str, min: usize) -> (r: bool)
    ensures
        r == (s@.len() >= min),
{
    s.unicode_len() >= min
}

} // verus!

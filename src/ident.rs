//! Identifiers: 128-bit values written in the hyphenated UUID form.

use vstd::prelude::*;

verus! {

/// The lower-case hexadecimal digit for a value below 16.
pub open spec fn hex_char(n: u128) -> char {
    seq!['0', '1', '2', '3', '4', '5', '6', '7', '8', '9', 'a', 'b', 'c', 'd', 'e', 'f'][n as int]
}

/// Positions 8, 13, 18 and 23 of the hyphenated form hold a hyphen.
pub open spec fn is_hyphen_at(i: int) -> bool {
    i == 8 || i == 13 || i == 18 || i == 23
}

/// The index of the hexadecimal digit written at position `i` (hyphens skipped).
pub open spec fn digit_at(i: int) -> int {
    if i < 8 {
        i
    } else if i < 13 {
        i - 1
    } else if i < 18 {
        i - 2
    } else if i < 23 {
        i - 3
    } else {
        i - 4
    }
}

/// The `k`-th hexadecimal digit of `id`, the most significant first.
pub open spec fn nibble(id: u128, k: int) -> u128 {
    (id >> ((124 - 4 * k) as u128)) & 15u128
}

/// The hyphenated text of an identifier: 32 lower-case hexadecimal digits,
/// most significant first, grouped 8-4-4-4-12.
pub open spec fn uuid_text(id: u128) -> Seq<char> {
    Seq::new(36, |i: int| if is_hyphen_at(i) { '-' } else { hex_char(nibble(id, digit_at(i))) })
}

/// Relies on `uuid::Uuid::new_v4`: a random identifier whose version and
/// variant bits are set, so it is never the nil identifier.
#[verifier::external_body]
pub fn new_id() -> (r: u128)
    ensures
        r != 0,
{
    uuid::Uuid::new_v4().as_u128()
}

/// Relies on `uuid::Uuid::from_u128` and its `Display`, which writes the
/// hyphenated lower-case form.
#[verifier::external_body]
pub fn id_text(id: u128) -> (r: String)
    ensures
        r@ == uuid_text(id),
{
    uuid::Uuid::from_u128(id).to_string()
}

} // verus!

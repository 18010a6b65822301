//! UUIDs as text.
use vstd::prelude::*;

verus! {

/// The lower-case character of the hexadecimal digit `d`.
pub open spec fn hex_char(d: u128) -> char {
    if d < 10 {
        crate::text::digit_char(d as nat)
    } else if d == 10 {
        'a'
    } else if d == 11 {
        'b'
    } else if d == 12 {
        'c'
    } else if d == 13 {
        'd'
    } else if d == 14 {
        'e'
    } else {
        'f'
    }
}

/// The hexadecimal digit of `uuid` at place `n`, the highest at place 0.
pub open spec fn hex_digit(uuid: u128, n: int) -> u128 {
    (uuid >> ((124 - 4 * n) as u128)) & 0xf
}

/// Where the hyphens stand in a UUID's text.
pub open spec fn is_hyphen_place(i: int) -> bool {
    i == 8 || i == 13 || i == 18 || i == 23
}

/// How many hyphens stand in front of place `i` of a UUID's text.
pub open spec fn hyphens_before(i: int) -> int {
    if i < 9 {
        0
    } else if i < 14 {
        1
    } else if i < 19 {
        2
    } else if i < 24 {
        3
    } else {
        4
    }
}

/// The text of `uuid`: its 32 digits in lower case, the highest first, in
/// groups of 8, 4, 4, 4 and 12 with hyphens between them.
pub open spec fn hyphenated(uuid: u128) -> Seq<char> {
    Seq::new(
        36,
        |i: int|
            if is_hyphen_place(i) {
                '-'
            } else {
                hex_char(hex_digit(uuid, i - hyphens_before(i)))
            },
    )
}

/// Calls `Display` of `uuid::Uuid`, on the UUID that `Uuid::from_u128` makes of
/// `uuid` as a big-endian number. It claims that this writes the hyphenated
/// text in lower case.
#[verifier::external_body]
pub(crate) fn uuid_to_string(uuid: u128) -> (text: String)
    ensures
        text@ == hyphenated(uuid),
{
    uuid::Uuid::from_u128(uuid).to_string()
}

} // verus!

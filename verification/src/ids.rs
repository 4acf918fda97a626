//! Identifier text: the hyphenated rendering of a 128-bit identifier, and
//! parsing identifier text back, through the uuid crate.
use vstd::prelude::*;

use crate::element::Id;

verus! {

/// The lowercase hex digit of a value below sixteen.
pub open spec fn hex_digit_char(n: u128) -> char {
    if n == 0 {
        '0'
    } else if n == 1 {
        '1'
    } else if n == 2 {
        '2'
    } else if n == 3 {
        '3'
    } else if n == 4 {
        '4'
    } else if n == 5 {
        '5'
    } else if n == 6 {
        '6'
    } else if n == 7 {
        '7'
    } else if n == 8 {
        '8'
    } else if n == 9 {
        '9'
    } else if n == 10 {
        'a'
    } else if n == 11 {
        'b'
    } else if n == 12 {
        'c'
    } else if n == 13 {
        'd'
    } else if n == 14 {
        'e'
    } else {
        'f'
    }
}

/// Nibble `k` of a 128-bit value, most significant first.
pub open spec fn uuid_nibble(v: u128, k: int) -> u128 {
    (v >> (((31 - k) * 4) as u128)) & 0xf
}

/// In the 36-character hyphenated rendering, which nibble the character at
/// position `i` shows (positions 8, 13, 18 and 23 hold hyphens).
pub open spec fn hyphenated_nibble_index(i: int) -> int {
    if i < 8 {
        i
    } else if i < 13 {
        i - 1
    } else if i < 18 {
        i - 2
    } else if i < 23 {
        i - 3
    } else {
        i - 4
    }
}

/// The character at position `i` of the hyphenated rendering of `v`.
pub open spec fn uuid_char_at(v: u128, i: int) -> char {
    if i == 8 || i == 13 || i == 18 || i == 23 {
        '-'
    } else {
        hex_digit_char(uuid_nibble(v, hyphenated_nibble_index(i)))
    }
}

/// The canonical rendering of an identifier: 32 lowercase hex digits in
/// groups of 8, 4, 4, 4 and 12, separated by hyphens.
pub open spec fn uuid_hyphenated(v: u128) -> Seq<char> {
    Seq::new(36, |i: int| uuid_char_at(v, i))
}

/// What uuid parsing yields on arbitrary identifier text. Pinned down by the
/// contracts of `parse_id_text` only where the text is a canonical rendering.
pub uninterp spec fn parsed_uuid(s: Seq<char>) -> Option<u128>;

/// Relies on uuid::Uuid::parse_str and Uuid::as_u128: the result depends on
/// the characters alone, parsing never panics, and parsing the hyphenated
/// rendering of a value returns that value.
#[verifier::external_body]
pub(crate) fn parse_id_text(s: &str) -> (r: Option<Id>)
    ensures
        r == match parsed_uuid(s@) {
            Option::Some(v) => Option::Some(Id { value: v }),
            Option::None => Option::None::<Id>,
        },
        forall|v: u128| s@ == uuid_hyphenated(v) ==> r == Option::Some(Id { value: v }),
{
    match uuid::Uuid::parse_str(s) {
        Ok(u) => Some(Id { value: u.as_u128() }),
        Err(_) => None,
    }
}

/// Relies on uuid::Uuid::from_u128 and its Display impl: a uuid displays as
/// the lowercase hyphenated rendering of its 128-bit value.
#[verifier::external_body]
pub(crate) fn id_to_text(id: &Id) -> (r: String)
    ensures
        r@ == uuid_hyphenated(id.value),
{
    uuid::Uuid::from_u128(id.value).to_string()
}

} // verus!

//! UUIDs as 128-bit numbers, read and written by the `uuid` crate.
//!
//! The first octet of a UUID holds the most significant bits of its number.

use vstd::prelude::*;

verus! {

/// What `uuid::Uuid::parse_str` makes of a text: the number, or its message on
/// what is wrong with the text.
pub uninterp spec fn parsed_uuid(text: Seq<char>) -> Result<u128, Seq<char>>;

/// Whether a text reads as a UUID of this number.
pub open spec fn reads_as(text: Seq<char>, v: u128) -> bool {
    parsed_uuid(text) == Ok::<u128, Seq<char>>(v)
}

/// The `j`-th of the 32 hexadecimal digits of a number, the most significant first.
pub open spec fn nibble(v: u128, j: int) -> int {
    ((v >> ((124 - 4 * j) as u128)) & 0xf) as int
}

/// A digit of a lower-case hexadecimal number.
pub open spec fn hex_digit(n: int) -> char {
    seq!['0', '1', '2', '3', '4', '5', '6', '7', '8', '9', 'a', 'b', 'c', 'd', 'e', 'f'][n]
}

/// The hyphenated form: 32 lower-case hexadecimal digits in groups of 8, 4, 4, 4
/// and 12.
pub open spec fn hyphenated(v: u128) -> Seq<char> {
    Seq::new(
        36,
        |i: int|
            if i == 8 || i == 13 || i == 18 || i == 23 {
                '-'
            } else if i < 8 {
                hex_digit(nibble(v, i))
            } else if i < 13 {
                hex_digit(nibble(v, i - 1))
            } else if i < 18 {
                hex_digit(nibble(v, i - 2))
            } else if i < 23 {
                hex_digit(nibble(v, i - 3))
            } else {
                hex_digit(nibble(v, i - 4))
            },
    )
}

/// Whether a number has the version and variant bits of a random UUID.
pub open spec fn is_v4(v: u128) -> bool {
    (v >> 76u128) & 0xf == 4 && (v >> 62u128) & 0x3 == 2
}

/// Calls `uuid::Uuid::parse_str`, which accepts the simple, hyphenated, braced and
/// URN forms of a UUID. What it makes of the text is a function of the text.
#[verifier::external_body]
pub(crate) fn parse_uuid(text: &str) -> (r: Result<u128, String>)
    ensures
        match r {
            Ok(v) => reads_as(text@, v),
            Err(e) => parsed_uuid(text@) matches Err(m) && m == e@,
        },
{
    uuid::Uuid::parse_str(text).map(|u| u.as_u128()).map_err(|e| e.to_string())
}

/// Calls `to_string` of `uuid::Uuid`, which writes the hyphenated form. That form is
/// one that `uuid::Uuid::parse_str` reads back.
#[verifier::external_body]
pub(crate) fn uuid_text(v: u128) -> (r: String)
    ensures
        r@ == hyphenated(v),
        reads_as(r@, v),
{
    uuid::Uuid::from_u128(v).to_string()
}

/// Calls `uuid::Uuid::new_v4`, which fills all bits but those of the version and
/// the variant at random. It panics where the system has no source of randomness.
#[verifier::external_body]
pub(crate) fn random_uuid() -> (r: u128)
    ensures
        is_v4(r),
{
    uuid::Uuid::new_v4().as_u128()
}

} // verus!

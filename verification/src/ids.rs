//! Knot and packet identities.
//!
//! Identities are UUIDs held as their 128-bit value (big-endian byte order,
//! the value `uuid::Uuid::as_u128` returns). Fresh identities come from the
//! `uuid` crate's version-4 generator.

use vstd::prelude::*;

verus! {

/// A UUID held as its 128-bit value.
pub type KnotId = u128;

/// The nil UUID (all bits zero).
pub const NIL_ID: u128 = 0u128;

/// Lower-case hexadecimal digit for a nibble.
pub open spec fn hex_digit(n: int) -> char {
    if n == 0 { '0' } else if n == 1 { '1' } else if n == 2 { '2' } else if n == 3 { '3' }
    else if n == 4 { '4' } else if n == 5 { '5' } else if n == 6 { '6' } else if n == 7 { '7' }
    else if n == 8 { '8' } else if n == 9 { '9' } else if n == 10 { 'a' } else if n == 11 { 'b' }
    else if n == 12 { 'c' } else if n == 13 { 'd' } else if n == 14 { 'e' } else { 'f' }
}

/// The `k`-th nibble of `v`, counted from the most significant one (k in 0..32).
pub open spec fn nibble(v: u128, k: int) -> int {
    ((v as int) / vstd::arithmetic::power2::pow2((4 * (31 - k)) as nat) as int) % 16
}

/// How many hyphens precede position `i` of the hyphenated form.
pub open spec fn hyphens_before(i: int) -> int {
    if i <= 8 { 0 } else if i <= 13 { 1 } else if i <= 18 { 2 } else if i <= 23 { 3 } else { 4 }
}

/// The canonical text of a UUID: 32 lower-case hex digits in the groups
/// 8-4-4-4-12, separated by hyphens.
pub open spec fn uuid_text(v: u128) -> Seq<char> {
    Seq::new(36, |i: int|
        if i == 8 || i == 13 || i == 18 || i == 23 { '-' }
        else { hex_digit(nibble(v, i - hyphens_before(i))) })
}

/// A version-4 UUID has version nibble 4 and the RFC 4122 variant bits `10`.
pub open spec fn is_v4(v: u128) -> bool {
    &&& (v >> 76u128) & 0xFu128 == 4
    &&& (v >> 62u128) & 0x3u128 == 2
}

/// What `uuid::Uuid::parse_str` gives back for a text, as a 128-bit value.
pub uninterp spec fn parsed_uuid(text: Seq<char>) -> Option<u128>;

/// Draws a fresh random identity with `uuid::Uuid::new_v4`.
///
/// The value is random; the contract claims only what the uuid crate's source
/// fixes of every outcome: the version and variant bits of a v4 UUID.
#[verifier::external_body]
pub(crate) fn new_id() -> (id: u128)
    ensures
        is_v4(id),
{
    uuid::Uuid::new_v4().as_u128()
}

/// Formats an identity with `uuid::Uuid`'s `Display` (the hyphenated,
/// lower-case form). The contract states that form exactly.
#[verifier::external_body]
pub(crate) fn id_to_string(id: u128) -> (s: String)
    ensures
        s@ == uuid_text(id),
{
    uuid::Uuid::from_u128(id).to_string()
}

/// Parses a text with `uuid::Uuid::parse_str`.
///
/// The accepted spellings (simple, hyphenated, braced, URN) are left to the
/// name `parsed_uuid`; the contract adds one fact the crate's parser fixes:
/// the hyphenated lower-case form of a value parses back to that value.
#[verifier::external_body]
pub(crate) fn parse_id(text: &str) -> (r: Option<u128>)
    ensures
        r == parsed_uuid(text@),
        forall|v: u128| text@ == #[trigger] uuid_text(v) ==> r == Some(v),
{
    uuid::Uuid::parse_str(text).ok().map(|u| u.as_u128())
}

} // verus!

//! Player identifiers: 128-bit UUIDs, held as `u128` (the big-endian value
//! of the sixteen bytes), with the `uuid` crate doing the text conversions and
//! the random generation.
use vstd::prelude::*;
use vstd::arithmetic::power2::pow2;

verus! {

/// The lower-case hexadecimal digit for `d` (which is below sixteen).
pub open spec fn hex_char(d: int) -> char {
    if d < 10 {
        ((('0' as u32) as int) + d) as char
    } else {
        ((('a' as u32) as int) + d - 10) as char
    }
}

/// The `k`-th hexadecimal digit of `x`, counted from the most significant one.
pub open spec fn nibble(x: u128, k: int) -> int {
    ((x as int) / (pow2((4 * (31 - k)) as nat) as int)) % 16
}

/// Whether position `i` of a hyphenated UUID holds a hyphen.
pub open spec fn is_hyphen_position(i: int) -> bool {
    i == 8 || i == 13 || i == 18 || i == 23
}

/// Which hexadecimal digit stands at position `i` of a hyphenated UUID.
pub open spec fn digit_position(i: int) -> int {
    if i < 8 {
        i
    } else if i < 13 {
        i - 1
    } else if i < 18 {
        i - 2
    } else if i < 23 {
        i - 3
    } else {
        i - 4
    }
}

/// The hyphenated lower-case text of a UUID: 32 hexadecimal digits, most
/// significant first, grouped 8-4-4-4-12.
pub open spec fn uuid_text(x: u128) -> Seq<char> {
    Seq::new(
        36,
        |i: int|
            if is_hyphen_position(i) {
                '-'
            } else {
                hex_char(nibble(x, digit_position(i)))
            },
    )
}

/// Calls `Uuid::from_u128` and formats the UUID with `Display`, which writes
/// the hyphenated lower-case form.
#[verifier::external_body]
pub(crate) fn uuid_to_string(x: u128) -> (r: String)
    ensures
        r@ == uuid_text(x),
{
    uuid::Uuid::from_u128(x).to_string()
}

/// What `Uuid::from_str` makes of a text: the UUID it denotes, or `None`
/// when it is not one of the accepted forms.
pub uninterp spec fn parsed_uuid(t: Seq<char>) -> Option<u128>;

/// Calls `Uuid::from_str` and takes the 128-bit value of a success. The
/// hyphenated form that `uuid_to_string` writes is among the accepted ones
/// and parses back to the value it was written from.
#[verifier::external_body]
pub(crate) fn parse_uuid(s: &str) -> (r: Option<u128>)
    ensures
        r == parsed_uuid(s@),
        forall|x: u128| s@ == uuid_text(x) ==> r == Some(x),
{
    match <uuid::Uuid as std::str::FromStr>::from_str(s) {
        Ok(u) => Some(u.as_u128()),
        Err(_) => None,
    }
}

/// Calls `Uuid::new_v4`, a random UUID. Whatever comes back carries the
/// version 4 bits and the RFC 4122 variant bits that the call sets.
#[verifier::external_body]
pub(crate) fn new_player_uuid() -> (r: u128)
    ensures
        r & 0xf000_0000_0000_0000_0000u128 == 0x4000_0000_0000_0000_0000u128,
        r & 0xc000_0000_0000_0000u128 == 0x8000_0000_0000_0000u128,
{
    uuid::Uuid::new_v4().as_u128()
}

} // verus!

//! Identifiers. Every identifier of the game (users, guests, players, rooms,
//! roles) is a UUID, held here as its 128-bit value.
use vstd::prelude::*;

verus! {

/// The lower-case hexadecimal digit for `d`, for `d` from 0 to 15.
pub open spec fn hex_digit(d: int) -> char {
    seq!['0', '1', '2', '3', '4', '5', '6', '7', '8', '9', 'a', 'b', 'c', 'd', 'e', 'f'][d]
}

/// The last `n` hexadecimal digits of `x`, most significant first.
pub open spec fn hex_digits(x: nat, n: nat) -> Seq<char>
    decreases n,
{
    if n == 0 {
        Seq::empty()
    } else {
        hex_digits(x / 16, (n - 1) as nat) + seq![hex_digit((x % 16) as int)]
    }
}

/// The hyphenated lower-case text form of the UUID with the given 128 bits:
/// its 32 hexadecimal digits, most significant first, in groups of 8, 4, 4,
/// 4 and 12 joined by `-`.
pub open spec fn uuid_text(id: u128) -> Seq<char> {
    let h = hex_digits(id as nat, 32);
    h.subrange(0, 8) + seq!['-'] + h.subrange(8, 12) + seq!['-'] + h.subrange(12, 16) + seq!['-']
        + h.subrange(16, 20) + seq!['-'] + h.subrange(20, 32)
}

/// Whether `id` is the value of a version-4 UUID of the standard variant:
/// its version nibble is 4 and its two variant bits are `10`.
pub open spec fn is_v4_id(id: u128) -> bool {
    &&& (id >> 76u128) & 0xfu128 == 4u128
    &&& (id >> 62u128) & 0x3u128 == 2u128
}

/// Calls `uuid::Uuid::new_v4` and returns the 128 bits of the new UUID
/// (`Uuid::as_u128`). The value is random. The uuid source sets the version
/// nibble to 4 and the two variant bits to `10` and keeps the other bits
/// random; that is all this contract claims.
#[verifier::external_body]
pub fn new_v4_id() -> (id: u128)
    ensures
        is_v4_id(id),
{
    uuid::Uuid::new_v4().as_u128()
}

/// Calls `uuid::Uuid::from_u128(id).to_string()`. `from_u128` keeps the
/// bits in big-endian order and `Display` writes the hyphenated lower-case
/// hexadecimal form, which is what the contract claims.
#[verifier::external_body]
pub fn uuid_to_string(id: u128) -> (s: String)
    ensures
        s@ == uuid_text(id),
{
    uuid::Uuid::from_u128(id).to_string()
}

} // verus!

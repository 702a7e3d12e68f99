//! Room and client identifiers (128-bit UUIDs) and their textual forms.
use vstd::prelude::*;

verus! {

/// The lower-case hexadecimal digit for `d` (`0 <= d < 16`).
pub open spec fn hex_digit(d: nat) -> char {
    if d < 10 {
        (48 + d) as char
    } else {
        (87 + d) as char
    }
}

/// The last `n` hexadecimal digits of `v`, most significant first.
pub open spec fn hex_digits(v: nat, n: nat) -> Seq<char>
    decreases n,
{
    if n == 0 {
        Seq::empty()
    } else {
        hex_digits(v / 16, (n - 1) as nat).push(hex_digit(v % 16))
    }
}

/// The hyphenated lower-case form of a UUID: 32 hex digits of its
/// big-endian value grouped 8-4-4-4-12.
pub open spec fn uuid_text(id: u128) -> Seq<char> {
    let h = hex_digits(id as nat, 32);
    h.subrange(0, 8) + seq!['-'] + h.subrange(8, 12) + seq!['-'] + h.subrange(12, 16) + seq!['-']
        + h.subrange(16, 20) + seq!['-'] + h.subrange(20, 32)
}

/// The decimal digit for `d` (`0 <= d < 10`).
pub open spec fn decimal_digit(d: nat) -> char {
    (48 + d) as char
}

/// The decimal representation of `n`, without sign or leading zeros.
pub open spec fn decimal(n: nat) -> Seq<char>
    decreases n,
{
    if n < 10 {
        seq![decimal_digit(n)]
    } else {
        decimal(n / 10).push(decimal_digit(n % 10))
    }
}

/// What `uuid::Uuid::parse_str` gives for a text: the UUID's 128-bit value,
/// or `None` where it reports an error.
pub uninterp spec fn uuid_parse_result(text: Seq<char>) -> Option<u128>;

/// Calls `uuid::Uuid::parse_str` and takes the parsed UUID as its
/// big-endian 128-bit value (`Uuid::as_u128`); an error becomes `None`.
/// The contract only names the result: it depends on the text alone.
#[verifier::external_body]
pub(crate) fn parse_uuid(text: &str) -> (parsed: Option<u128>)
    ensures
        parsed == uuid_parse_result(text@),
{
    uuid::Uuid::parse_str(text).ok().map(|u| u.as_u128())
}

/// Calls `Uuid::from_u128(id).to_string()`. The uuid crate's `Display`
/// writes the hyphenated lower-case form, and `parse_str` reads that form
/// back to the same value; both facts are what the contract claims.
#[verifier::external_body]
pub(crate) fn uuid_to_text(id: u128) -> (text: String)
    ensures
        text@ == uuid_text(id),
        uuid_parse_result(text@) == Some(id),
{
    uuid::Uuid::from_u128(id).to_string()
}

/// Calls `uuid::Uuid::new_v4()` and takes its 128-bit value. The value is
/// random; the crate's source masks in the version nibble 4 (bits 76..80)
/// and the RFC 4122 variant `10` (bits 62..64), which is all the contract
/// claims.
#[verifier::external_body]
pub(crate) fn random_uuid() -> (id: u128)
    ensures
        (id >> 76u128) & 0xfu128 == 4,
        (id >> 62u128) & 0x3u128 == 2,
{
    uuid::Uuid::new_v4().as_u128()
}

/// Calls `usize::to_string`, whose `Display` writes the decimal digits.
#[verifier::external_body]
pub(crate) fn usize_to_text(n: usize) -> (text: String)
    ensures
        text@ == decimal(n as nat),
{
    n.to_string()
}

/// A freshly generated client id is never the nil id.
pub proof fn lemma_random_uuid_not_nil(id: u128)
    requires
        (id >> 76u128) & 0xfu128 == 4,
    ensures
        id != 0,
{
    assert(id == 0 ==> (id >> 76u128) & 0xfu128 == 0) by (bit_vector);
}

} // verus!

//! Identifiers of threads and requests: UUIDs, held as their 128-bit value.

use vstd::prelude::*;

verus! {

/// The value of the UUID that a text denotes, where it denotes one.
pub uninterp spec fn uuid_value(text: Seq<char>) -> Option<u128>;

/// Calls `uuid::Uuid::parse_str`. The claim is that what it reads depends on
/// the text alone; that reading is `uuid_value`, and an error is `None`.
#[verifier::external_body]
pub(crate) fn parse_uuid(text: &str) -> (value: Option<u128>)
    ensures
        value == uuid_value(text@),
{
    uuid::Uuid::parse_str(text).ok().map(|id| id.as_u128())
}

/// Whether the bits that mark a random UUID are set: version four, in the
/// thirteenth hexadecimal digit, and the variant bits `10`, at the top of the
/// seventeenth.
pub open spec fn is_random_uuid(value: u128) -> bool {
    &&& (value as int / 0x1_0000_0000_0000_0000_000) % 16 == 4
    &&& (value as int / 0x4000_0000_0000_0000) % 4 == 2
}

/// Calls `uuid::Uuid::new_v4`. The claim is that the version and variant bits
/// are those of a random UUID; nothing is said of the other bits, which are
/// left to chance.
#[verifier::external_body]
pub(crate) fn random_uuid() -> (value: u128)
    ensures
        is_random_uuid(value),
{
    uuid::Uuid::new_v4().as_u128()
}

} // verus!

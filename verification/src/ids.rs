use vstd::prelude::*;

verus! {

/// Whether a 128-bit value (a UUID read in big-endian order) carries the
/// version and variant of a random UUID: version nibble 4, variant bits `10`.
pub open spec fn is_random_uuid(bits: u128) -> bool {
    &&& (bits >> 76u128) & 0xFu128 == 4u128
    &&& (bits >> 62u128) & 3u128 == 2u128
}

/// Draws a fresh random UUID (`uuid::Uuid::new_v4`) and returns its value as
/// a big-endian 128-bit integer (`Uuid::as_u128`).
///
/// The value is random: the contract claims only that `new_v4` sets the
/// version and variant bits, as its source does with a fixed mask.
#[verifier::external_body]
pub(crate) fn random_uuid() -> (r: u128)
    ensures
        is_random_uuid(r),
{
    uuid::Uuid::new_v4().as_u128()
}

/// A random UUID is never the nil UUID.
pub proof fn law_random_uuid_is_not_nil(bits: u128)
    requires
        is_random_uuid(bits),
    ensures
        bits != 0,
{
    assert(is_random_uuid(bits) ==> bits != 0) by (bit_vector);
}

} // verus!

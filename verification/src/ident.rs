//! Identifiers for new entries.

use vstd::prelude::*;

verus! {

/// Holds of the 128 bits of a random identifier: the four version bits say 4
/// and the two variant bits say 10, as in every identifier made from random
/// bits. The identifier of all zeros is not among them.
pub open spec fn is_random_id(id: u128) -> bool {
    id & 0x0000_0000_0000_f000_c000_0000_0000_0000u128
        == 0x0000_0000_0000_4000_8000_0000_0000_0000u128
}

/// Draws a new identifier with `uuid::Uuid::new_v4` and hands out its 128
/// bits, most significant byte first, as `Uuid::as_u128` packs them.
///
/// Trusted, not proved. The bits are random, so that two calls may differ;
/// all that is claimed of them is what `new_v4` sets in every identifier it
/// makes: the version and the variant. That the identifier is new to the
/// list is likely beyond doubt but not claimed. `new_v4` panics where the
/// system has no random bytes to give.
#[verifier::external_body]
pub(crate) fn fresh_id() -> (id: u128)
    ensures
        is_random_id(id),
{
    uuid::Uuid::new_v4().as_u128()
}

} // verus!

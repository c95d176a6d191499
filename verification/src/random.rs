//! Numbers drawn at random.

use vstd::prelude::*;

verus! {

/// `rand::Rng::gen_range` on the generator of `rand::thread_rng`, over the
/// range from 0 up to, and without, `limit`: some value of that range.
/// Nothing is claimed about which. `gen_range` panics on an empty range,
/// which is left out.
#[verifier::external_body]
pub(crate) fn random_below(limit: u16) -> (drawn: u16)
    requires
        limit > 0,
    ensures
        drawn < limit,
{
    rand::Rng::gen_range(&mut rand::thread_rng(), 0u16..limit)
}

} // verus!

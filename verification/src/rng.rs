//! The machine's randomness source for the CXNN instruction.

use vstd::prelude::*;
use rand::Rng;

verus! {

/// Relies on `rand::thread_rng` and `rand::Rng::gen_range` over the
/// range `0..u8::MAX`: the sample is uniform over that non-empty,
/// exclusive range, so the byte returned is strictly below 255 and the
/// call does not panic.  Nothing else is assumed of the draw; callers
/// must hold for every such byte.
#[verifier::external_body]
pub(crate) fn random_byte() -> (r: u8)
    ensures
        r < 255,
{
    let mut rng = rand::thread_rng();
    rng.gen_range(0..u8::MAX)
}

} // verus!

//! Randomized jitter, trusted to the `rand` crate.

use rand::Rng;
use vstd::prelude::*;

verus! {

/// A uniformly random delay in `[0, d_ms)`, used to de-synchronize
/// periodic work. Relies on `rand::Rng::gen_range` with the half-open
/// range `0..d_ms`: the sample always lies in that range; nothing else is
/// assumed of it.
#[verifier::external_body]
pub fn jitter(d_ms: i64) -> (r: i64)
    requires
        d_ms > 0,
    ensures
        0 <= r < d_ms,
{
    let mut rng = rand::thread_rng();
    rng.gen_range(0..d_ms)
}

} // verus!

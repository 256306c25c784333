//! Core data types: an hourly price point and the rate-limiter interface.

use vstd::prelude::*;

verus! {

/// One observed price point: a UTC instant at millisecond resolution and
/// the price, carried as the bit pattern of an IEEE-754 double so that the
/// decision logic stays free of floating point.
#[derive(Clone, Copy, Debug, PartialEq, Eq, Structural)]
pub struct Data {
    /// UTC milliseconds since the epoch.
    pub at: i64,
    /// Price in EUR/MWh, as `f64::to_bits`.
    pub price_bits: u64,
}

/// A cooperative rate limiter: the ingest loop asks it before each
/// upstream request. `acquire_at` either grants a token for the request at
/// the given instant, or names how long to wait before asking again.
pub trait Limiter {
    /// Ask for a token at `now_ms`; `None` means granted, `Some(wait_ms)`
    /// means ask again after that many milliseconds.
    fn acquire_at(&mut self, now_ms: i64) -> Option<u64>;
}

} // verus!

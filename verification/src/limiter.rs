//! Verified token-bucket rate limiter: capacity 60, refilling one token
//! per second (60 per minute). The caller supplies the clock; waiting is
//! the caller's business, so acquisition either grants a token or names
//! how long to wait before asking again.

use vstd::prelude::*;

use crate::data::Limiter;
use crate::tz::TS_RANGE_MS;

verus! {

/// Greatest number of tokens the bucket holds.
pub const RATE_CAPACITY: u32 = 60;

/// One token becomes available every such many milliseconds.
pub const TOKEN_INTERVAL_MS: i64 = 1_000;

/// Cooperative token-bucket rate limiter for the upstream requests.
pub struct RateLimiter {
    tokens: u32,
    last_refill_ms: i64,
}

/// Tokens in the bucket after topping it up at `now`: one token per full
/// second elapsed since `last`, capped at the capacity.
pub open spec fn spec_refill_tokens(tokens: int, last: int, now: int) -> int {
    if now <= last {
        tokens
    } else if tokens + (now - last) / (TOKEN_INTERVAL_MS as int) >= RATE_CAPACITY as int {
        RATE_CAPACITY as int
    } else {
        tokens + (now - last) / (TOKEN_INTERVAL_MS as int)
    }
}

/// Refill epoch after topping up at `now`: advanced by the granted whole
/// seconds, or snapped to `now` when the bucket fills.
pub open spec fn spec_refill_last(tokens: int, last: int, now: int) -> int {
    if now <= last {
        last
    } else if tokens + (now - last) / (TOKEN_INTERVAL_MS as int) >= RATE_CAPACITY as int {
        now
    } else {
        last + (now - last) / (TOKEN_INTERVAL_MS as int) * (TOKEN_INTERVAL_MS as int)
    }
}

impl RateLimiter {
    /// The bucket never exceeds its capacity and its refill epoch stays a
    /// representable instant.
    #[verifier::type_invariant]
    spec fn inv(self) -> bool {
        &&& self.tokens <= RATE_CAPACITY
        &&& -TS_RANGE_MS <= self.last_refill_ms <= TS_RANGE_MS
    }

    /// Tokens currently in the bucket.
    pub closed spec fn spec_tokens(&self) -> int {
        self.tokens as int
    }

    /// The refill epoch.
    pub closed spec fn spec_last(&self) -> int {
        self.last_refill_ms as int
    }

    /// A full bucket whose refill epoch is `now_ms`.
    pub fn new(now_ms: i64) -> (r: RateLimiter)
        requires
            -TS_RANGE_MS <= now_ms <= TS_RANGE_MS,
        ensures
            r.spec_tokens() == RATE_CAPACITY as int,
            r.spec_last() == now_ms as int,
    {
        RateLimiter { tokens: RATE_CAPACITY, last_refill_ms: now_ms }
    }

    /// Ask for a token at `now_ms`. Tops the bucket up, then either takes
    /// a token (`None`) or reports how many milliseconds remain until the
    /// next token (`Some`), leaving the bucket empty-handed but topped up.
    pub fn wait_at(&mut self, now_ms: i64) -> (r: Option<u64>)
        requires
            -TS_RANGE_MS <= now_ms <= TS_RANGE_MS,
        ensures
            final(self).spec_last() == spec_refill_last(
                old(self).spec_tokens(),
                old(self).spec_last(),
                now_ms as int,
            ),
            ({
                let tk = spec_refill_tokens(
                    old(self).spec_tokens(),
                    old(self).spec_last(),
                    now_ms as int,
                );
                &&& (r is None <==> tk > 0)
                &&& (r is None ==> final(self).spec_tokens() == tk - 1)
                &&& (r matches Some(w) ==> final(self).spec_tokens() == 0 && w == final(self).spec_last() + TOKEN_INTERVAL_MS - now_ms && w > 0)
            }),
    {
        proof {
            use_type_invariant(&*self);
        }
        if now_ms > self.last_refill_ms {
            let elapsed: u64 = (now_ms - self.last_refill_ms) as u64;
            let add: u64 = elapsed / 1000;
            if add >= (RATE_CAPACITY - self.tokens) as u64 {
                self.tokens = RATE_CAPACITY;
                self.last_refill_ms = now_ms;
            } else {
                self.tokens = self.tokens + add as u32;
                self.last_refill_ms = self.last_refill_ms + (add as i64) * 1000;
            }
        }
        if self.tokens > 0 {
            self.tokens = self.tokens - 1;
            None
        } else {
            Some((self.last_refill_ms + TOKEN_INTERVAL_MS - now_ms) as u64)
        }
    }
}

impl Limiter for RateLimiter {
    fn acquire_at(&mut self, now_ms: i64) -> Option<u64> {
        if now_ms < -TS_RANGE_MS || now_ms > TS_RANGE_MS {
            return Some(TOKEN_INTERVAL_MS as u64);
        }
        self.wait_at(now_ms)
    }
}

} // verus!

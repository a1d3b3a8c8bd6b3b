//! Minimum spacing between fetches.
//!
//! Chapter fetches are strictly serialized, and the configured spacing
//! keeps the source from throttling or blocking the run.  The limiter
//! only computes how long to wait at a given clock reading, so the
//! caller owns the clock and the sleeping and may drive the limiter
//! with any clock at all.

use vstd::prelude::*;

verus! {

/// How many milliseconds still separate the clock reading `now` from
/// the point one interval after the last recorded request, saturating
/// at the largest representable wait.
pub open spec fn delay_needed(last: Option<u64>, interval: int, now: int) -> int {
    match last {
        None => 0,
        Some(t) => {
            if t + interval <= now {
                0
            } else if t + interval - now > u64::MAX {
                u64::MAX as int
            } else {
                t + interval - now
            }
        },
    }
}

/// The rate limiter: the configured spacing and the clock reading of
/// the last request that went out.
pub struct RateLimiter {
    min_interval_ms: u64,
    last_request_ms: Option<u64>,
}

impl RateLimiter {
    /// The configured spacing between requests.
    pub closed spec fn interval(self) -> u64 {
        self.min_interval_ms
    }

    /// The clock reading of the last recorded request, if any.
    pub closed spec fn last(self) -> Option<u64> {
        self.last_request_ms
    }

    /// A limiter with this spacing and no request recorded yet: the
    /// first request may go out at once.
    pub fn new(min_interval_ms: u64) -> (r: RateLimiter)
        ensures
            r.interval() == min_interval_ms,
            r.last() is None,
    {
        RateLimiter { min_interval_ms, last_request_ms: None }
    }

    /// How long to wait at clock reading `now_ms` before the next
    /// request may go out.
    pub fn delay_before(&self, now_ms: u64) -> (d: u64)
        ensures
            d as int == delay_needed(self.last(), self.interval() as int, now_ms as int),
    {
        match self.last_request_ms {
            None => 0,
            Some(t) => {
                match t.checked_add(self.min_interval_ms) {
                    Some(due) => {
                        if due > now_ms {
                            due - now_ms
                        } else {
                            0
                        }
                    },
                    None => {
                        if t >= now_ms {
                            match (t - now_ms).checked_add(self.min_interval_ms) {
                                Some(d) => d,
                                None => u64::MAX,
                            }
                        } else {
                            self.min_interval_ms - (now_ms - t)
                        }
                    },
                }
            },
        }
    }

    /// Record that a request went out at clock reading `now_ms`.
    pub fn record(&mut self, now_ms: u64)
        ensures
            final(self).interval() == old(self).interval(),
            final(self).last() == Some(now_ms),
    {
        self.last_request_ms = Some(now_ms);
    }
}

} // verus!

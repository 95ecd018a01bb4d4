// Simple rate limiter for throttling expensive operations
use vstd::prelude::*;

verus! {

/// Nanoseconds in a millisecond.
pub const NANOS_PER_MILLI: u128 = 1_000_000;

/// How far before its creation, or its reset, a limiter places the last request:
/// a hundred seconds, in nanoseconds.
pub const HEAD_START_NANOS: i128 = 100_000_000_000;

/// A limiter that lets a request pass only if the minimum interval has gone by since the
/// last request that passed. Time is given by the caller, in nanoseconds of a clock that
/// never runs backwards.
#[derive(Debug, Clone, Copy)]
pub struct RateLimiter {
    last_request: i128,
    min_interval: u128,
}

impl RateLimiter {
    #[verifier::type_invariant]
    spec fn placed(self) -> bool {
        -HEAD_START_NANOS <= self.last_request <= u64::MAX
    }

    /// The time of the last request that passed.
    pub closed spec fn last_request(self) -> int {
        self.last_request as int
    }

    /// The least time between two requests that pass.
    pub closed spec fn min_interval(self) -> int {
        self.min_interval as int
    }

    /// The time gone by since the last request; none if the clock reads earlier than then.
    pub open spec fn elapsed(self, now: int) -> int {
        if now >= self.last_request() {
            now - self.last_request()
        } else {
            0
        }
    }

    /// Whether a request at `now` passes.
    pub open spec fn allows(self, now: int) -> bool {
        self.elapsed(now) >= self.min_interval()
    }

    /// How long a request at `now` still has to wait.
    pub open spec fn remaining(self, now: int) -> int {
        self.min_interval() - self.elapsed(now)
    }

    /// A limiter made at `now` with the given interval in milliseconds. Its last request is
    /// placed a hundred seconds in the past, so that a first request passes at once unless
    /// the interval is longer than that.
    pub fn new(min_interval_ms: u64, now: u64) -> (limiter: Self)
        ensures
            limiter.min_interval() == min_interval_ms * NANOS_PER_MILLI,
            limiter.last_request() == now - HEAD_START_NANOS,
    {
        Self {
            // Initialize with a time far in the past to allow first request
            last_request: now as i128 - HEAD_START_NANOS,
            min_interval: min_interval_ms as u128 * NANOS_PER_MILLI,
        }
    }

    /// The verdict on a request at `now`: it passes, or it has to wait for the time given.
    fn verdict(&self, now: u64) -> (result: Result<(), u128>)
        ensures
            self.allows(now as int) ==> result is Ok,
            !self.allows(now as int) ==> result == Err::<(), u128>(self.remaining(now as int) as u128),
    {
        proof {
            use_type_invariant(self);
        }
        let elapsed: u128 = if now as i128 >= self.last_request {
            (now as i128 - self.last_request) as u128
        } else {
            0
        };
        if elapsed < self.min_interval {
            Err(self.min_interval - elapsed)
        } else {
            Ok(())
        }
    }

    /// Check if enough time has passed since last request and update the timestamp
    ///
    /// Returns `Ok(())` if the request is allowed, and then `now` becomes the time of the last
    /// request; `Err` with the nanoseconds still to wait if rate limited, and then nothing
    /// changes.
    pub fn check_and_update(&mut self, now: u64) -> (result: Result<(), u128>)
        ensures
            old(self).allows(now as int) ==> result is Ok && final(self).last_request() == now,
            final(self).min_interval() == old(self).min_interval(),
            !old(self).allows(now as int) ==> result == Err::<(), u128>(old(self).remaining(now as int) as u128)
                && *final(self) == *old(self),
    {
        let result = self.verdict(now);
        if result.is_ok() {
            self.last_request = now as i128;
        }
        result
    }

    /// Check rate limit without updating the timestamp (read-only)
    ///
    /// Returns `Ok(())` if a request would be allowed, `Err` with the nanoseconds still to
    /// wait if currently rate limited.
    pub fn check(&self, now: u64) -> (result: Result<(), u128>)
        ensures
            self.allows(now as int) ==> result is Ok,
            !self.allows(now as int) ==> result == Err::<(), u128>(self.remaining(now as int) as u128),
    {
        self.verdict(now)
    }

    /// Reset the rate limiter to allow immediate requests
    ///
    /// The last request is placed a hundred seconds before `now`, as at creation.
    pub fn reset(&mut self, now: u64)
        ensures
            final(self).last_request() == now - HEAD_START_NANOS,
            final(self).min_interval() == old(self).min_interval(),
    {
        self.last_request = now as i128 - HEAD_START_NANOS;
    }
}

} // verus!

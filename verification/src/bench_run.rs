//! One worker's budget and stop decisions.
//!
//! A worker is bounded by either a request budget or a wall-clock budget,
//! set at construction. Each work check spends one unit of the request
//! budget; the wall-clock budget is checked against the monotonic clock.
//! The decisions that drive the worker's loop — whether more work remains
//! and whether an outcome must stop the whole run — stand here; the loop
//! itself, which awaits the rate limiter and the protocol exchange, is the
//! caller's.

use vstd::prelude::*;
use std::time::Instant;
use crate::clock::{instant_now, micros_between};
use crate::metrics::RequestStats;
use crate::rate_limiter::RateLimiter;

verus! {

/// One worker's identity, budget and shaper.
pub struct BenchRun {
    /// The worker's index within the whole session.
    pub index: u64,
    bench_begin: Instant,
    timeout_micros: Option<u64>,
    requests_sent: u64,
    max_requests: Option<u64>,
    max_duration_micros: Option<u64>,
    rate_limiter: RateLimiter,
}

impl BenchRun {
    /// The worker's index within the whole session.
    pub closed spec fn spec_index(&self) -> u64 {
        self.index
    }

    /// How many work checks were spent.
    pub closed spec fn spec_requests_sent(&self) -> nat {
        self.requests_sent as nat
    }

    /// The request budget, if the worker is request-bounded.
    pub closed spec fn spec_max_requests(&self) -> Option<u64> {
        self.max_requests
    }

    /// The wall-clock budget in microseconds, if the worker is
    /// time-bounded.
    pub closed spec fn spec_max_duration_micros(&self) -> Option<u64> {
        self.max_duration_micros
    }

    /// The per-request timeout in microseconds, if one is set.
    pub closed spec fn spec_timeout_micros(&self) -> Option<u64> {
        self.timeout_micros
    }

    /// Whether this worker's shaper is unlimited.
    pub open spec fn spec_unlimited(&self) -> bool {
        self.spec_rate_limiter().is_unlimited()
    }

    /// The worker's rate shaper.
    pub closed spec fn spec_rate_limiter(&self) -> RateLimiter {
        self.rate_limiter
    }

    /// A worker carries exactly one budget.
    pub open spec fn wf(&self) -> bool {
        self.spec_max_requests() is Some <==> self.spec_max_duration_micros() is None
    }

    /// A worker bounded by a number of requests.
    pub fn from_request_limit(
        index: u64,
        max_requests: u64,
        rate_limiter: RateLimiter,
        timeout_micros: Option<u64>,
    ) -> (r: BenchRun)
        ensures
            r.wf(),
            r.spec_index() == index,
            r.spec_requests_sent() == 0,
            r.spec_max_requests() == Some(max_requests),
            r.spec_max_duration_micros() is None,
            r.spec_timeout_micros() == timeout_micros,
            r.spec_rate_limiter() == rate_limiter,
    {
        BenchRun::new(index, Some(max_requests), None, rate_limiter, timeout_micros)
    }

    /// A worker bounded by elapsed wall-clock time, in microseconds.
    pub fn from_duration_limit(
        index: u64,
        max_duration_micros: u64,
        rate_limiter: RateLimiter,
        timeout_micros: Option<u64>,
    ) -> (r: BenchRun)
        ensures
            r.wf(),
            r.spec_index() == index,
            r.spec_requests_sent() == 0,
            r.spec_max_requests() is None,
            r.spec_max_duration_micros() == Some(max_duration_micros),
            r.spec_timeout_micros() == timeout_micros,
            r.spec_rate_limiter() == rate_limiter,
    {
        BenchRun::new(index, None, Some(max_duration_micros), rate_limiter, timeout_micros)
    }

    /// A worker must be bounded either by duration or by request count.
    fn new(
        index: u64,
        max_requests: Option<u64>,
        max_duration_micros: Option<u64>,
        rate_limiter: RateLimiter,
        timeout_micros: Option<u64>,
    ) -> (r: BenchRun)
        requires
            max_requests is Some <==> max_duration_micros is None,
        ensures
            r.wf(),
            r.spec_index() == index,
            r.spec_requests_sent() == 0,
            r.spec_max_requests() == max_requests,
            r.spec_max_duration_micros() == max_duration_micros,
            r.spec_timeout_micros() == timeout_micros,
            r.spec_rate_limiter() == rate_limiter,
    {
        BenchRun {
            index,
            bench_begin: instant_now(),
            timeout_micros,
            requests_sent: 0,
            max_requests,
            max_duration_micros,
            rate_limiter,
        }
    }

    /// Whether the worker's budget allows one more request, spending one
    /// unit of the request budget either way. A request-bounded worker has
    /// more work exactly while fewer requests were checked out than its
    /// budget; a time-bounded worker has more work while the clock reads
    /// less than its budget.
    pub fn has_more_work(&mut self) -> (r: bool)
        requires
            old(self).spec_requests_sent() < u64::MAX,
        ensures
            final(self).spec_requests_sent() == old(self).spec_requests_sent() + 1,
            final(self).spec_index() == old(self).spec_index(),
            final(self).spec_max_requests() == old(self).spec_max_requests(),
            final(self).spec_max_duration_micros() == old(self).spec_max_duration_micros(),
            final(self).spec_timeout_micros() == old(self).spec_timeout_micros(),
            final(self).spec_rate_limiter() == old(self).spec_rate_limiter(),
            final(self).wf() == old(self).wf(),
            old(self).spec_max_requests() matches Some(m) ==> (r <==> old(self).spec_requests_sent()
                < m),
    {
        let has_more = match self.max_requests {
            Some(max_requests) => self.requests_sent < max_requests,
            None => {
                match self.max_duration_micros {
                    Some(max_duration_micros) => {
                        let now = instant_now();
                        micros_between(&self.bench_begin, &now) < max_duration_micros
                    },
                    None => false,
                }
            },
        };
        self.requests_sent = self.requests_sent + 1;
        has_more
    }

    /// How many work checks were spent.
    pub fn requests_sent(&self) -> (r: u64)
        ensures
            r == self.spec_requests_sent(),
    {
        self.requests_sent
    }

    /// The worker's rate shaper, for the caller that awaits on it.
    pub fn rate_limiter(&self) -> (r: &RateLimiter)
        ensures
            *r == self.spec_rate_limiter(),
    {
        &self.rate_limiter
    }

    /// The per-request timeout in microseconds, if one is set.
    pub fn timeout_micros(&self) -> (r: Option<u64>)
        ensures
            r == self.spec_timeout_micros(),
    {
        self.timeout_micros
    }
}

/// Whether an exchange's outcome must stop the whole run: a request that
/// timed out produced no record and is fatal; a recorded outcome is fatal
/// exactly when it says so.
pub fn is_fatal_outcome(outcome: Option<&RequestStats>) -> (r: bool)
    ensures
        r <==> (outcome is None || (outcome matches Some(s) && s.fatal_error)),
{
    match outcome {
        None => true,
        Some(stats) => stats.fatal_error,
    }
}

} // verus!

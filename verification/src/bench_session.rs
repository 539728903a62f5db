//! The rate ladder and the session that turns it into batches of workers.
//!
//! The ladder steps through rates (in thousandths of requests per second)
//! from `start` towards `end` by `rate_increment`, then repeats the top
//! rate `max_rate_iterations` more times; without an increment it repeats
//! the starting rate `max_rate_iterations` times in all. Once complete, the
//! session yields no further batches. Each batch holds one worker per unit
//! of concurrency, each worker shaped to its share of the batch rate.

use vstd::prelude::*;
use std::sync::Arc;
use crate::bench_run::BenchRun;
use crate::configuration::BenchmarkMode;
use crate::rate_limiter::RateLimiter;
use vstd::arithmetic::div_mod::{lemma_fundamental_div_mod, lemma_div_basics_5};
use vstd::arithmetic::mul::lemma_mul_inequality;

verus! {

/// The schedule of rates across batches, in thousandths of requests per
/// second.
#[derive(Clone, Copy)]
pub struct RateLadder {
    /// The first rate.
    pub start: u64,
    /// The top rate.
    pub end: u64,
    /// How much each batch raises the rate, if the ladder climbs.
    pub rate_increment: Option<u64>,
    /// Each batch's wall-clock budget in microseconds, if time-bounded.
    pub step_duration_micros: Option<u64>,
    /// Each worker's request budget, if request-bounded.
    pub step_requests: Option<u64>,
    /// The rate reached so far.
    pub current: u64,
    /// How many more batches run at the top rate.
    pub max_rate_iterations: u64,
    /// Whether the ladder has finished.
    pub complete: bool,
}

impl RateLadder {
    /// The rate of the next batch: the rate reached so far, at least the
    /// first rate.
    pub open spec fn spec_get_current(&self) -> u64 {
        if self.current > self.start {
            self.current
        } else {
            self.start
        }
    }

    /// The ladder's invariant: the rates are ordered, the reached rate
    /// never passes the top, and the top fits the shaper's machine bound.
    pub open spec fn wf(&self) -> bool {
        &&& self.start <= self.end
        &&& self.current <= self.end
        &&& self.end <= 0x1_0000_0000_0000
    }

    /// A ladder must carry one budget for its batches.
    pub open spec fn has_budget(&self) -> bool {
        self.step_requests is Some || self.step_duration_micros is Some
    }

    /// The rate of the next batch.
    pub fn get_current(&self) -> (r: u64)
        ensures
            r == self.spec_get_current(),
    {
        if self.current > self.start {
            self.current
        } else {
            self.start
        }
    }

    /// Advances the ladder one step; never called once complete.
    pub fn increment_rate(&mut self)
        requires
            old(self).wf(),
            !old(self).complete,
        ensures
            *final(self) == ladder_next(*old(self)),
            final(self).wf(),
    {
        match self.rate_increment {
            None => {
                if self.max_rate_iterations <= 1 {
                    self.complete = true;
                } else {
                    self.max_rate_iterations = self.max_rate_iterations - 1;
                }
            },
            Some(rate_increment) => {
                let cur = self.get_current();
                let distance = self.end - cur;
                let increment = if rate_increment < distance {
                    rate_increment
                } else {
                    distance
                };
                if increment < 1000 {
                    if self.max_rate_iterations > 0 {
                        self.max_rate_iterations = self.max_rate_iterations - 1;
                    } else {
                        self.complete = true;
                    }
                }
                self.current = cur + increment;
            },
        }
    }
}

/// One ladder step: without an increment the ladder completes at its last
/// repetition, else it climbs by the increment capped at the distance left;
/// a step short of one whole rate unit spends a repetition or, with none
/// left, completes.
pub open spec fn ladder_next(l: RateLadder) -> RateLadder {
    match l.rate_increment {
        None => {
            if l.max_rate_iterations <= 1 {
                RateLadder { complete: true, ..l }
            } else {
                RateLadder { max_rate_iterations: (l.max_rate_iterations - 1) as u64, ..l }
            }
        },
        Some(inc) => {
            let cur = l.spec_get_current();
            let distance = (l.end - cur) as u64;
            let step = if inc < distance {
                inc
            } else {
                distance
            };
            if step < 1000 {
                if l.max_rate_iterations > 0 {
                    RateLadder {
                        max_rate_iterations: (l.max_rate_iterations - 1) as u64,
                        current: (cur + step) as u64,
                        ..l
                    }
                } else {
                    RateLadder { complete: true, current: (cur + step) as u64, ..l }
                }
            } else {
                RateLadder { current: (cur + step) as u64, ..l }
            }
        },
    }
}

/// The ladder after `n` steps.
pub open spec fn ladder_advance(l: RateLadder, n: nat) -> RateLadder
    decreases n,
{
    if n == 0 {
        l
    } else {
        ladder_next(ladder_advance(l, (n - 1) as nat))
    }
}

/// Law: a ladder without a rate increment yields exactly
/// `max_rate_iterations` batches, all at the starting rate. After `n` steps
/// for `n` below that bound the ladder is incomplete and still at the
/// starting rate; the step at the bound completes it.
pub proof fn lemma_ladder_fixed_rate(l: RateLadder, n: nat)
    requires
        l.rate_increment is None,
        !l.complete,
        l.max_rate_iterations >= 1,
        n <= l.max_rate_iterations,
    ensures
        n < l.max_rate_iterations ==> !ladder_advance(l, n).complete && ladder_advance(
            l,
            n,
        ).max_rate_iterations == l.max_rate_iterations - n,
        n == l.max_rate_iterations ==> ladder_advance(l, n).complete,
        ladder_advance(l, n).spec_get_current() == l.spec_get_current(),
        ladder_advance(l, n).rate_increment is None,
        ladder_advance(l, n).current == l.current,
        ladder_advance(l, n).start == l.start,
    decreases n,
{
    if n > 0 {
        lemma_ladder_fixed_rate(l, (n - 1) as nat);
    }
}

/// Law: a ladder whose span from `start` to `end` is a whole multiple of
/// its increment (one rate unit or more) climbs by the increment once per
/// step until it reaches `end`, holds `end` for `max_rate_iterations` more
/// steps, and completes on the step after those. With `m` the number of
/// climbing steps, the rate after `n` steps is `start + n·increment` up to
/// `n == m`, and `end` beyond; the ladder is incomplete through
/// `n == m + max_rate_iterations` and complete one step later.
pub proof fn lemma_ladder_with_increment(l: RateLadder, n: nat)
    requires
        l.wf(),
        !l.complete,
        l.current == 0,
        l.rate_increment matches Some(inc) && inc >= 1000 && (l.end - l.start) % (inc as int)
            == 0,
        n <= (l.end - l.start) / (l.rate_increment->0 as int) + l.max_rate_iterations + 1,
    ensures
        ({
            let inc = l.rate_increment->0;
            let m = (l.end - l.start) / (inc as int);
            let a = ladder_advance(l, n);
            &&& a.start == l.start && a.end == l.end && a.rate_increment == l.rate_increment
            &&& a.step_requests == l.step_requests && a.step_duration_micros
                == l.step_duration_micros
            &&& n <= m ==> a.spec_get_current() == l.start + n * inc && a.max_rate_iterations
                == l.max_rate_iterations && !a.complete
            &&& n > m ==> a.spec_get_current() == l.end
            &&& m < n <= m + l.max_rate_iterations ==> a.max_rate_iterations
                == l.max_rate_iterations - (n - m) && !a.complete
            &&& n == m + l.max_rate_iterations + 1 ==> a.complete
            &&& a.spec_get_current() <= l.end
            &&& a.current <= l.end
        }),
    decreases n,
{
    let inc = l.rate_increment->0;
    let m = (l.end - l.start) / (inc as int);
    lemma_fundamental_div_mod(l.end - l.start, inc as int);
    assert(l.end - l.start == m * inc);
    vstd::arithmetic::div_mod::lemma_div_basics_4(l.end - l.start, inc as int);
    assert(m >= 0);
    if n == 0 {
        assert(l.spec_get_current() == l.start + 0 * inc);
    } else {
        lemma_ladder_with_increment(l, (n - 1) as nat);
        let b = ladder_advance(l, (n - 1) as nat);
        assert(ladder_advance(l, n) == ladder_next(b));
        if n - 1 < m {
            let cur = b.spec_get_current();
            assert(cur == l.start + (n - 1) * inc);
            assert(l.end - cur == (m - (n - 1)) * inc) by (nonlinear_arith)
                requires
                    l.end - l.start == m * inc,
                    cur == l.start + (n - 1) * inc,
            ;
            assert((m - (n - 1)) * inc >= 1 * inc) by {
                lemma_mul_inequality(1, m - (n - 1) as int, inc as int);
            }
            assert(l.start + n * inc == cur + inc) by (nonlinear_arith)
                requires
                    cur == l.start + (n - 1) * inc,
            ;
            assert(n * inc <= m * inc) by {
                lemma_mul_inequality(n as int, m, inc as int);
            }
        } else {
            assert(b.spec_get_current() == l.end);
        }
    }
}

/// A batch: one worker per unit of concurrency, all at one rate, with the
/// protocol adapter they share.
pub struct BenchBatch {
    /// The batch's workers.
    pub runs: Vec<BenchRun>,
    /// The protocol adapter all workers share.
    pub mode: Arc<BenchmarkMode>,
}

/// Relies on `Arc::clone`: a clone of a shared handle is a handle to the
/// same value.
#[verifier::external_body]
pub(crate) fn clone_arc_mode(a: &Arc<BenchmarkMode>) -> (r: Arc<BenchmarkMode>)
    ensures
        r == *a,
{
    a.clone()
}

/// Yields batches of workers at the ladder's successive rates.
pub struct BenchSession {
    /// How many workers each batch holds.
    pub concurrency: usize,
    /// The schedule of rates.
    pub rate_ladder: RateLadder,
    /// The protocol adapter every batch shares.
    pub mode: Arc<BenchmarkMode>,
    /// How many batches were yielded.
    pub current_iteration: usize,
    /// The per-request timeout handed to every worker, in microseconds.
    pub request_timeout_micros: Option<u64>,
}

impl BenchSession {
    /// The session's invariant: at least one worker per batch, bounded
    /// counters, a well-formed ladder and a budget for its batches.
    pub open spec fn wf(&self) -> bool {
        &&& 1 <= self.concurrency <= 0xFFFF_FFFF
        &&& self.current_iteration <= 0xFFFF_FFFF
        &&& self.rate_ladder.wf()
        &&& self.rate_ladder.has_budget()
    }

    /// The next batch: none once the ladder is complete; otherwise one
    /// worker per unit of concurrency, numbered consecutively across
    /// batches, each bounded by the ladder's budget and shaped to its share
    /// of the batch rate, and the ladder advanced by one step.
    pub fn next_batch(&mut self) -> (r: Option<BenchBatch>)
        requires
            old(self).wf(),
            old(self).current_iteration < 0xFFFF_FFFF,
        ensures
            old(self).rate_ladder.complete ==> r is None && *final(self) == *old(self),
            !old(self).rate_ladder.complete ==> {
                &&& r matches Some(b) && {
                    &&& b.runs@.len() == old(self).concurrency
                    &&& b.mode == old(self).mode
                    &&& forall|i: int|
                        0 <= i < b.runs@.len() ==> {
                            let run = #[trigger] b.runs@[i];
                            &&& run.wf()
                            &&& run.spec_index() == old(self).current_iteration * old(
                                self,
                            ).concurrency + i
                            &&& run.spec_requests_sent() == 0
                            &&& run.spec_timeout_micros() == old(self).request_timeout_micros
                            &&& (old(self).rate_ladder.step_requests matches Some(q)
                                ==> run.spec_max_requests() == Some(q))
                            &&& (old(self).rate_ladder.step_requests is None
                                ==> run.spec_max_duration_micros()
                                == old(self).rate_ladder.step_duration_micros)
                            &&& (run.spec_unlimited() <==> old(
                                self,
                            ).rate_ladder.spec_get_current() as int / old(self).concurrency as int
                                == 0)
                            &&& run.spec_rate_limiter().spec_schedule()
                                == crate::rate_limiter::spec_built_schedule(
                                (old(self).rate_ladder.spec_get_current() as int / old(
                                    self,
                                ).concurrency as int) as u64,
                            )
                        }
                }
                &&& final(self).rate_ladder == ladder_next(old(self).rate_ladder)
                &&& final(self).current_iteration == old(self).current_iteration + 1
                &&& final(self).concurrency == old(self).concurrency
                &&& final(self).mode == old(self).mode
                &&& final(self).request_timeout_micros == old(self).request_timeout_micros
                &&& final(self).wf()
            },
    {
        if self.rate_ladder.complete {
            return None;
        }
        let current = self.rate_ladder.get_current();
        let rate_per_second = current / (self.concurrency as u64);
        proof {
            lemma_div_basics_5(current as int, self.concurrency as int);
        }
        let mut items: Vec<BenchRun> = Vec::new();
        let mut i: usize = 0;
        while i < self.concurrency
            invariant
                0 <= i <= self.concurrency,
                self == old(self),
                self.wf(),
                !self.rate_ladder.complete,
                self.current_iteration < 0xFFFF_FFFF,
                current == self.rate_ladder.spec_get_current(),
                rate_per_second == current as int / self.concurrency as int,
                rate_per_second <= 0x1_0000_0000_0000,
                items@.len() == i,
                forall|p: int|
                    0 <= p < i ==> {
                        let run = #[trigger] items@[p];
                        &&& run.wf()
                        &&& run.spec_index() == self.current_iteration * self.concurrency + p
                        &&& run.spec_requests_sent() == 0
                        &&& run.spec_timeout_micros() == self.request_timeout_micros
                        &&& (self.rate_ladder.step_requests matches Some(q)
                            ==> run.spec_max_requests() == Some(q))
                        &&& (self.rate_ladder.step_requests is None
                            ==> run.spec_max_duration_micros()
                            == self.rate_ladder.step_duration_micros)
                        &&& (run.spec_unlimited() <==> rate_per_second == 0)
                        &&& run.spec_rate_limiter().spec_schedule()
                            == crate::rate_limiter::spec_built_schedule(rate_per_second)
                    },
            decreases self.concurrency - i,
        {
            proof {
                assert((self.current_iteration as int) * (self.concurrency as int) + i
                    < 0x1_0000_0000_0000_0000) by (nonlinear_arith)
                    requires
                        self.current_iteration <= 0xFFFF_FFFF,
                        self.concurrency <= 0xFFFF_FFFF,
                        i < self.concurrency,
                ;
            }
            let idx = (self.current_iteration as u64) * (self.concurrency as u64) + (i as u64);
            let limiter = RateLimiter::build_rate_limiter(rate_per_second);
            let run = match self.rate_ladder.step_requests {
                Some(requests) => BenchRun::from_request_limit(
                    idx,
                    requests,
                    limiter,
                    self.request_timeout_micros,
                ),
                None => {
                    match self.rate_ladder.step_duration_micros {
                        Some(duration_micros) => BenchRun::from_duration_limit(
                            idx,
                            duration_micros,
                            limiter,
                            self.request_timeout_micros,
                        ),
                        None => {
                            proof {
                                assert(false);
                            }
                            BenchRun::from_request_limit(
                                idx,
                                0,
                                RateLimiter::build_rate_limiter(0),
                                None,
                            )
                        },
                    }
                },
            };
            items.push(run);
            i = i + 1;
        }
        self.rate_ladder.increment_rate();
        self.current_iteration = self.current_iteration + 1;
        Some(BenchBatch { runs: items, mode: clone_arc_mode(&self.mode) })
    }
}

/// A builder for [`RateLadder`]: the rates, the increment and the two
/// budget options must all be given; the repetition count defaults to one.
/// The reached rate starts at zero and the ladder starts incomplete.
pub struct RateLadderBuilder {
    /// The first rate, once set, in thousandths of requests per second.
    pub start: Option<u64>,
    /// The top rate, once set, in thousandths of requests per second.
    pub end: Option<u64>,
    /// The increment, once set.
    pub rate_increment: Option<Option<u64>>,
    /// The batch wall-clock budget, once set.
    pub step_duration_micros: Option<Option<u64>>,
    /// The per-worker request budget, once set.
    pub step_requests: Option<Option<u64>>,
    /// How many more batches run at the top rate.
    pub max_rate_iterations: u64,
}

impl RateLadderBuilder {
    /// The first rate, in thousandths of requests per second.
    pub fn start(self, v: u64) -> (r: Self)
        ensures
            r == (RateLadderBuilder { start: Some(v), ..self }),
    {
        RateLadderBuilder { start: Some(v), ..self }
    }

    /// The top rate, in thousandths of requests per second.
    pub fn end(self, v: u64) -> (r: Self)
        ensures
            r == (RateLadderBuilder { end: Some(v), ..self }),
    {
        RateLadderBuilder { end: Some(v), ..self }
    }

    /// How much each batch raises the rate, if the ladder climbs.
    pub fn rate_increment(self, v: Option<u64>) -> (r: Self)
        ensures
            r == (RateLadderBuilder { rate_increment: Some(v), ..self }),
    {
        RateLadderBuilder { rate_increment: Some(v), ..self }
    }

    /// Each batch's wall-clock budget in microseconds, if time-bounded.
    pub fn step_duration_micros(self, v: Option<u64>) -> (r: Self)
        ensures
            r == (RateLadderBuilder { step_duration_micros: Some(v), ..self }),
    {
        RateLadderBuilder { step_duration_micros: Some(v), ..self }
    }

    /// Each worker's request budget, if request-bounded.
    pub fn step_requests(self, v: Option<u64>) -> (r: Self)
        ensures
            r == (RateLadderBuilder { step_requests: Some(v), ..self }),
    {
        RateLadderBuilder { step_requests: Some(v), ..self }
    }

    /// How many more batches run at the top rate.
    pub fn max_rate_iterations(self, v: u64) -> (r: Self)
        ensures
            r == (RateLadderBuilder { max_rate_iterations: v, ..self }),
    {
        RateLadderBuilder { max_rate_iterations: v, ..self }
    }

    /// The finished ladder: fails if a required field is missing, the rates
    /// are out of order, or the top rate is beyond the shaper's machine
    /// bound.
    pub fn build(self) -> (r: Result<RateLadder, String>)
        ensures
            r is Ok <==> {
                &&& self.start is Some
                &&& self.end is Some
                &&& self.rate_increment is Some
                &&& self.step_duration_micros is Some
                &&& self.step_requests is Some
                &&& self.start->0 <= self.end->0
                &&& self.end->0 <= 0x1_0000_0000_0000
            },
            r matches Ok(l) ==> {
                &&& Some(l.start) == self.start
                &&& Some(l.end) == self.end
                &&& Some(l.rate_increment) == self.rate_increment
                &&& Some(l.step_duration_micros) == self.step_duration_micros
                &&& Some(l.step_requests) == self.step_requests
                &&& l.max_rate_iterations == self.max_rate_iterations
                &&& l.current == 0
                &&& !l.complete
                &&& l.wf()
            },
    {
        let start = match self.start {
            Some(v) => v,
            None => {
                return Err("`start` must be initialized".to_owned());
            },
        };
        let end = match self.end {
            Some(v) => v,
            None => {
                return Err("`end` must be initialized".to_owned());
            },
        };
        let rate_increment = match self.rate_increment {
            Some(v) => v,
            None => {
                return Err("`rate_increment` must be initialized".to_owned());
            },
        };
        let step_duration_micros = match self.step_duration_micros {
            Some(v) => v,
            None => {
                return Err("`step_duration_micros` must be initialized".to_owned());
            },
        };
        let step_requests = match self.step_requests {
            Some(v) => v,
            None => {
                return Err("`step_requests` must be initialized".to_owned());
            },
        };
        if start > end {
            return Err("the starting rate must not exceed the top rate".to_owned());
        }
        if end > 0x1_0000_0000_0000 {
            return Err("the top rate is too large".to_owned());
        }
        Ok(
            RateLadder {
                start,
                end,
                rate_increment,
                step_duration_micros,
                step_requests,
                current: 0,
                max_rate_iterations: self.max_rate_iterations,
                complete: false,
            },
        )
    }
}

impl Default for RateLadderBuilder {
    /// Nothing set yet; one repetition at the top rate.
    fn default() -> (r: Self)
        ensures
            r.start is None && r.end is None && r.rate_increment is None
                && r.step_duration_micros is None && r.step_requests is None
                && r.max_rate_iterations == 1,
    {
        RateLadderBuilder {
            start: None,
            end: None,
            rate_increment: None,
            step_duration_micros: None,
            step_requests: None,
            max_rate_iterations: 1,
        }
    }
}

} // verus!

//! Per-run counters and categorical tallies.
//!
//! A batch aggregates one `RequestStats` record per request into a
//! `BenchRunMetrics`: total and successful request counts, total bytes, a
//! per-status summary, and one latency histogram each for successes and
//! failures. The aggregate keeps two facts invariant: successful requests
//! never outnumber all requests, and the summary counts add up to exactly
//! the total request count.

use vstd::prelude::*;
use std::time::Instant;
use crate::clock::{instant_now, micros_between};
use crate::histogram::LatencyHistogram;

verus! {

/// The outcome of one request, as a protocol adapter reports it.
pub struct RequestStats {
    /// Whether the response was a success (for HTTP: a 2xx code).
    pub is_success: bool,
    /// How many body bytes were consumed.
    pub bytes_processed: u64,
    /// The status label, such as `200 OK`, or an error description.
    pub status: String,
    /// The wall-clock duration of the exchange, in microseconds.
    pub duration_micros: u64,
    /// Whether the outcome must stop the whole run.
    pub fatal_error: bool,
    /// An operation label for per-operation reporting, if any.
    pub operation_name: Option<String>,
}

/// The sum of the counts of a status tally.
pub open spec fn pairs_total(s: Seq<(String, u64)>) -> nat
    decreases s.len(),
{
    if s.len() == 0 {
        0
    } else {
        s[0].1 as nat + pairs_total(s.drop_first())
    }
}

/// The count tallied for status `k`.
pub open spec fn pairs_count(s: Seq<(String, u64)>, k: Seq<char>) -> nat
    decreases s.len(),
{
    if s.len() == 0 {
        0
    } else {
        (if s[0].0@ == k {
            s[0].1 as nat
        } else {
            0
        }) + pairs_count(s.drop_first(), k)
    }
}

/// Every status appears at most once in a tally.
pub open spec fn keys_unique(s: Seq<(String, u64)>) -> bool {
    forall|i: int, j: int| 0 <= i < j < s.len() ==> (#[trigger] s[i]).0@ != (#[trigger] s[j]).0@
}

/// Raising one tallied count raises the tally's total by the same amount.
proof fn lemma_pairs_total_update(s: Seq<(String, u64)>, i: int, x: (String, u64))
    requires
        0 <= i < s.len(),
        x.1 >= s[i].1,
    ensures
        pairs_total(s.update(i, x)) == pairs_total(s) + x.1 - s[i].1,
    decreases s.len(),
{
    if i == 0 {
        assert(s.update(0, x).drop_first() =~= s.drop_first());
    } else {
        assert(s.update(i, x).drop_first() =~= s.drop_first().update(i - 1, x));
        lemma_pairs_total_update(s.drop_first(), i - 1, x);
    }
}

/// Raising one tallied count raises the count of its status by the same
/// amount and no other.
proof fn lemma_pairs_count_update(s: Seq<(String, u64)>, i: int, x: (String, u64), k: Seq<char>)
    requires
        0 <= i < s.len(),
        x.0@ == s[i].0@,
        x.1 >= s[i].1,
    ensures
        pairs_count(s.update(i, x), k) == pairs_count(s, k) + (if s[i].0@ == k {
            x.1 - s[i].1
        } else {
            0
        }),
    decreases s.len(),
{
    if i == 0 {
        assert(s.update(0, x).drop_first() =~= s.drop_first());
    } else {
        assert(s.update(i, x).drop_first() =~= s.drop_first().update(i - 1, x));
        lemma_pairs_count_update(s.drop_first(), i - 1, x, k);
    }
}

/// Appending a fresh pair raises the tally's total by its count.
proof fn lemma_pairs_total_push(s: Seq<(String, u64)>, x: (String, u64))
    ensures
        pairs_total(s.push(x)) == pairs_total(s) + x.1,
    decreases s.len(),
{
    if s.len() == 0 {
        assert(s.push(x)[0] == x);
        assert(s.push(x).drop_first() =~= Seq::<(String, u64)>::empty());
        assert(pairs_total(s.push(x)) == x.1 as nat + pairs_total(s.push(x).drop_first()));
        assert(pairs_total(s.push(x).drop_first()) == 0);
    } else {
        assert(s.push(x)[0] == s[0]);
        assert(s.push(x).drop_first() =~= s.drop_first().push(x));
        lemma_pairs_total_push(s.drop_first(), x);
        assert(pairs_total(s.push(x)) == s[0].1 as nat + pairs_total(s.push(x).drop_first()));
    }
}

/// Appending a fresh pair raises the count of its status by its count and
/// no other.
proof fn lemma_pairs_count_push(s: Seq<(String, u64)>, x: (String, u64), k: Seq<char>)
    ensures
        pairs_count(s.push(x), k) == pairs_count(s, k) + (if x.0@ == k {
            x.1 as nat
        } else {
            0
        }),
    decreases s.len(),
{
    if s.len() == 0 {
        assert(s.push(x)[0] == x);
        assert(s.push(x).drop_first() =~= Seq::<(String, u64)>::empty());
        assert(pairs_count(s.push(x), k) == (if x.0@ == k {
            x.1 as nat
        } else {
            0
        }) + pairs_count(s.push(x).drop_first(), k));
        assert(pairs_count(s.push(x).drop_first(), k) == 0);
    } else {
        assert(s.push(x)[0] == s[0]);
        assert(s.push(x).drop_first() =~= s.drop_first().push(x));
        lemma_pairs_count_push(s.drop_first(), x, k);
        assert(pairs_count(s.push(x), k) == (if s[0].0@ == k {
            s[0].1 as nat
        } else {
            0
        }) + pairs_count(s.push(x).drop_first(), k));
    }
}

/// No single tallied count exceeds the tally's total.
proof fn lemma_pair_le_total(s: Seq<(String, u64)>, i: int)
    requires
        0 <= i < s.len(),
    ensures
        s[i].1 <= pairs_total(s),
    decreases s.len(),
{
    if i > 0 {
        lemma_pair_le_total(s.drop_first(), i - 1);
    }
}

/// Counters and histograms aggregated over one batch of requests.
pub struct BenchRunMetrics {
    bench_begin: Instant,
    total_bytes: u64,
    total_requests: u64,
    successful_requests: u64,
    summary: Vec<(String, u64)>,
    success_latency: LatencyHistogram,
    error_latency: LatencyHistogram,
}

impl BenchRunMetrics {
    /// How many requests were aggregated.
    pub closed spec fn spec_total_requests(&self) -> nat {
        self.total_requests as nat
    }

    /// How many of them succeeded.
    pub closed spec fn spec_successful_requests(&self) -> nat {
        self.successful_requests as nat
    }

    /// How many body bytes they carried in all.
    pub closed spec fn spec_total_bytes(&self) -> nat {
        self.total_bytes as nat
    }

    /// The per-status tally, in first-seen order.
    pub closed spec fn spec_summary(&self) -> Seq<(String, u64)> {
        self.summary@
    }

    /// How many requests ended with status `k`.
    pub open spec fn spec_summary_count(&self, k: Seq<char>) -> nat {
        pairs_count(self.spec_summary(), k)
    }

    /// The latency histogram of the successful requests.
    pub closed spec fn spec_success_latency(&self) -> LatencyHistogram {
        self.success_latency
    }

    /// The latency histogram of the failed requests.
    pub closed spec fn spec_error_latency(&self) -> LatencyHistogram {
        self.error_latency
    }

    /// The aggregate's internal invariant: both histograms are well formed
    /// and hold no more observations than there were requests, the summary
    /// has one entry per status, its counts add up to exactly the total
    /// request count, and successful requests never outnumber all requests.
    pub closed spec fn wf(&self) -> bool {
        &&& self.success_latency.wf()
        &&& self.error_latency.wf()
        &&& keys_unique(self.summary@)
        &&& pairs_total(self.summary@) == self.total_requests
        &&& self.successful_requests <= self.total_requests
        &&& self.success_latency.total_count() + self.error_latency.total_count()
            <= self.total_requests
    }

    /// A fresh aggregate, begun now.
    pub fn new() -> (r: BenchRunMetrics)
        ensures
            r.wf(),
            r.spec_total_requests() == 0,
            r.spec_successful_requests() == 0,
            r.spec_total_bytes() == 0,
            forall|k: Seq<char>| r.spec_summary_count(k) == 0,
            r.spec_success_latency().total_count() == 0,
            r.spec_error_latency().total_count() == 0,
            r.spec_summary().len() == 0,
    {
        BenchRunMetrics {
            bench_begin: instant_now(),
            total_bytes: 0,
            total_requests: 0,
            successful_requests: 0,
            summary: Vec::new(),
            success_latency: LatencyHistogram::new(),
            error_latency: LatencyHistogram::new(),
        }
    }

    /// Folds one request outcome into the aggregate: the request is
    /// counted, its bytes added, its status tallied, and its duration
    /// observed in the success or the error histogram according to its
    /// outcome.
    pub fn report_request(&mut self, stats: RequestStats)
        requires
            old(self).wf(),
            old(self).spec_total_requests() < u64::MAX,
            old(self).spec_total_bytes() + stats.bytes_processed <= u64::MAX,
        ensures
            final(self).wf(),
            final(self).spec_total_requests() == old(self).spec_total_requests() + 1,
            final(self).spec_successful_requests() == old(self).spec_successful_requests() + (
            if stats.is_success {
                1nat
            } else {
                0
            }),
            final(self).spec_total_bytes() == old(self).spec_total_bytes()
                + stats.bytes_processed,
            forall|k: Seq<char>|
                final(self).spec_summary_count(k) == old(self).spec_summary_count(k) + (if k
                    == stats.status@ {
                    1nat
                } else {
                    0
                }),
            stats.is_success ==> {
                &&& forall|w: u64|
                    final(self).spec_success_latency().spec_count(w) == old(
                        self,
                    ).spec_success_latency().spec_count(w) + (if w == stats.duration_micros
                        && stats.duration_micros <= crate::histogram::TRACKABLE_MAX {
                        1nat
                    } else {
                        0
                    })
                &&& final(self).spec_error_latency() == old(self).spec_error_latency()
            },
            !stats.is_success ==> {
                &&& forall|w: u64|
                    final(self).spec_error_latency().spec_count(w) == old(
                        self,
                    ).spec_error_latency().spec_count(w) + (if w == stats.duration_micros
                        && stats.duration_micros <= crate::histogram::TRACKABLE_MAX {
                        1nat
                    } else {
                        0
                    })
                &&& final(self).spec_success_latency() == old(self).spec_success_latency()
            },
    {
        self.total_requests = self.total_requests + 1;
        if stats.is_success {
            self.successful_requests = self.successful_requests + 1;
            self.success_latency.increment(stats.duration_micros);
        } else {
            self.error_latency.increment(stats.duration_micros);
        }
        self.total_bytes = self.total_bytes + stats.bytes_processed;
        let ghost s0 = self.summary@;
        let mut i: usize = 0;
        let mut found: bool = false;
        while i < self.summary.len() && !found
            invariant
                0 <= i <= s0.len(),
                self.summary@ == s0,
                found ==> i < s0.len() && s0[i as int].0@ == stats.status@,
                !found ==> forall|j: int| 0 <= j < i ==> (#[trigger] s0[j]).0@ != stats.status@,
            decreases s0.len() - i, (if found { 0int } else { 1 }),
        {
            if self.summary[i].0 == stats.status {
                found = true;
            } else {
                i = i + 1;
            }
        }
        if found {
            let c = self.summary[i].1;
            proof {
                lemma_pair_le_total(s0, i as int);
                lemma_pairs_total_update(s0, i as int, (stats.status, (c + 1) as u64));
                assert forall|k: Seq<char>|
                    pairs_count(s0.update(i as int, (stats.status, (c + 1) as u64)), k)
                        == pairs_count(s0, k) + (if k == stats.status@ {
                        1nat
                    } else {
                        0
                    }) by {
                    lemma_pairs_count_update(s0, i as int, (stats.status, (c + 1) as u64), k);
                }
            }
            self.summary[i] = (stats.status, c + 1);
        } else {
            proof {
                lemma_pairs_total_push(s0, (stats.status, 1u64));
                assert forall|k: Seq<char>|
                    pairs_count(s0.push((stats.status, 1u64)), k) == pairs_count(s0, k) + (if k
                        == stats.status@ {
                        1nat
                    } else {
                        0
                    }) by {
                    lemma_pairs_count_push(s0, (stats.status, 1u64), k);
                }
            }
            self.summary.push((stats.status, 1));
        }
    }

    /// The truncated mean of the success latencies: the mean of the
    /// observations between the `threshold` percentile and the
    /// `10000 - threshold` percentile, thresholds in ten-thousandths.
    pub fn truncated_mean(&self, threshold: u64) -> (r: u64)
        requires
            self.wf(),
            threshold <= 10000,
        ensures
            r == self.spec_success_latency().spec_truncated_mean(threshold),
    {
        proof {
            lemma_metrics_wf(self);
        }
        self.success_latency.truncated_mean(threshold)
    }

    /// How many requests were aggregated.
    pub fn total_requests(&self) -> (r: u64)
        ensures
            r == self.spec_total_requests(),
    {
        self.total_requests
    }

    /// How many of them succeeded.
    pub fn successful_requests(&self) -> (r: u64)
        ensures
            r == self.spec_successful_requests(),
    {
        self.successful_requests
    }

    /// How many body bytes they carried in all.
    pub fn total_bytes(&self) -> (r: u64)
        ensures
            r == self.spec_total_bytes(),
    {
        self.total_bytes
    }

    /// The microseconds elapsed since the aggregate was begun.
    pub fn elapsed_micros(&self) -> u64 {
        let now = instant_now();
        micros_between(&self.bench_begin, &now)
    }

    /// The per-status tally, in first-seen order.
    pub(crate) fn summary_pairs(&self) -> (r: &Vec<(String, u64)>)
        ensures
            r@ == self.spec_summary(),
    {
        &self.summary
    }

    /// The latency histogram of the successful requests.
    pub fn success_latency(&self) -> (r: &LatencyHistogram)
        ensures
            *r == self.spec_success_latency(),
    {
        &self.success_latency
    }

    /// The latency histogram of the failed requests.
    pub fn error_latency(&self) -> (r: &LatencyHistogram)
        ensures
            *r == self.spec_error_latency(),
    {
        &self.error_latency
    }
}

/// Law: in any well-formed aggregate, the successful requests never
/// outnumber all requests, the summary counts add up to exactly the total
/// request count, and the histograms hold no more observations than there
/// were requests.
pub proof fn lemma_metrics_wf(m: &BenchRunMetrics)
    requires
        m.wf(),
    ensures
        m.spec_successful_requests() <= m.spec_total_requests(),
        pairs_total(m.spec_summary()) == m.spec_total_requests(),
        m.spec_success_latency().wf(),
        m.spec_error_latency().wf(),
        m.spec_success_latency().total_count() + m.spec_error_latency().total_count()
            <= m.spec_total_requests(),
        keys_unique(m.spec_summary()),
{
}

} // verus!

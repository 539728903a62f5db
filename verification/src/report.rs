//! Derived views of a batch's metrics, and the console reporter's data.
//!
//! A report carries exact integer facts: elapsed time, totals, the
//! per-status tally sorted by descending count (ties broken by ascending
//! label), and a latency summary of percentiles, mean, standard deviation
//! and truncated means over the success and error histograms merged.
//! Ratios shown to people (success rate, request rate, bitrate) are left to
//! the caller, which derives them from these integers.

use vstd::prelude::*;
use crate::histogram::LatencyHistogram;
use crate::metrics::{BenchRunMetrics, pairs_count, lemma_metrics_wf};

verus! {

/// Lexicographic order on character sequences, by code point; the empty
/// sequence comes first.
pub open spec fn lex_le(x: Seq<char>, y: Seq<char>) -> bool
    decreases x.len(),
{
    if x.len() == 0 {
        true
    } else if y.len() == 0 {
        false
    } else if x[0] != y[0] {
        (x[0] as u32) < (y[0] as u32)
    } else {
        lex_le(x.drop_first(), y.drop_first())
    }
}

/// The tally order: larger counts first, ties by ascending label.
pub open spec fn spec_pair_le(a: (String, u64), b: (String, u64)) -> bool {
    a.1 > b.1 || (a.1 == b.1 && lex_le(a.0@, b.0@))
}

/// Any two labels are ordered one way or the other.
proof fn lemma_lex_le_total(x: Seq<char>, y: Seq<char>)
    ensures
        lex_le(x, y) || lex_le(y, x),
    decreases x.len(),
{
    if x.len() > 0 && y.len() > 0 {
        if x[0] == y[0] {
            lemma_lex_le_total(x.drop_first(), y.drop_first());
        } else {
            vstd::utf8::char_u32_cast(x[0], x[0] as u32);
            vstd::utf8::char_u32_cast(y[0], y[0] as u32);
        }
    }
}

/// The label order is transitive.
proof fn lemma_lex_le_trans(x: Seq<char>, y: Seq<char>, z: Seq<char>)
    requires
        lex_le(x, y),
        lex_le(y, z),
    ensures
        lex_le(x, z),
    decreases x.len(),
{
    if x.len() > 0 && y.len() > 0 && z.len() > 0 && x[0] == y[0] && y[0] == z[0] {
        lemma_lex_le_trans(x.drop_first(), y.drop_first(), z.drop_first());
    }
}

/// The tally order is total.
proof fn lemma_pair_le_total(a: (String, u64), b: (String, u64))
    ensures
        spec_pair_le(a, b) || spec_pair_le(b, a),
{
    lemma_lex_le_total(a.0@, b.0@);
}

/// The tally order is transitive.
proof fn lemma_pair_le_trans(a: (String, u64), b: (String, u64), c: (String, u64))
    requires
        spec_pair_le(a, b),
        spec_pair_le(b, c),
    ensures
        spec_pair_le(a, c),
{
    if a.1 == b.1 && b.1 == c.1 {
        lemma_lex_le_trans(a.0@, b.0@, c.0@);
    }
}

/// Whether `a` sorts strictly before `b` in the tally order.
fn pair_before(a: &(String, u64), b: &(String, u64)) -> (r: bool)
    ensures
        r == spec_pair_le(*a, *b),
{
    if a.1 > b.1 {
        true
    } else if a.1 == b.1 {
        str_le(a.0.as_str(), b.0.as_str())
    } else {
        false
    }
}

/// Whether `a` is at most `b` in code-point lexicographic order.
fn str_le(a: &str, b: &str) -> (r: bool)
    ensures
        r == lex_le(a@, b@),
{
    let an = a.unicode_len();
    let bn = b.unicode_len();
    let mut i: usize = 0;
    proof {
        assert(a@.skip(0) =~= a@);
        assert(b@.skip(0) =~= b@);
    }
    while i < an && i < bn
        invariant
            0 <= i <= an,
            0 <= i <= bn,
            an == a@.len(),
            bn == b@.len(),
            lex_le(a@, b@) == lex_le(a@.skip(i as int), b@.skip(i as int)),
        decreases an - i,
    {
        let ca = a.get_char(i);
        let cb = b.get_char(i);
        proof {
            assert(a@.skip(i as int).drop_first() =~= a@.skip(i as int + 1));
            assert(b@.skip(i as int).drop_first() =~= b@.skip(i as int + 1));
        }
        proof {
            vstd::utf8::char_u32_cast(ca, ca as u32);
            vstd::utf8::char_u32_cast(cb, cb as u32);
        }
        if (ca as u32) != (cb as u32) {
            return (ca as u32) < (cb as u32);
        }
        i = i + 1;
    }
    proof {
        if i >= an {
            assert(a@.skip(i as int) =~= Seq::<char>::empty());
        } else {
            assert(b@.skip(i as int) =~= Seq::<char>::empty());
        }
    }
    an <= bn
}

/// Inserting a pair raises the count of its status by its count and no
/// other.
proof fn lemma_pairs_count_insert(s: Seq<(String, u64)>, i: int, x: (String, u64), k: Seq<char>)
    requires
        0 <= i <= s.len(),
    ensures
        pairs_count(s.insert(i, x), k) == pairs_count(s, k) + (if x.0@ == k {
            x.1 as nat
        } else {
            0
        }),
    decreases s.len(),
{
    if i == 0 {
        assert(s.insert(0, x)[0] == x);
        assert(s.insert(0, x).drop_first() =~= s);
        assert(pairs_count(s.insert(0, x), k) == (if x.0@ == k {
            x.1 as nat
        } else {
            0
        }) + pairs_count(s, k));
    } else {
        assert(s.insert(i, x)[0] == s[0]);
        assert(s.insert(i, x).drop_first() =~= s.drop_first().insert(i - 1, x));
        lemma_pairs_count_insert(s.drop_first(), i - 1, x, k);
        assert(pairs_count(s.insert(i, x), k) == (if s[0].0@ == k {
            s[0].1 as nat
        } else {
            0
        }) + pairs_count(s.insert(i, x).drop_first(), k));
        assert(pairs_count(s, k) == (if s[0].0@ == k {
            s[0].1 as nat
        } else {
            0
        }) + pairs_count(s.drop_first(), k));
    }
}

/// The per-status tally of a batch, sorted by descending count, ties by
/// ascending label: the counts come over unchanged, and neighbours stand in
/// the tally order.
pub fn summary_ordered(metrics: &BenchRunMetrics) -> (r: Vec<(String, u64)>)
    requires
        metrics.wf(),
    ensures
        r@.len() == metrics.spec_summary().len(),
        forall|k: Seq<char>| pairs_count(r@, k) == metrics.spec_summary_count(k),
        forall|i: int, j: int|
            0 <= i < j < r@.len() ==> spec_pair_le(#[trigger] r@[i], #[trigger] r@[j]),
{
    proof {
        lemma_metrics_wf(metrics);
    }
    let pairs = metrics.summary_pairs();
    let ghost s = pairs@;
    let mut out: Vec<(String, u64)> = Vec::new();
    proof {
        assert(s.skip(0) =~= s);
        assert(forall|k: Seq<char>| pairs_count(Seq::<(String, u64)>::empty(), k) == 0);
    }
    let mut i: usize = 0;
    while i < pairs.len()
        invariant
            0 <= i <= s.len(),
            s == pairs@,
            s == metrics.spec_summary(),
            out@.len() == i,
            forall|k: Seq<char>|
                pairs_count(out@, k) + pairs_count(s.skip(i as int), k) == pairs_count(s, k),
            forall|p: int, q: int|
                0 <= p < q < out@.len() ==> spec_pair_le(#[trigger] out@[p], #[trigger] out@[q]),
        decreases s.len() - i,
    {
        let x = (pairs[i].0.clone(), pairs[i].1);
        proof {
            assert(x == s[i as int]);
            assert(s.skip(i as int).drop_first() =~= s.skip(i as int + 1));
            assert(forall|k: Seq<char>|
                pairs_count(s.skip(i as int), k) == (if s[i as int].0@ == k {
                    s[i as int].1 as nat
                } else {
                    0
                }) + pairs_count(s.skip(i as int + 1), k));
        }
        let ghost out0 = out@;
        let mut pos: usize = 0;
        while pos < out.len() && pair_before(&out[pos], &x)
            invariant
                0 <= pos <= out@.len(),
                out@ == out0,
                forall|p: int| 0 <= p < pos ==> spec_pair_le(#[trigger] out0[p], x),
            decreases out@.len() - pos,
        {
            pos = pos + 1;
        }
        proof {
            if pos < out0.len() {
                lemma_pair_le_total(out0[pos as int], x);
            }
            assert forall|k: Seq<char>|
                pairs_count(out0.insert(pos as int, x), k) == pairs_count(out0, k) + (if x.0@
                    == k {
                    x.1 as nat
                } else {
                    0
                }) by {
                lemma_pairs_count_insert(out0, pos as int, x, k);
            }
            assert forall|p: int, q: int|
                0 <= p < q < out0.insert(pos as int, x).len() implies spec_pair_le(
                #[trigger] out0.insert(pos as int, x)[p],
                #[trigger] out0.insert(pos as int, x)[q],
            ) by {
                let t = out0.insert(pos as int, x);
                if q == pos {
                    assert(t[p] == out0[p] && t[q] == x);
                } else if p == pos {
                    assert(t[p] == x && t[q] == out0[q - 1]);
                    assert(spec_pair_le(x, out0[pos as int]));
                    if q - 1 > pos {
                        lemma_pair_le_trans(x, out0[pos as int], out0[q - 1]);
                    }
                } else if p < pos && q > pos {
                    assert(t[p] == out0[p] && t[q] == out0[q - 1]);
                } else if p > pos {
                    assert(t[p] == out0[p - 1] && t[q] == out0[q - 1]);
                } else {
                    assert(t[p] == out0[p] && t[q] == out0[q]);
                }
            }
        }
        out.insert(pos, x);
        i = i + 1;
    }
    proof {
        assert(s.skip(i as int) =~= Seq::<(String, u64)>::empty());
    }
    out
}

/// The thirteen labelled latency statistics of a histogram, in their fixed
/// order, each zero when the histogram holds nothing.
pub open spec fn latency_pairs_ok(p: Seq<(String, u64)>, h: LatencyHistogram) -> bool {
    let nonempty = h.total_count() > 0;
    &&& p.len() == 13
    &&& p[0].0@ == "Min"@ && p[0].1 == (if nonempty {
        h.entries()[0].0
    } else {
        0
    })
    &&& p[1].0@ == "p50"@ && p[1].1 == (if nonempty {
        h.spec_percentile(5000)
    } else {
        0
    })
    &&& p[2].0@ == "p90"@ && p[2].1 == (if nonempty {
        h.spec_percentile(9000)
    } else {
        0
    })
    &&& p[3].0@ == "p95"@ && p[3].1 == (if nonempty {
        h.spec_percentile(9500)
    } else {
        0
    })
    &&& p[4].0@ == "p99"@ && p[4].1 == (if nonempty {
        h.spec_percentile(9900)
    } else {
        0
    })
    &&& p[5].0@ == "p99.9"@ && p[5].1 == (if nonempty {
        h.spec_percentile(9990)
    } else {
        0
    })
    &&& p[6].0@ == "p99.99"@ && p[6].1 == (if nonempty {
        h.spec_percentile(9999)
    } else {
        0
    })
    &&& p[7].0@ == "Max"@ && p[7].1 == (if nonempty {
        h.entries().last().0
    } else {
        0
    })
    &&& p[8].0@ == "Mean"@ && p[8].1 == (if nonempty {
        h.spec_mean()
    } else {
        0
    })
    &&& p[9].0@ == "StdDev"@ && p[9].1 == (if nonempty {
        h.spec_stddev()
    } else {
        0
    })
    &&& p[10].0@ == "tm95"@ && p[10].1 == h.spec_truncated_mean(500)
    &&& p[11].0@ == "tm99"@ && p[11].1 == h.spec_truncated_mean(100)
    &&& p[12].0@ == "tm99.9"@ && p[12].1 == h.spec_truncated_mean(10)
}

/// The labelled latency statistics of one histogram: minimum, the five
/// upper percentiles and the median, maximum, mean, standard deviation, and
/// the three truncated means. The observation count must fit in 32 bits so
/// that the standard deviation fits in machine words.
pub fn latency_summary_of(h: &LatencyHistogram) -> (r: Vec<(String, u64)>)
    requires
        h.wf(),
        h.total_count() <= u32::MAX,
    ensures
        latency_pairs_ok(r@, *h),
{
    let mut out: Vec<(String, u64)> = Vec::new();
    let min = match h.minimum() {
        Some(v) => v,
        None => 0,
    };
    out.push(("Min".to_owned(), min));
    let p50 = match h.percentile(5000) {
        Some(v) => v,
        None => 0,
    };
    out.push(("p50".to_owned(), p50));
    let p90 = match h.percentile(9000) {
        Some(v) => v,
        None => 0,
    };
    out.push(("p90".to_owned(), p90));
    let p95 = match h.percentile(9500) {
        Some(v) => v,
        None => 0,
    };
    out.push(("p95".to_owned(), p95));
    let p99 = match h.percentile(9900) {
        Some(v) => v,
        None => 0,
    };
    out.push(("p99".to_owned(), p99));
    let p999 = match h.percentile(9990) {
        Some(v) => v,
        None => 0,
    };
    out.push(("p99.9".to_owned(), p999));
    let p9999 = match h.percentile(9999) {
        Some(v) => v,
        None => 0,
    };
    out.push(("p99.99".to_owned(), p9999));
    let max = match h.maximum() {
        Some(v) => v,
        None => 0,
    };
    out.push(("Max".to_owned(), max));
    let mean = match h.mean() {
        Some(v) => v,
        None => 0,
    };
    out.push(("Mean".to_owned(), mean));
    let sd = match h.stddev() {
        Some(v) => v,
        None => 0,
    };
    out.push(("StdDev".to_owned(), sd));
    out.push(("tm95".to_owned(), h.truncated_mean(500)));
    out.push(("tm99".to_owned(), h.truncated_mean(100)));
    out.push(("tm99.9".to_owned(), h.truncated_mean(10)));
    out
}

/// A batch's derived report: exact integers from which the shown ratios are
/// computed by the caller.
pub struct BenchRunReport {
    /// The configured test-case name; the default name when none was given.
    pub test_case_name: Option<String>,
    /// Wall-clock time from the aggregate's start to the report, in
    /// microseconds.
    pub duration_micros: u64,
    /// Total body bytes over all requests.
    pub total_bytes: u64,
    /// All requests.
    pub total_requests: u64,
    /// The requests that succeeded.
    pub successful_requests: u64,
    /// The per-status tally, sorted by descending count, ties by ascending
    /// label.
    pub response_code_summary: Vec<(String, u64)>,
    /// The labelled latency statistics of both histograms merged.
    pub latency_summary: Vec<(String, u64)>,
}

/// Prints batch reports to the console; here stands its report derivation,
/// which is pure.
pub struct DefaultConsoleReporter {
    test_case_name: Option<String>,
}

impl DefaultConsoleReporter {
    /// The configured test-case name, if any.
    pub closed spec fn spec_name(&self) -> Option<String> {
        self.test_case_name
    }

    /// A console reporter for the given test case.
    pub fn new(test_case_name: Option<String>) -> (r: DefaultConsoleReporter)
        ensures
            r.spec_name() == test_case_name,
    {
        DefaultConsoleReporter { test_case_name }
    }

    /// Derives the report of a batch: the counters carried over exactly,
    /// the status tally sorted, and the latency statistics of the success
    /// and error histograms merged. The request count must fit in 32 bits
    /// so that the standard deviation fits in machine words.
    pub fn build_report(&self, metrics: &BenchRunMetrics) -> (r: BenchRunReport)
        requires
            metrics.wf(),
            metrics.spec_total_requests() <= u32::MAX,
        ensures
            self.spec_name() is Some ==> r.test_case_name == self.spec_name(),
            self.spec_name() is None ==> (r.test_case_name matches Some(n) && n@
                == "perf-gauge"@),
            r.total_requests == metrics.spec_total_requests(),
            r.successful_requests == metrics.spec_successful_requests(),
            r.total_bytes == metrics.spec_total_bytes(),
            r.response_code_summary@.len() == metrics.spec_summary().len(),
            forall|k: Seq<char>|
                pairs_count(r.response_code_summary@, k) == metrics.spec_summary_count(k),
            forall|i: int, j: int|
                0 <= i < j < r.response_code_summary@.len() ==> spec_pair_le(
                    #[trigger] r.response_code_summary@[i],
                    #[trigger] r.response_code_summary@[j],
                ),
            exists|h: LatencyHistogram|
                #[trigger] h.wf() && h.total_count() == metrics.spec_success_latency().total_count()
                    + metrics.spec_error_latency().total_count() && (forall|w: u64|
                    h.spec_count(w) == metrics.spec_success_latency().spec_count(w)
                        + metrics.spec_error_latency().spec_count(w)) && latency_pairs_ok(
                    r.latency_summary@,
                    h,
                ),
    {
        proof {
            lemma_metrics_wf(metrics);
        }
        let name = match &self.test_case_name {
            Some(n) => Some(n.clone()),
            None => Some("perf-gauge".to_owned()),
        };
        let mut merged = LatencyHistogram::new();
        merged.merge(metrics.success_latency());
        merged.merge(metrics.error_latency());
        let latency = latency_summary_of(&merged);
        BenchRunReport {
            test_case_name: name,
            duration_micros: metrics.elapsed_micros(),
            total_bytes: metrics.total_bytes(),
            total_requests: metrics.total_requests(),
            successful_requests: metrics.successful_requests(),
            response_code_summary: summary_ordered(metrics),
            latency_summary: latency,
        }
    }
}

} // verus!

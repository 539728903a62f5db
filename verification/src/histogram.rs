//! A latency histogram over integer microsecond values.
//!
//! Observations are kept as a list of `(value, count)` buckets, strictly
//! sorted by value. The histogram is bounded: values above
//! [`TRACKABLE_MAX`] are silently ignored, so very large latencies may be
//! dropped. Derived statistics (percentiles, mean, standard deviation,
//! truncated means) are exact integer computations over the buckets.

use vstd::prelude::*;

verus! {

/// The largest value the histogram tracks, in microseconds (about 71
/// minutes). Observations above it are ignored.
pub const TRACKABLE_MAX: u64 = 0xFFFF_FFFF;

/// The sum of the counts of a bucket list.
pub open spec fn counts_total(s: Seq<(u64, u64)>) -> nat
    decreases s.len(),
{
    if s.len() == 0 {
        0
    } else {
        s[0].1 as nat + counts_total(s.drop_first())
    }
}

/// The count recorded for value `v` in a bucket list.
pub open spec fn count_in(s: Seq<(u64, u64)>, v: u64) -> nat
    decreases s.len(),
{
    if s.len() == 0 {
        0
    } else {
        (if s[0].0 == v {
            s[0].1 as nat
        } else {
            0
        }) + count_in(s.drop_first(), v)
    }
}

/// A bucket list is strictly sorted by value, every count is positive, and
/// every value is trackable.
pub open spec fn buckets_wf(s: Seq<(u64, u64)>) -> bool {
    &&& forall|i: int|
        0 <= i < s.len() ==> (#[trigger] s[i]).1 >= 1 && s[i].0 <= TRACKABLE_MAX
    &&& forall|i: int, j: int| 0 <= i < j < s.len() ==> s[i].0 < s[j].0
}

/// Updating the count of the bucket at `i` raises the total by the same
/// amount.
proof fn lemma_counts_total_update(s: Seq<(u64, u64)>, i: int, x: (u64, u64))
    requires
        0 <= i < s.len(),
        x.0 == s[i].0,
        x.1 >= s[i].1,
    ensures
        counts_total(s.update(i, x)) == counts_total(s) + x.1 - s[i].1,
    decreases s.len(),
{
    if i == 0 {
        assert(s.update(0, x).drop_first() =~= s.drop_first());
    } else {
        assert(s.update(i, x).drop_first() =~= s.drop_first().update(i - 1, x));
        lemma_counts_total_update(s.drop_first(), i - 1, x);
    }
}

/// Updating the count of the bucket at `i` raises the count of its value by
/// the same amount and no other.
proof fn lemma_count_in_update(s: Seq<(u64, u64)>, i: int, x: (u64, u64), w: u64)
    requires
        0 <= i < s.len(),
        x.0 == s[i].0,
        x.1 >= s[i].1,
    ensures
        count_in(s.update(i, x), w) == count_in(s, w) + (if s[i].0 == w {
            x.1 - s[i].1
        } else {
            0
        }),
    decreases s.len(),
{
    if i == 0 {
        assert(s.update(0, x).drop_first() =~= s.drop_first());
    } else {
        assert(s.update(i, x).drop_first() =~= s.drop_first().update(i - 1, x));
        lemma_count_in_update(s.drop_first(), i - 1, x, w);
    }
}

/// Inserting a bucket raises the total by its count.
proof fn lemma_counts_total_insert(s: Seq<(u64, u64)>, i: int, x: (u64, u64))
    requires
        0 <= i <= s.len(),
    ensures
        counts_total(s.insert(i, x)) == counts_total(s) + x.1,
    decreases s.len(),
{
    if i == 0 {
        assert(s.insert(0, x).drop_first() =~= s);
    } else {
        assert(s.insert(i, x).drop_first() =~= s.drop_first().insert(i - 1, x));
        lemma_counts_total_insert(s.drop_first(), i - 1, x);
    }
}

/// Inserting a bucket raises the count of its value by its count and no
/// other.
proof fn lemma_count_in_insert(s: Seq<(u64, u64)>, i: int, x: (u64, u64), w: u64)
    requires
        0 <= i <= s.len(),
    ensures
        count_in(s.insert(i, x), w) == count_in(s, w) + (if x.0 == w {
            x.1 as nat
        } else {
            0
        }),
    decreases s.len(),
{
    if i == 0 {
        assert(s.insert(0, x).drop_first() =~= s);
    } else {
        assert(s.insert(i, x).drop_first() =~= s.drop_first().insert(i - 1, x));
        lemma_count_in_insert(s.drop_first(), i - 1, x, w);
    }
}

/// No value is counted beyond the total.
proof fn lemma_count_in_le_total(s: Seq<(u64, u64)>, w: u64)
    ensures
        count_in(s, w) <= counts_total(s),
    decreases s.len(),
{
    if s.len() > 0 {
        lemma_count_in_le_total(s.drop_first(), w);
    }
}

/// A latency histogram: `(value, count)` buckets strictly sorted by value,
/// with the total observation count alongside.
pub struct LatencyHistogram {
    buckets: Vec<(u64, u64)>,
    total: u64,
}

impl LatencyHistogram {
    /// The bucket list, sorted by value.
    pub closed spec fn entries(&self) -> Seq<(u64, u64)> {
        self.buckets@
    }

    /// How many observations the histogram holds.
    pub closed spec fn total_count(&self) -> nat {
        counts_total(self.buckets@)
    }

    /// How many observations of value `v` the histogram holds.
    pub open spec fn spec_count(&self, v: u64) -> nat {
        count_in(self.entries(), v)
    }

    /// The histogram's internal invariant.
    pub closed spec fn wf(&self) -> bool {
        &&& buckets_wf(self.buckets@)
        &&& self.total as nat == counts_total(self.buckets@)
    }

    /// An empty histogram.
    pub fn new() -> (r: LatencyHistogram)
        ensures
            r.wf(),
            r.total_count() == 0,
            forall|v: u64| r.spec_count(v) == 0,
            r.entries().len() == 0,
    {
        LatencyHistogram { buckets: Vec::new(), total: 0 }
    }

    /// The bucket list, sorted by value.
    pub fn buckets(&self) -> (r: &Vec<(u64, u64)>)
        ensures
            r@ == self.entries(),
    {
        &self.buckets
    }

    /// The total count, as a machine word.
    pub fn total(&self) -> (r: u64)
        requires
            self.wf(),
        ensures
            r == self.total_count(),
    {
        self.total
    }

    /// Records `count` observations of `value`; a value above
    /// [`TRACKABLE_MAX`] is ignored and `false` comes back.
    pub fn increment_by(&mut self, value: u64, count: u64) -> (recorded: bool)
        requires
            old(self).wf(),
            1 <= count,
            old(self).total_count() + count <= u64::MAX,
        ensures
            final(self).wf(),
            recorded <==> value <= TRACKABLE_MAX,
            recorded ==> final(self).total_count() == old(self).total_count() + count,
            !recorded ==> *final(self) == *old(self),
            forall|w: u64|
                final(self).spec_count(w) == old(self).spec_count(w) + (if recorded && w == value {
                    count as nat
                } else {
                    0
                }),
    {
        if value > TRACKABLE_MAX {
            return false;
        }
        let ghost s0 = self.buckets@;
        let mut i: usize = 0;
        while i < self.buckets.len() && self.buckets[i].0 < value
            invariant
                0 <= i <= self.buckets@.len(),
                self.buckets@ == s0,
                forall|j: int| 0 <= j < i ==> (#[trigger] s0[j]).0 < value,
            decreases self.buckets@.len() - i,
        {
            i = i + 1;
        }
        if i < self.buckets.len() && self.buckets[i].0 == value {
            let c = self.buckets[i].1;
            proof {
                lemma_count_in_le_total(s0, value);
                lemma_bucket_le_count_in(s0, i as int);
                lemma_counts_total_update(s0, i as int, (value, (c + count) as u64));
                assert forall|w: u64|
                    count_in(s0.update(i as int, (value, (c + count) as u64)), w) == count_in(
                    s0,
                    w,
                ) + (if w == value {
                    count as nat
                } else {
                    0
                }) by {
                    lemma_count_in_update(s0, i as int, (value, (c + count) as u64), w);
                }
            }
            self.buckets[i] = (value, c + count);
            self.total = self.total + count;
        } else {
            proof {
                lemma_counts_total_insert(s0, i as int, (value, count));
                assert forall|w: u64|
                    count_in(s0.insert(i as int, (value, count)), w) == count_in(s0, w) + (if w
                        == value {
                        count as nat
                    } else {
                        0
                    }) by {
                    lemma_count_in_insert(s0, i as int, (value, count), w);
                }
            }
            self.buckets.insert(i, (value, count));
            self.total = self.total + count;
        }
        true
    }

    /// Records one observation of `value`; a value above [`TRACKABLE_MAX`]
    /// is ignored and `false` comes back.
    pub fn increment(&mut self, value: u64) -> (recorded: bool)
        requires
            old(self).wf(),
            old(self).total_count() < u64::MAX,
        ensures
            final(self).wf(),
            recorded <==> value <= TRACKABLE_MAX,
            recorded ==> final(self).total_count() == old(self).total_count() + 1,
            !recorded ==> *final(self) == *old(self),
            forall|w: u64|
                final(self).spec_count(w) == old(self).spec_count(w) + (if recorded && w == value {
                    1nat
                } else {
                    0
                }),
    {
        self.increment_by(value, 1)
    }

    /// Adds every observation of `other` into `self`.
    pub fn merge(&mut self, other: &LatencyHistogram) -> (recorded: bool)
        requires
            old(self).wf(),
            other.wf(),
            old(self).total_count() + other.total_count() <= u64::MAX,
        ensures
            final(self).wf(),
            final(self).total_count() == old(self).total_count() + other.total_count(),
            forall|w: u64|
                final(self).spec_count(w) == old(self).spec_count(w) + other.spec_count(w),
            recorded,
    {
        let ghost s = other.buckets@;
        let ghost self0 = *self;
        proof {
            assert(s.skip(0) =~= s);
        }
        let mut i: usize = 0;
        while i < other.buckets.len()
            invariant
                0 <= i <= s.len(),
                s == other.buckets@,
                buckets_wf(s),
                self.wf(),
                self.total_count() + counts_total(s.skip(i as int)) == self0.total_count()
                    + counts_total(s),
                self0.total_count() + counts_total(s) <= u64::MAX,
                forall|w: u64|
                    self.spec_count(w) + count_in(s.skip(i as int), w) == self0.spec_count(w)
                        + count_in(s, w),
            decreases s.len() - i,
        {
            let (v, c) = other.buckets[i];
            proof {
                assert(s.skip(i as int).drop_first() =~= s.skip(i as int + 1));
                assert(counts_total(s.skip(i as int)) == c + counts_total(s.skip(i as int + 1)));
                assert(forall|w: u64|
                    count_in(s.skip(i as int), w) == (if v == w {
                        c as nat
                    } else {
                        0
                    }) + count_in(s.skip(i as int + 1), w));
            }
            self.increment_by(v, c);
            i = i + 1;
        }
        proof {
            assert(s.skip(i as int) =~= Seq::<(u64, u64)>::empty());
        }
        true
    }

    /// The smallest recorded value, if any observation was recorded.
    pub fn minimum(&self) -> (r: Option<u64>)
        requires
            self.wf(),
        ensures
            r is Some <==> self.total_count() > 0,
            r is Some ==> r->0 == self.entries()[0].0,
    {
        if self.buckets.len() == 0 {
            None
        } else {
            Some(self.buckets[0].0)
        }
    }

    /// The largest recorded value, if any observation was recorded.
    pub fn maximum(&self) -> (r: Option<u64>)
        requires
            self.wf(),
        ensures
            r is Some <==> self.total_count() > 0,
            r is Some ==> r->0 == self.entries().last().0,
    {
        if self.buckets.len() == 0 {
            None
        } else {
            Some(self.buckets[self.buckets.len() - 1].0)
        }
    }
}

/// A single bucket's count is at most the count of its value.
proof fn lemma_bucket_le_count_in(s: Seq<(u64, u64)>, i: int)
    requires
        0 <= i < s.len(),
    ensures
        s[i].1 <= count_in(s, s[i].0),
    decreases s.len(),
{
    if i > 0 {
        lemma_bucket_le_count_in(s.drop_first(), i - 1);
    }
}


/// The weighted sum of a bucket list: each value times its count.
pub open spec fn weighted_total(s: Seq<(u64, u64)>) -> nat
    decreases s.len(),
{
    if s.len() == 0 {
        0
    } else {
        s[0].0 as nat * s[0].1 as nat + weighted_total(s.drop_first())
    }
}

/// The squared weighted sum of a bucket list: each value squared times its
/// count.
pub open spec fn sq_weighted_total(s: Seq<(u64, u64)>) -> nat
    decreases s.len(),
{
    if s.len() == 0 {
        0
    } else {
        s[0].0 as nat * s[0].0 as nat * s[0].1 as nat + sq_weighted_total(s.drop_first())
    }
}

/// The count of observations whose value lies in `[lo, hi]`.
pub open spec fn included_count(s: Seq<(u64, u64)>, lo: u64, hi: u64) -> nat
    decreases s.len(),
{
    if s.len() == 0 {
        0
    } else {
        (if lo <= s[0].0 && s[0].0 <= hi {
            s[0].1 as nat
        } else {
            0
        }) + included_count(s.drop_first(), lo, hi)
    }
}

/// The weighted sum of observations whose value lies in `[lo, hi]`.
pub open spec fn included_sum(s: Seq<(u64, u64)>, lo: u64, hi: u64) -> nat
    decreases s.len(),
{
    if s.len() == 0 {
        0
    } else {
        (if lo <= s[0].0 && s[0].0 <= hi {
            (s[0].0 * s[0].1) as nat
        } else {
            0
        }) + included_sum(s.drop_first(), lo, hi)
    }
}

/// How many observations, counted from the smallest value up, the
/// percentile with numerator `p` (in ten-thousandths) reaches: one past the
/// scaled total, capped at the total.
pub open spec fn pct_need(total: nat, p: u64) -> nat {
    let n: nat = total * p as nat / 10000 + 1;
    if n > total {
        total
    } else {
        n
    }
}

/// The smallest bucket value at which the running count reaches `need`.
pub open spec fn pct_from(s: Seq<(u64, u64)>, need: nat) -> u64
    decreases s.len(),
{
    if s.len() == 0 {
        0
    } else if s[0].1 >= need {
        s[0].0
    } else {
        pct_from(s.drop_first(), (need - s[0].1) as nat)
    }
}

/// The quotient of a value bounded by a multiple of the divisor stays below
/// the factor.
proof fn lemma_div_le_factor(x: nat, d: nat, m: nat)
    requires
        d >= 1,
        x <= m * d,
    ensures
        x / d <= m,
{
    vstd::arithmetic::div_mod::lemma_fundamental_div_mod(x as int, d as int);
    assert(x == d * (x / d) + x % d && x % d >= 0 && x <= m * d ==> x / d <= m)
        by (nonlinear_arith)
        requires
            d >= 1,
    ;
}

/// The quotient of a value at least a multiple of the divisor stays at or
/// above the factor.
proof fn lemma_div_ge_factor(x: nat, d: nat, m: nat)
    requires
        d >= 1,
        x >= m * d,
    ensures
        x / d >= m,
{
    vstd::arithmetic::div_mod::lemma_fundamental_div_mod(x as int, d as int);
    assert(x == d * (x / d) + x % d && x % d < d && x >= m * d ==> x / d >= m)
        by (nonlinear_arith)
        requires
            d >= 1,
    ;
}

/// A well-formed bucket list's weighted sum is bounded by the largest
/// trackable value times the total count.
proof fn lemma_weighted_le_max(s: Seq<(u64, u64)>)
    requires
        buckets_wf(s),
    ensures
        weighted_total(s) <= TRACKABLE_MAX * counts_total(s),
    decreases s.len(),
{
    if s.len() > 0 {
        assert(buckets_wf(s.drop_first())) by {
            assert(forall|i: int|
                0 <= i < s.drop_first().len() ==> s.drop_first()[i] == s[i + 1]);
        }
        lemma_weighted_le_max(s.drop_first());
        vstd::arithmetic::mul::lemma_mul_inequality(s[0].0 as int, TRACKABLE_MAX as int,
            s[0].1 as int);
        assert(TRACKABLE_MAX * (s[0].1 + counts_total(s.drop_first())) == TRACKABLE_MAX * s[0].1
            + TRACKABLE_MAX * counts_total(s.drop_first())) by (nonlinear_arith);
    }
}

/// A well-formed bucket list's squared weighted sum is bounded by the square
/// of the largest trackable value times the total count.
proof fn lemma_sq_weighted_le_max(s: Seq<(u64, u64)>)
    requires
        buckets_wf(s),
    ensures
        sq_weighted_total(s) <= TRACKABLE_MAX * TRACKABLE_MAX * counts_total(s),
    decreases s.len(),
{
    if s.len() > 0 {
        assert(buckets_wf(s.drop_first())) by {
            assert(forall|i: int|
                0 <= i < s.drop_first().len() ==> s.drop_first()[i] == s[i + 1]);
        }
        lemma_sq_weighted_le_max(s.drop_first());
        let m = TRACKABLE_MAX as int;
        assert(s[0].0 * s[0].0 * s[0].1 <= m * m * s[0].1) by (nonlinear_arith)
            requires
                0 <= s[0].0 <= m,
                s[0].1 >= 0,
        ;
        assert(m * m * (s[0].1 + counts_total(s.drop_first())) == m * m * s[0].1 + m * m
            * counts_total(s.drop_first())) by (nonlinear_arith);
    }
}

/// The included count never exceeds the total, and the included sum is
/// bounded between the bounds times the included count.
proof fn lemma_included_bounds(s: Seq<(u64, u64)>, lo: u64, hi: u64)
    ensures
        included_count(s, lo, hi) <= counts_total(s),
        lo * included_count(s, lo, hi) <= included_sum(s, lo, hi),
        included_sum(s, lo, hi) <= hi * included_count(s, lo, hi),
    decreases s.len(),
{
    if s.len() > 0 {
        lemma_included_bounds(s.drop_first(), lo, hi);
        let c = included_count(s.drop_first(), lo, hi);
        if lo <= s[0].0 && s[0].0 <= hi {
            assert(lo * s[0].1 <= s[0].0 * s[0].1 && s[0].0 * s[0].1 <= hi * s[0].1)
                by (nonlinear_arith)
                requires
                    lo <= s[0].0 <= hi,
                    s[0].1 >= 0,
            ;
            assert(lo * (s[0].1 + c) == lo * s[0].1 + lo * c && hi * (s[0].1 + c) == hi * s[0].1
                + hi * c) by (nonlinear_arith);
        }
    }
}

/// A bucket whose value lies within the bounds contributes its whole count
/// to the included count.
proof fn lemma_included_count_has(s: Seq<(u64, u64)>, lo: u64, hi: u64, i: int)
    requires
        0 <= i < s.len(),
        lo <= s[i].0 <= hi,
    ensures
        included_count(s, lo, hi) >= s[i].1,
    decreases s.len(),
{
    if i > 0 {
        lemma_included_count_has(s.drop_first(), lo, hi, i - 1);
    }
}

/// A percentile of a non-empty bucket list is one of its values.
proof fn lemma_pct_is_bucket_value(s: Seq<(u64, u64)>, need: nat)
    requires
        1 <= need <= counts_total(s),
    ensures
        exists|i: int| 0 <= i < s.len() && pct_from(s, need) == (#[trigger] s[i]).0,
    decreases s.len(),
{
    if s[0].1 >= need {
        assert(pct_from(s, need) == s[0].0);
    } else {
        lemma_pct_is_bucket_value(s.drop_first(), (need - s[0].1) as nat);
        let j = choose|j: int|
            0 <= j < s.drop_first().len() && pct_from(s.drop_first(), (need - s[0].1) as nat) == (
            #[trigger] s.drop_first()[j]).0;
        assert(s[j + 1] == s.drop_first()[j]);
    }
}

/// Percentile scans are monotone in how far they must reach.
proof fn lemma_pct_monotone(s: Seq<(u64, u64)>, n1: nat, n2: nat)
    requires
        buckets_wf(s),
        1 <= n1 <= n2 <= counts_total(s),
    ensures
        pct_from(s, n1) <= pct_from(s, n2),
    decreases s.len(),
{
    assert(buckets_wf(s.drop_first())) by {
        assert(forall|i: int| 0 <= i < s.drop_first().len() ==> s.drop_first()[i] == s[i + 1]);
    }
    if s[0].1 >= n2 {
    } else if s[0].1 >= n1 {
        lemma_pct_is_bucket_value(s.drop_first(), (n2 - s[0].1) as nat);
        let j = choose|j: int|
            0 <= j < s.drop_first().len() && pct_from(s.drop_first(), (n2 - s[0].1) as nat) == (
            #[trigger] s.drop_first()[j]).0;
        assert(s.drop_first()[j] == s[j + 1]);
        assert(s[0].0 < s[j + 1].0);
    } else {
        lemma_pct_monotone(s.drop_first(), (n1 - s[0].1) as nat, (n2 - s[0].1) as nat);
    }
}

impl LatencyHistogram {
    /// The percentile with numerator `p` in ten-thousandths of the whole:
    /// the smallest recorded value at which the running count reaches the
    /// scaled total.
    pub closed spec fn spec_percentile(&self, p: u64) -> u64 {
        pct_from(self.buckets@, pct_need(counts_total(self.buckets@), p))
    }

    /// The mean of all observations, rounded to the nearest microsecond,
    /// halves up.
    pub closed spec fn spec_mean(&self) -> u64 {
        ((weighted_total(self.buckets@) + counts_total(self.buckets@) / 2) / counts_total(
            self.buckets@,
        )) as u64
    }

    /// The population variance of the observations, as the floor of
    /// `(n·Σv²c − (Σvc)²) / n²`, clamped at zero.
    pub closed spec fn spec_variance(&self) -> nat {
        let t = counts_total(self.buckets@);
        let w = weighted_total(self.buckets@);
        let q = sq_weighted_total(self.buckets@);
        if t * q >= w * w {
            (t * q - w * w) as nat / (t * t)
        } else {
            0
        }
    }

    /// The integer square root: the largest `r` with `r·r <= n`.
    pub closed spec fn spec_isqrt(n: nat) -> nat {
        choose|r: nat| #[trigger] (r * r) <= n < (r + 1) * (r + 1)
    }

    /// The standard deviation: the square root of the variance, rounded to
    /// the nearest integer, halves up.
    pub closed spec fn spec_stddev(&self) -> u64 {
        let v = self.spec_variance();
        let r = Self::spec_isqrt(v);
        (if v - r * r > r {
            r + 1
        } else {
            r
        }) as u64
    }

    /// The mean of the observations whose value lies between the
    /// `threshold` percentile and the `10000 - threshold` percentile
    /// (thresholds in ten-thousandths), inclusive on both ends; zero when
    /// nothing is included.
    pub closed spec fn spec_truncated_mean(&self, threshold: u64) -> u64 {
        let s = self.buckets@;
        if counts_total(s) == 0 {
            0
        } else {
            let lo = self.spec_percentile(threshold);
            let hi = self.spec_percentile((10000 - threshold) as u64);
            let c = included_count(s, lo, hi);
            if c > 0 {
                (included_sum(s, lo, hi) / c) as u64
            } else {
                0
            }
        }
    }

    /// The percentile with numerator `p` in ten-thousandths of the whole
    /// (five thousand is the median), if any observation was recorded.
    pub fn percentile(&self, p: u64) -> (r: Option<u64>)
        requires
            self.wf(),
            p <= 10000,
        ensures
            r is Some <==> self.total_count() > 0,
            r is Some ==> r->0 == self.spec_percentile(p),
    {
        let total = self.total;
        if total == 0 {
            return None;
        }
        proof {
            assert(total as nat * p as nat <= total as nat * 10000) by (nonlinear_arith)
                requires
                    p <= 10000,
                    total >= 0,
            ;
            lemma_div_le_factor((total as nat * p as nat) as nat, 10000, total as nat);
        }
        let q128 = (total as u128) * (p as u128) / 10000;
        let q = q128 as u64;
        let need: u64 = if q >= total {
            total
        } else {
            q + 1
        };
        let ghost needn = pct_need(counts_total(self.buckets@), p);
        proof {
            assert(needn == need);
            assert(self.buckets@.skip(0) =~= self.buckets@);
        }
        let ghost s = self.buckets@;
        let mut rem: u64 = need;
        let mut i: usize = 0;
        while i < self.buckets.len()
            invariant
                0 <= i <= s.len(),
                s == self.buckets@,
                self.wf(),
                self.total_count() > 0,
                needn == pct_need(self.total_count(), p),
                1 <= rem,
                counts_total(s.skip(i as int)) >= rem,
                pct_from(s, needn) == pct_from(s.skip(i as int), rem as nat),
            decreases s.len() - i,
        {
            let (v, c) = self.buckets[i];
            proof {
                assert(s.skip(i as int).drop_first() =~= s.skip(i as int + 1));
            }
            if c >= rem {
                proof {
                    assert(pct_from(s.skip(i as int), rem as nat) == v);
                }
                return Some(v);
            }
            rem = rem - c;
            i = i + 1;
        }
        proof {
            assert(s.skip(i as int) =~= Seq::<(u64, u64)>::empty());
            assert(false);
        }
        None
    }

    /// The mean of all observations, rounded to the nearest microsecond,
    /// halves up, if any observation was recorded.
    pub fn mean(&self) -> (r: Option<u64>)
        requires
            self.wf(),
        ensures
            r is Some <==> self.total_count() > 0,
            r is Some ==> r->0 == self.spec_mean(),
    {
        if self.total == 0 {
            return None;
        }
        let w = self.weighted_sum();
        let t = self.total as u128;
        proof {
            lemma_weighted_le_max(self.buckets@);
            lemma_div_le_factor(
                (weighted_total(self.buckets@) + counts_total(self.buckets@) / 2) as nat,
                counts_total(self.buckets@),
                TRACKABLE_MAX as nat + 1,
            );
            assert(weighted_total(self.buckets@) + counts_total(self.buckets@) / 2
                <= (TRACKABLE_MAX as nat + 1) * counts_total(self.buckets@)) by (nonlinear_arith)
                requires
                    weighted_total(self.buckets@) <= TRACKABLE_MAX as nat * counts_total(
                        self.buckets@,
                    ),
                    counts_total(self.buckets@) >= 1,
            ;
        }
        Some(((w + t / 2) / t) as u64)
    }

    /// The weighted sum of all observations, exactly.
    fn weighted_sum(&self) -> (r: u128)
        requires
            self.wf(),
        ensures
            r == weighted_total(self.buckets@),
    {
        let ghost s = self.buckets@;
        proof {
            assert(s.skip(0) =~= s);
            lemma_weighted_le_max(s);
        }
        let mut acc: u128 = 0;
        let mut i: usize = 0;
        while i < self.buckets.len()
            invariant
                0 <= i <= s.len(),
                s == self.buckets@,
                buckets_wf(s),
                acc + weighted_total(s.skip(i as int)) == weighted_total(s),
                weighted_total(s) <= TRACKABLE_MAX * counts_total(s),
                counts_total(s) <= u64::MAX,
            decreases s.len() - i,
        {
            let (v, c) = self.buckets[i];
            proof {
                assert(s.skip(i as int).drop_first() =~= s.skip(i as int + 1));
                assert(v * c <= weighted_total(s.skip(i as int)));
                assert(TRACKABLE_MAX as nat * counts_total(s) < 0x1_0000_0000_0000_0000_0000_0000)
                    by (nonlinear_arith)
                    requires
                        counts_total(s) <= u64::MAX,
                ;
            }
            acc = acc + (v as u128) * (c as u128);
            i = i + 1;
        }
        proof {
            assert(s.skip(i as int) =~= Seq::<(u64, u64)>::empty());
        }
        acc
    }

    /// The squared weighted sum of all observations, exactly.
    fn sq_weighted_sum(&self) -> (r: u128)
        requires
            self.wf(),
        ensures
            r == sq_weighted_total(self.buckets@),
    {
        let ghost s = self.buckets@;
        proof {
            assert(s.skip(0) =~= s);
            lemma_sq_weighted_le_max(s);
        }
        let mut acc: u128 = 0;
        let mut i: usize = 0;
        while i < self.buckets.len()
            invariant
                0 <= i <= s.len(),
                s == self.buckets@,
                buckets_wf(s),
                acc + sq_weighted_total(s.skip(i as int)) == sq_weighted_total(s),
                sq_weighted_total(s) <= TRACKABLE_MAX * TRACKABLE_MAX * counts_total(s),
                counts_total(s) <= u64::MAX,
            decreases s.len() - i,
        {
            let (v, c) = self.buckets[i];
            proof {
                assert(s.skip(i as int).drop_first() =~= s.skip(i as int + 1));
                assert(v as nat * v as nat <= TRACKABLE_MAX as nat * TRACKABLE_MAX as nat)
                    by (nonlinear_arith)
                    requires
                        0 <= v <= TRACKABLE_MAX,
                ;
                assert(v as nat * v as nat * c as nat <= sq_weighted_total(s.skip(i as int)));
                assert(TRACKABLE_MAX as nat * TRACKABLE_MAX as nat * counts_total(s)
                    < 0x1_0000_0000_0000_0000_0000_0000_0000_0000) by (nonlinear_arith)
                    requires
                        counts_total(s) <= u64::MAX,
                ;
            }
            acc = acc + (v as u128) * (v as u128) * (c as u128);
            i = i + 1;
        }
        proof {
            assert(s.skip(i as int) =~= Seq::<(u64, u64)>::empty());
        }
        acc
    }
}


/// Two integer square roots of the same number agree.
proof fn lemma_isqrt_unique(a: nat, b: nat, n: nat)
    requires
        a * a <= n < (a + 1) * (a + 1),
        b * b <= n < (b + 1) * (b + 1),
    ensures
        a == b,
{
    assert(a == b) by (nonlinear_arith)
        requires
            a * a <= n < (a + 1) * (a + 1),
            b * b <= n < (b + 1) * (b + 1),
    ;
}

/// The integer square root by binary search.
fn isqrt64(n: u64) -> (r: u64)
    ensures
        r as nat == LatencyHistogram::spec_isqrt(n as nat),
        r as nat * r as nat <= n as nat,
        (n as nat) < ((r as nat) + 1) * ((r as nat) + 1),
{
    let mut lo: u64 = 0;
    let mut hi: u64 = 0x1_0000_0000;
    proof {
        assert((0x1_0000_0000 as nat) * (0x1_0000_0000 as nat) > n as nat) by (nonlinear_arith)
            requires
                n <= 0xFFFF_FFFF_FFFF_FFFF,
        ;
    }
    while hi - lo > 1
        invariant
            lo < hi <= 0x1_0000_0000,
            lo as nat * lo as nat <= n as nat,
            (n as nat) < (hi as nat) * (hi as nat),
        decreases hi - lo,
    {
        let mid = lo + (hi - lo) / 2;
        proof {
            assert((mid as nat) * (mid as nat) <= 0x1_0000_0000_0000_0000) by (nonlinear_arith)
                requires
                    mid <= 0x1_0000_0000,
            ;
        }
        if (mid as u128) * (mid as u128) <= n as u128 {
            lo = mid;
        } else {
            hi = mid;
        }
    }
    proof {
        assert(hi == lo + 1);
        assert(exists|r: nat| #[trigger] (r * r) <= (n as nat) < (r + 1) * (r + 1)) by {
            assert((lo as nat) * (lo as nat) <= (n as nat) < ((lo as nat) + 1) * ((lo as nat) + 1));
        }
        lemma_isqrt_unique(lo as nat, LatencyHistogram::spec_isqrt(n as nat), n as nat);
    }
    lo
}

impl LatencyHistogram {
    /// The standard deviation of all observations, rounded to the nearest
    /// integer, halves up, if any observation was recorded. The observation
    /// count must fit in 32 bits so that the variance computation fits in
    /// machine words.
    pub fn stddev(&self) -> (r: Option<u64>)
        requires
            self.wf(),
            self.total_count() <= u32::MAX,
        ensures
            r is Some <==> self.total_count() > 0,
            r is Some ==> r->0 == self.spec_stddev(),
    {
        if self.total == 0 {
            return None;
        }
        let t = self.total as u128;
        let w = self.weighted_sum();
        let q = self.sq_weighted_sum();
        let ghost tn = counts_total(self.buckets@);
        let ghost wn = weighted_total(self.buckets@);
        let ghost qn = sq_weighted_total(self.buckets@);
        proof {
            lemma_weighted_le_max(self.buckets@);
            lemma_sq_weighted_le_max(self.buckets@);
            assert(tn * qn < 0x1_0000_0000_0000_0000_0000_0000_0000_0000 && wn * wn
                < 0x1_0000_0000_0000_0000_0000_0000_0000_0000 && tn * tn
                < 0x1_0000_0000_0000_0000_0000_0000_0000_0000) by (nonlinear_arith)
                requires
                    1 <= tn <= 0xFFFF_FFFF,
                    wn <= 0xFFFF_FFFF * tn,
                    qn <= 0xFFFF_FFFF * 0xFFFF_FFFF * tn,
            ;
        }
        let num = if t * q >= w * w {
            t * q - w * w
        } else {
            0
        };
        let den = t * t;
        proof {
            assert(tn * tn >= 1) by (nonlinear_arith)
                requires
                    tn >= 1,
            ;
            if tn * qn >= wn * wn {
                assert(tn * qn - wn * wn <= (0xFFFF_FFFF * 0xFFFF_FFFF) * (tn * tn))
                    by (nonlinear_arith)
                    requires
                        1 <= tn,
                        qn <= 0xFFFF_FFFF * 0xFFFF_FFFF * tn,
                        wn * wn >= 0,
                ;
                lemma_div_le_factor((tn * qn - wn * wn) as nat, (tn * tn) as nat,
                    (0xFFFF_FFFF as nat * 0xFFFF_FFFF as nat) as nat);
            }
        }
        let var128 = num / den;
        let var = var128 as u64;
        let root = isqrt64(var);
        if var - root * root > root {
            Some(root + 1)
        } else {
            Some(root)
        }
    }

    /// The mean of the observations whose value lies between the
    /// `threshold` percentile and the `10000 - threshold` percentile
    /// (thresholds in ten-thousandths of the whole), inclusive on both
    /// ends; zero when the histogram is empty or nothing is included.
    pub fn truncated_mean(&self, threshold: u64) -> (r: u64)
        requires
            self.wf(),
            threshold <= 10000,
        ensures
            r == self.spec_truncated_mean(threshold),
    {
        if self.total == 0 {
            return 0;
        }
        let lo = match self.percentile(threshold) {
            Some(v) => v,
            None => 0,
        };
        let hi = match self.percentile(10000 - threshold) {
            Some(v) => v,
            None => 0,
        };
        let ghost s = self.buckets@;
        proof {
            assert(s.skip(0) =~= s);
            lemma_included_bounds(s, lo, hi);
            lemma_weighted_le_max(s);
            lemma_included_le_weighted(s, lo, hi);
        }
        let mut cnt: u64 = 0;
        let mut sum: u128 = 0;
        let mut i: usize = 0;
        while i < self.buckets.len()
            invariant
                0 <= i <= s.len(),
                s == self.buckets@,
                buckets_wf(s),
                counts_total(s) <= u64::MAX,
                weighted_total(s) <= TRACKABLE_MAX * counts_total(s),
                included_count(s, lo, hi) <= counts_total(s),
                included_sum(s, lo, hi) <= weighted_total(s),
                cnt + included_count(s.skip(i as int), lo, hi) == included_count(s, lo, hi),
                sum + included_sum(s.skip(i as int), lo, hi) == included_sum(s, lo, hi),
            decreases s.len() - i,
        {
            let (v, c) = self.buckets[i];
            proof {
                assert(s.skip(i as int).drop_first() =~= s.skip(i as int + 1));
                assert(TRACKABLE_MAX as nat * counts_total(s) < 0x1_0000_0000_0000_0000_0000_0000)
                    by (nonlinear_arith)
                    requires
                        counts_total(s) <= u64::MAX,
                ;
            }
            if lo <= v && v <= hi {
                cnt = cnt + c;
                sum = sum + (v as u128) * (c as u128);
            }
            i = i + 1;
        }
        proof {
            assert(s.skip(i as int) =~= Seq::<(u64, u64)>::empty());
        }
        if cnt > 0 {
            proof {
                lemma_div_le_factor(
                    included_sum(s, lo, hi),
                    included_count(s, lo, hi),
                    hi as nat,
                );
            }
            (sum / (cnt as u128)) as u64
        } else {
            0
        }
    }
}

/// The included weighted sum never exceeds the whole weighted sum.
proof fn lemma_included_le_weighted(s: Seq<(u64, u64)>, lo: u64, hi: u64)
    ensures
        included_sum(s, lo, hi) <= weighted_total(s),
    decreases s.len(),
{
    if s.len() > 0 {
        lemma_included_le_weighted(s.drop_first(), lo, hi);
    }
}

/// Law: a truncated mean lies between the two percentiles that bound it.
/// For any non-empty histogram and any threshold up to half the
/// distribution, the mean of the observations between the `threshold`
/// percentile and the `10000 - threshold` percentile lies between those two
/// percentiles.
pub proof fn lemma_truncated_mean_between_percentiles(h: &LatencyHistogram, threshold: u64)
    requires
        h.wf(),
        h.total_count() > 0,
        threshold <= 5000,
    ensures
        h.spec_percentile(threshold) <= h.spec_truncated_mean(threshold),
        h.spec_truncated_mean(threshold) <= h.spec_percentile((10000 - threshold) as u64),
{
    let s = h.entries();
    let t = h.total_count();
    let lo = h.spec_percentile(threshold);
    let hi = h.spec_percentile((10000 - threshold) as u64);
    let n1 = pct_need(t, threshold);
    let n2 = pct_need(t, (10000 - threshold) as u64);
    lemma_entries_wf(h);
    assert(t * threshold <= t * (10000 - threshold)) by (nonlinear_arith)
        requires
            threshold <= 5000,
            t >= 0,
    ;
    vstd::arithmetic::div_mod::lemma_div_is_ordered(
        (t * threshold) as int,
        (t * (10000 - threshold)) as int,
        10000,
    );
    assert(1 <= n1 <= n2 <= t);
    lemma_pct_monotone(s, n1, n2);
    assert(lo <= hi);
    lemma_pct_is_bucket_value(s, n2);
    let j = choose|j: int| 0 <= j < s.len() && pct_from(s, n2) == (#[trigger] s[j]).0;
    lemma_included_count_has(s, lo, hi, j);
    let c = included_count(s, lo, hi);
    let w = included_sum(s, lo, hi);
    assert(c >= 1);
    lemma_included_bounds(s, lo, hi);
    lemma_div_ge_factor(w, c, lo as nat);
    lemma_div_le_factor(w, c, hi as nat);
}

/// A well-formed histogram's bucket list is well-formed; stated so that
/// proofs outside the type can use it.
pub proof fn lemma_entries_wf(h: &LatencyHistogram)
    requires
        h.wf(),
    ensures
        buckets_wf(h.entries()),
        h.total_count() == counts_total(h.entries()),
        h.total_count() <= u64::MAX,
{
}

} // verus!

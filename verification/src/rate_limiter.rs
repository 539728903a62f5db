//! Shapes outgoing request timing to approximate a configured rate.
//!
//! A rate given in thousandths of requests per second is decomposed into a
//! refill amount and a refill interval in milliseconds by reducing the pair
//! `(floor(rate), 1000)` with their greatest common divisor; the decomposed
//! schedule drives a leaky-bucket token shaper. A rate of zero means
//! unlimited: acquisition is then a no-op.

use vstd::prelude::*;
use vstd::arithmetic::div_mod::{lemma_fundamental_div_mod, lemma_mod_multiples_basic,
    lemma_div_basics_5, lemma_div_is_ordered_by_denominator};
use std::sync::Arc;
use leaky_bucket::RateLimiter as InnerRateLimiter;

verus! {

/// Greatest common divisor by Euclid's algorithm.
pub open spec fn spec_gcd(a: nat, b: nat) -> nat
    decreases b,
{
    if b == 0 {
        a
    } else {
        spec_gcd(b, a % b)
    }
}

/// `d` divides `x` evenly.
pub open spec fn divides(d: nat, x: nat) -> bool
    recommends
        d > 0,
{
    x % d == 0
}

/// The gcd of two numbers, the first positive, is positive.
pub proof fn lemma_gcd_pos(a: nat, b: nat)
    requires
        a > 0,
    ensures
        spec_gcd(a, b) > 0,
    decreases b,
{
    if b > 0 {
        lemma_gcd_pos(b, a % b);
    }
}

/// The gcd divides both of its arguments.
pub proof fn lemma_gcd_divides(a: nat, b: nat)
    requires
        a > 0,
    ensures
        divides(spec_gcd(a, b), a),
        divides(spec_gcd(a, b), b),
    decreases b,
{
    lemma_gcd_pos(a, b);
    let g = spec_gcd(a, b) as int;
    if b == 0 {
        lemma_mod_multiples_basic(1, g);
    } else {
        lemma_gcd_divides(b, a % b);
        let ai = a as int;
        let bi = b as int;
        lemma_fundamental_div_mod(ai, bi);
        lemma_fundamental_div_mod(bi, g);
        lemma_fundamental_div_mod((ai % bi), g);
        let k = (bi / g) * (ai / bi) + (ai % bi) / g;
        assert(ai == k * g) by (nonlinear_arith)
            requires
                bi == g * (bi / g),
                ai % bi == g * ((ai % bi) / g),
                ai == bi * (ai / bi) + ai % bi,
                k == (bi / g) * (ai / bi) + (ai % bi) / g,
        ;
        lemma_mod_multiples_basic(k, g);
    }
}

/// A positive divisor recovers the dividend from the quotient.
pub proof fn lemma_divides_exact(d: nat, x: nat)
    requires
        d > 0,
        divides(d, x),
    ensures
        d * (x / d) == x,
        x / d <= x,
{
    lemma_fundamental_div_mod(x as int, d as int);
    assert(d * (x / d) == x ==> x / d <= x) by (nonlinear_arith)
        requires
            d > 0,
    ;
}

/// The refill amount of the decomposed schedule for a positive milli-rate.
pub open spec fn spec_refill_amount(rate_milli: u64) -> nat {
    if rate_milli > 1000 {
        let r = rate_milli as nat / 1000;
        r / spec_gcd(r, 1000nat)
    } else {
        1
    }
}

/// The refill interval in milliseconds of the decomposed schedule for a
/// positive milli-rate.
pub open spec fn spec_refill_interval_ms(rate_milli: u64) -> nat {
    if rate_milli > 1000 {
        let r = rate_milli as nat / 1000;
        1000nat / spec_gcd(r, 1000nat)
    } else {
        1000000nat / rate_milli as nat
    }
}

/// A leaky-bucket shaper, or none for an unlimited rate. The schedule the
/// bucket was built with is kept alongside as a ghost fact.
pub struct RateLimiter {
    bucket: Option<Arc<InnerRateLimiter>>,
    schedule: Ghost<Option<(u64, u64)>>,
}

/// The `(refill, interval in milliseconds)` schedule a limiter for the
/// given milli-rate is built with: the decomposed schedule, its refill
/// raised by one percent; none for an unlimited rate.
pub open spec fn spec_built_schedule(rate_milli: u64) -> Option<(u64, u64)> {
    if rate_milli == 0 {
        None
    } else {
        let amount = spec_refill_amount(rate_milli);
        Some(((amount + amount / 100) as u64, spec_refill_interval_ms(rate_milli) as u64))
    }
}

#[verifier::external_type_specification]
#[verifier::external_body]
pub struct ExLeakyBucket(InnerRateLimiter);

/// Relies on `leaky_bucket::RateLimiter::builder`: builds a token bucket that
/// refills `refill` tokens every `interval_ms` milliseconds, holding at most
/// `max` tokens. The builder panics on a zero refill or a zero interval, so
/// both are required positive here.
#[verifier::external_body]
fn build_leaky_bucket(refill: u64, interval_ms: u64, max: u64) -> InnerRateLimiter
    requires
        1 <= refill,
        1 <= interval_ms,
{
    InnerRateLimiter::builder()
        .refill(refill as usize)
        .interval(std::time::Duration::from_millis(interval_ms))
        .max(max as usize)
        .build()
}

impl RateLimiter {
    /// An unlimited limiter never shapes.
    pub closed spec fn is_unlimited(&self) -> bool {
        self.bucket is None
    }

    /// The schedule the bucket was built with, if the limiter shapes.
    pub closed spec fn spec_schedule(&self) -> Option<(u64, u64)> {
        self.schedule@
    }

    /// Builds a limiter for the given rate in thousandths of requests per
    /// second; a rate of zero yields an unlimited limiter.
    ///
    /// The bucket is built with the decomposed schedule, its refill raised by
    /// one percent to offset runtime overhead, and a capacity of one hundred
    /// refill amounts.
    pub fn build_rate_limiter(rate_milli: u64) -> (r: RateLimiter)
        requires
            rate_milli <= 0x1_0000_0000_0000,
        ensures
            r.is_unlimited() <==> rate_milli == 0,
            r.spec_schedule() == spec_built_schedule(rate_milli),
    {
        if rate_milli == 0 {
            return RateLimiter { bucket: None, schedule: Ghost(None) };
        }
        let (amount, interval_ms) = RateLimiter::rate_to_refill_amount_and_duration(rate_milli);
        let refill = amount + amount / 100;
        let max = amount * 100;
        RateLimiter {
            bucket: Some(Arc::new(build_leaky_bucket(refill, interval_ms, max))),
            schedule: Ghost(Some((refill, interval_ms))),
        }
    }

    /// The bucket behind this limiter, if any; acquisition awaits on it.
    pub fn bucket_ref(&self) -> (r: &Option<Arc<InnerRateLimiter>>)
        ensures
            r is Some <==> !self.is_unlimited(),
    {
        &self.bucket
    }

    /// Decomposes a positive milli-rate into a refill amount and a refill
    /// interval in milliseconds.
    ///
    /// A rate of at most one request per second refills one token every
    /// `1/rate` seconds; a larger rate reduces `(floor(rate), 1000 ms)` by
    /// their greatest common divisor. Either way the amount delivered per
    /// interval reproduces the whole part of the requested rate: for rates
    /// above one per second, `amount * 1000 == floor(rate) * interval`.
    pub fn rate_to_refill_amount_and_duration(rate_milli: u64) -> (r: (u64, u64))
        requires
            1 <= rate_milli,
        ensures
            r.0 == spec_refill_amount(rate_milli),
            r.1 == spec_refill_interval_ms(rate_milli),
            1 <= r.0 <= rate_milli,
            1 <= r.1 <= 1000000,
            rate_milli > 1000 ==> r.0 * 1000 == (rate_milli / 1000) * r.1,
    {
        if rate_milli > 1000 {
            let rate = rate_milli / 1000;
            let g = RateLimiter::gcd(rate, 1000);
            proof {
                let rn = rate as nat;
                let gn = spec_gcd(rn, 1000);
                lemma_gcd_pos(rn, 1000);
                lemma_gcd_divides(rn, 1000);
                lemma_divides_exact(gn, rn);
                lemma_divides_exact(gn, 1000);
                assert((rn / gn) * 1000 == rn * (1000nat / gn)) by (nonlinear_arith)
                    requires
                        gn * (rn / gn) == rn,
                        gn * (1000nat / gn) == 1000nat,
                ;
                assert(rn / gn >= 1 && 1000nat / gn >= 1) by (nonlinear_arith)
                    requires
                        gn * (rn / gn) == rn,
                        gn * (1000nat / gn) == 1000nat,
                        rn >= 1,
                ;
                lemma_div_basics_5(rate_milli as int, 1000);
            }
            (rate / g, 1000 / g)
        } else {
            proof {
                lemma_div_basics_5(1000000, rate_milli as int);
                lemma_div_is_ordered_by_denominator(1000000, rate_milli as int, 1000);
            }
            (1, 1000000 / rate_milli)
        }
    }

    /// Greatest common divisor by Euclid's algorithm.
    pub fn gcd(a0: u64, b0: u64) -> (g: u64)
        ensures
            g == spec_gcd(a0 as nat, b0 as nat),
    {
        let mut a = a0;
        let mut b = b0;
        while b != 0
            invariant
                spec_gcd(a as nat, b as nat) == spec_gcd(a0 as nat, b0 as nat),
            decreases b,
        {
            let t = b;
            b = a % b;
            a = t;
        }
        a
    }
}

} // verus!

//! The benchmark's configuration: the mode, the ladder, and the request
//! body specification.
//!
//! A body specification is a little grammar: `random://N` asks for `N`
//! random bytes, `base64://DATA` carries the body inline, `file://PATH`
//! points at a file, and anything else is a configuration error. Parsing
//! and the random and inline materialisations stand here; reading a file is
//! the caller's.

use vstd::prelude::*;
use std::sync::Arc;
use crate::bench_session::{BenchSession, RateLadder, clone_arc_mode};
use crate::http_bench_session::HttpBenchAdapter;

verus! {

/// The protocol the benchmark speaks.
pub enum BenchmarkMode {
    /// Drive HTTP or HTTPS load.
    Http(HttpBenchAdapter),
}

/// The whole benchmark's immutable configuration.
pub struct BenchmarkConfig {
    /// The test-case name, for tagging reports.
    pub name: Option<String>,
    /// Whether this run is part of a continuous series.
    pub continuous: bool,
    /// Verbose logging.
    pub verbose: bool,
    /// How many workers run concurrently.
    pub concurrency: usize,
    /// The schedule of rates.
    pub rate_ladder: RateLadder,
    /// The protocol adapter.
    pub mode: Arc<BenchmarkMode>,
    /// The per-request timeout in microseconds, if any.
    pub request_timeout_micros: Option<u64>,
}

impl BenchmarkConfig {
    /// The configuration's invariant: workers exist and are countable, and
    /// the ladder is well formed and carries a budget.
    pub open spec fn wf(&self) -> bool {
        &&& 1 <= self.concurrency <= 0xFFFF_FFFF
        &&& self.rate_ladder.wf()
        &&& self.rate_ladder.has_budget()
    }

    /// A fresh session over this configuration's ladder and adapter, with
    /// no batches yielded yet.
    pub fn new_bench_session(&mut self) -> (r: BenchSession)
        requires
            old(self).wf(),
        ensures
            *final(self) == *old(self),
            r.concurrency == old(self).concurrency,
            r.rate_ladder == old(self).rate_ladder,
            r.mode == old(self).mode,
            r.current_iteration == 0,
            r.request_timeout_micros == old(self).request_timeout_micros,
            r.wf(),
    {
        BenchSession {
            concurrency: self.concurrency,
            rate_ladder: self.rate_ladder,
            mode: clone_arc_mode(&self.mode),
            current_iteration: 0,
            request_timeout_micros: self.request_timeout_micros,
        }
    }
}

/// A builder for [`BenchmarkConfig`]: the ladder and the mode are required,
/// everything else has a default.
pub struct BenchmarkConfigBuilder {
    /// The test-case name.
    pub name: Option<String>,
    /// Whether this run is part of a continuous series.
    pub continuous: bool,
    /// Verbose logging.
    pub verbose: bool,
    /// How many workers run concurrently.
    pub concurrency: usize,
    /// The schedule of rates, once set.
    pub rate_ladder: Option<RateLadder>,
    /// The protocol adapter, once set.
    pub mode: Option<BenchmarkMode>,
    /// The per-request timeout in microseconds, if any.
    pub request_timeout_micros: Option<u64>,
}

impl BenchmarkConfigBuilder {
    /// The test-case name.
    pub fn name(self, v: Option<String>) -> (r: Self)
        ensures
            r == (BenchmarkConfigBuilder { name: v, ..self }),
    {
        BenchmarkConfigBuilder { name: v, ..self }
    }

    /// Whether this run is part of a continuous series.
    pub fn continuous(self, v: bool) -> (r: Self)
        ensures
            r == (BenchmarkConfigBuilder { continuous: v, ..self }),
    {
        BenchmarkConfigBuilder { continuous: v, ..self }
    }

    /// Verbose logging.
    pub fn verbose(self, v: bool) -> (r: Self)
        ensures
            r == (BenchmarkConfigBuilder { verbose: v, ..self }),
    {
        BenchmarkConfigBuilder { verbose: v, ..self }
    }

    /// How many workers run concurrently.
    pub fn concurrency(self, v: usize) -> (r: Self)
        ensures
            r == (BenchmarkConfigBuilder { concurrency: v, ..self }),
    {
        BenchmarkConfigBuilder { concurrency: v, ..self }
    }

    /// The schedule of rates.
    pub fn rate_ladder(self, v: RateLadder) -> (r: Self)
        ensures
            r == (BenchmarkConfigBuilder { rate_ladder: Some(v), ..self }),
    {
        BenchmarkConfigBuilder { rate_ladder: Some(v), ..self }
    }

    /// The protocol adapter.
    pub fn mode(self, v: BenchmarkMode) -> (r: Self)
        ensures
            r == (BenchmarkConfigBuilder { mode: Some(v), ..self }),
    {
        BenchmarkConfigBuilder { mode: Some(v), ..self }
    }

    /// The per-request timeout in microseconds, if any.
    pub fn request_timeout_micros(self, v: Option<u64>) -> (r: Self)
        ensures
            r == (BenchmarkConfigBuilder { request_timeout_micros: v, ..self }),
    {
        BenchmarkConfigBuilder { request_timeout_micros: v, ..self }
    }

    /// The finished configuration: fails without a ladder or a mode, or
    /// with a worker count of zero or beyond the session's machine bound.
    pub fn build(self) -> (r: Result<BenchmarkConfig, String>)
        ensures
            r is Ok <==> self.rate_ladder is Some && self.mode is Some && 1 <= self.concurrency
                <= 0xFFFF_FFFF,
            r matches Ok(c) ==> {
                &&& c.name == self.name
                &&& c.continuous == self.continuous
                &&& c.verbose == self.verbose
                &&& c.concurrency == self.concurrency
                &&& Some(c.rate_ladder) == self.rate_ladder
                &&& (self.mode matches Some(m) ==> c.mode == m)
                &&& c.request_timeout_micros == self.request_timeout_micros
            },
    {
        let rate_ladder = match self.rate_ladder {
            Some(v) => v,
            None => {
                return Err("`rate_ladder` must be initialized".to_owned());
            },
        };
        let mode = match self.mode {
            Some(v) => v,
            None => {
                return Err("`mode` must be initialized".to_owned());
            },
        };
        if self.concurrency < 1 || self.concurrency > 0xFFFF_FFFF {
            return Err("`concurrency` must be between one and the session bound".to_owned());
        }
        Ok(
            BenchmarkConfig {
                name: self.name,
                continuous: self.continuous,
                verbose: self.verbose,
                concurrency: self.concurrency,
                rate_ladder,
                mode: Arc::new(mode),
                request_timeout_micros: self.request_timeout_micros,
            },
        )
    }
}

impl Default for BenchmarkConfigBuilder {
    /// One worker, nothing else set.
    fn default() -> (r: Self)
        ensures
            r.name is None && !r.continuous && !r.verbose && r.concurrency == 1
                && r.rate_ladder is None && r.mode is None && r.request_timeout_micros is None,
    {
        BenchmarkConfigBuilder {
            name: None,
            continuous: false,
            verbose: false,
            concurrency: 1,
            rate_ladder: None,
            mode: None,
            request_timeout_micros: None,
        }
    }
}

/// A nonempty string of decimal digits.
pub open spec fn is_digits(s: Seq<char>) -> bool {
    s.len() > 0 && forall|i: int| 0 <= i < s.len() ==> 48 <= (#[trigger] s[i]) as u32 <= 57
}

/// The number a digit string denotes.
pub open spec fn dec_value(s: Seq<char>) -> int
    decreases s.len(),
{
    if s.len() == 0 {
        0
    } else {
        dec_value(s.drop_last()) * 10 + ((s.last() as u32) - 48)
    }
}

/// Reading further digits never shrinks the value read so far.
proof fn lemma_dec_value_extend(s: Seq<char>, i: int)
    requires
        0 <= i <= s.len(),
        forall|j: int| i <= j < s.len() ==> 48 <= (#[trigger] s[j]) as u32 <= 57,
        dec_value(s.subrange(0, i)) >= 0,
    ensures
        dec_value(s.subrange(0, i)) <= dec_value(s),
        dec_value(s) >= 0,
    decreases s.len() - i,
{
    if i == s.len() {
        assert(s.subrange(0, i) =~= s);
    } else {
        assert(s.subrange(0, i + 1).drop_last() =~= s.subrange(0, i));
        assert(s.subrange(0, i + 1).last() == s[i]);
        lemma_dec_value_extend(s, i + 1);
    }
}

/// Reads a decimal number: accepts exactly the nonempty digit strings whose
/// value fits in 32 bits.
pub fn parse_u32(s: &str) -> (r: Option<u32>)
    ensures
        r matches Some(v) ==> is_digits(s@) && v == dec_value(s@),
        r is Some <==> is_digits(s@) && dec_value(s@) <= u32::MAX,
{
    let n = s.unicode_len();
    if n == 0 {
        return None;
    }
    let mut acc: u64 = 0;
    let mut i: usize = 0;
    proof {
        assert(s@.subrange(0, 0) =~= Seq::<char>::empty());
    }
    while i < n
        invariant
            0 < n == s@.len(),
            0 <= i <= n,
            forall|j: int| 0 <= j < i ==> 48 <= (#[trigger] s@[j]) as u32 <= 57,
            acc == dec_value(s@.subrange(0, i as int)),
            acc <= u32::MAX,
        decreases n - i,
    {
        let c = s.get_char(i);
        let cu = c as u32;
        if cu < 48 || cu > 57 {
            return None;
        }
        let d = cu - 48;
        proof {
            assert(s@.subrange(0, i as int + 1).drop_last() =~= s@.subrange(0, i as int));
            assert(s@.subrange(0, i as int + 1).last() == s@[i as int]);
        }
        acc = acc * 10 + (d as u64);
        if acc > 0xFFFF_FFFF {
            proof {
                if is_digits(s@) {
                    lemma_dec_value_extend(s@, i as int + 1);
                }
            }
            return None;
        }
        i = i + 1;
    }
    proof {
        assert(s@.subrange(0, n as int) =~= s@);
    }
    Some(acc as u32)
}

/// Where a request body comes from.
pub enum BodySource {
    /// No body.
    Empty,
    /// This many random bytes.
    Random(u32),
    /// These bytes, decoded from the inline specification.
    Decoded(Vec<u8>),
    /// The contents of the file at this path.
    File(String),
}

/// The name a result of `base64::decode` goes by: the bytes a character
/// sequence decodes to, or nothing when it is no valid encoding.
pub uninterp spec fn base64_decoded(s: Seq<char>) -> Option<Seq<u8>>;

/// Relies on `base64::decode` with the standard alphabet and padding: the
/// result is a function of the characters alone.
#[verifier::external_body]
fn decode_base64(s: &str) -> (r: Option<Vec<u8>>)
    ensures
        r matches Some(v) ==> base64_decoded(s@) == Some(v@),
        r is None ==> base64_decoded(s@) is None,
{
    base64::decode(s).ok()
}

/// Relies on `rand::RngCore::fill_bytes` over `rand::thread_rng`: exactly
/// `n` bytes of random content. Nothing is stated of the content.
#[verifier::external_body]
fn random_bytes(n: usize) -> (r: Vec<u8>)
    ensures
        r@.len() == n,
{
    let mut v = vec![0u8; n];
    rand::RngCore::fill_bytes(&mut rand::thread_rng(), &mut v);
    v
}

/// Whether `p` spells out the first characters of `s`.
fn has_prefix(s: &str, p: &str) -> (r: bool)
    ensures
        r == p@.is_prefix_of(s@),
{
    let sn = s.unicode_len();
    let pn = p.unicode_len();
    if pn > sn {
        return false;
    }
    let mut i: usize = 0;
    while i < pn
        invariant
            0 <= i <= pn,
            pn == p@.len() <= sn == s@.len(),
            forall|j: int| 0 <= j < i ==> s@[j] == p@[j],
        decreases pn - i,
    {
        let cs = s.get_char(i);
        let cp = p.get_char(i);
        proof {
            vstd::utf8::char_u32_cast(cs, cs as u32);
            vstd::utf8::char_u32_cast(cp, cp as u32);
        }
        if (cs as u32) != (cp as u32) {
            proof {
                assert(!p@.is_prefix_of(s@)) by {
                    assert(s@.subrange(0, p@.len() as int)[i as int] != p@[i as int]);
                }
            }
            return false;
        }
        i = i + 1;
    }
    proof {
        assert(p@ =~= s@.subrange(0, p@.len() as int));
    }
    true
}

/// Reads a body specification: none means no body, `random://N` asks for
/// `N` random bytes (`N` a decimal number that fits 32 bits),
/// `base64://DATA` carries the body inline, `file://PATH` points at a file,
/// and anything else is rejected.
pub fn parse_body_spec(body: &Option<String>) -> (r: Result<BodySource, String>)
    ensures
        body is None ==> (r matches Ok(b) && b is Empty),
        body matches Some(s) ==> {
            &&& ("random://"@.is_prefix_of(s@) ==> {
                let rest = s@.skip(9);
                if is_digits(rest) && dec_value(rest) <= u32::MAX {
                    r matches Ok(b) && (b matches BodySource::Random(m) && m == dec_value(rest))
                } else {
                    r is Err
                }
            })
            &&& ("base64://"@.is_prefix_of(s@) ==> (match base64_decoded(s@.skip(9)) {
                Some(bytes) => (r matches Ok(b) && (b matches BodySource::Decoded(d) && d@
                    == bytes)),
                None => r is Err,
            }))
            &&& ("file://"@.is_prefix_of(s@) ==> (r matches Ok(b) && (b matches BodySource::File(
                p,
            ) && p@ == s@.skip(7))))
            &&& (!"random://"@.is_prefix_of(s@) && !"base64://"@.is_prefix_of(s@) && !"file://"@
                .is_prefix_of(s@) ==> r is Err)
        },
{
    let value = match body {
        Some(v) => v,
        None => {
            return Ok(BodySource::Empty);
        },
    };
    let s = value.as_str();
    let n = s.unicode_len();
    proof {
        reveal_strlit("random://");
        reveal_strlit("base64://");
        reveal_strlit("file://");
    }
    if has_prefix(s, "random://") {
        let rest = s.substring_char(9, n);
        proof {
            assert(rest@ =~= s@.skip(9));
            if "base64://"@.is_prefix_of(s@) {
                assert("base64://"@[0] == s@[0] && "random://"@[0] == s@[0]);
            }
            if "file://"@.is_prefix_of(s@) {
                assert("file://"@[0] == s@[0] && "random://"@[0] == s@[0]);
            }
        }
        match parse_u32(rest) {
            Some(m) => Ok(BodySource::Random(m)),
            None => Err("the random body size must be a decimal number".to_owned()),
        }
    } else if has_prefix(s, "base64://") {
        let rest = s.substring_char(9, n);
        proof {
            assert(rest@ =~= s@.skip(9));
            if "file://"@.is_prefix_of(s@) {
                assert("file://"@[0] == s@[0] && "base64://"@[0] == s@[0]);
            }
        }
        match decode_base64(rest) {
            Some(bytes) => Ok(BodySource::Decoded(bytes)),
            None => Err("the inline body is not valid base64".to_owned()),
        }
    } else if has_prefix(s, "file://") {
        let rest = s.substring_char(7, n);
        proof {
            assert(rest@ =~= s@.skip(7));
        }
        Ok(BodySource::File(rest.to_owned()))
    } else {
        Err("unsupported body format".to_owned())
    }
}

/// Turns a parsed body source into bytes: no body is empty, a random source
/// is that many random bytes, an inline source is its decoded bytes, and a
/// file source must be read by the caller and is rejected here.
pub fn materialize_body(source: BodySource) -> (r: Result<Vec<u8>, String>)
    ensures
        source is Empty ==> (r matches Ok(v) && v@.len() == 0),
        source matches BodySource::Random(m) ==> (r matches Ok(v) && v@.len() == m),
        source matches BodySource::Decoded(d) ==> (r matches Ok(v) && v == d),
        source is File ==> r is Err,
{
    match source {
        BodySource::Empty => Ok(Vec::new()),
        BodySource::Random(m) => Ok(random_bytes(m as usize)),
        BodySource::Decoded(d) => Ok(d),
        BodySource::File(_) => Err("a file body must be read from disk".to_owned()),
    }
}

} // verus!

//! A load-generation engine: a rate ladder that steps through request rates,
//! worker budgets bounded by request count or elapsed time, a leaky-bucket
//! rate shaper, and a metrics pipeline that aggregates per-request outcomes
//! into latency histograms and categorical counters.
//!
//! Rates are carried as integer thousandths of requests per second
//! ("milli-rate"), and durations as integer microseconds, so that every
//! computation over them is exact.

pub mod bench_run;
pub mod bench_session;
pub mod clock;
pub mod configuration;
pub mod gcs_bench_adapter;
pub mod histogram;
pub mod http_bench_session;
pub mod metrics;
pub mod rate_limiter;
pub mod report;

//! The rate ladder's schedule and the session's batches.

use perf_gauge::bench_session::{RateLadder, RateLadderBuilder};
use perf_gauge::configuration::{BenchmarkConfigBuilder, BenchmarkMode};
use perf_gauge::http_bench_session::{
    HttpBenchAdapterBuilder, HttpClientConfigBuilder, HttpRequestBuilder,
};

fn ladder(
    start: u64,
    end: u64,
    rate_increment: Option<u64>,
    max_rate_iterations: u64,
) -> RateLadder {
    RateLadderBuilder::default()
        .start(start)
        .end(end)
        .rate_increment(rate_increment)
        .step_duration_micros(None)
        .step_requests(None)
        .max_rate_iterations(max_rate_iterations)
        .build()
        .expect("Failed to build")
}

#[test]
fn test_rate_ladder_with_increment() {
    let mut rate_ladder = ladder(5_000_000, 10_000_000, Some(5_000_000), 0);

    assert_eq!(5_000_000, rate_ladder.get_current());

    rate_ladder.increment_rate();
    assert_eq!(10_000_000, rate_ladder.get_current());

    // done
    rate_ladder.increment_rate();
    assert_eq!(10_000_000, rate_ladder.get_current());
    assert!(rate_ladder.complete);
}

#[test]
fn test_rate_ladder_with_max_reps() {
    let max_rate_reps = 10;
    let max_rate = 10_000_000;
    let start = 5_000_000;
    let mut rate_ladder = ladder(start, max_rate, Some(start), max_rate_reps);

    assert_eq!(start, rate_ladder.get_current());

    rate_ladder.increment_rate();
    assert_eq!(max_rate, rate_ladder.get_current());

    for _ in 0..max_rate_reps {
        rate_ladder.increment_rate();
        assert_eq!(max_rate, rate_ladder.get_current());
    }

    // done
    rate_ladder.increment_rate();
    assert_eq!(max_rate, rate_ladder.get_current());
    assert!(rate_ladder.complete);
}

#[test]
fn test_rate_ladder_without_increment() {
    let start = 5_000_000;
    let end = 10_000_000;
    let mut rate_ladder = RateLadderBuilder::default()
        .start(start)
        .end(end)
        .rate_increment(None)
        .step_duration_micros(None)
        .step_requests(None)
        .build()
        .expect("Failed to build");

    assert_eq!(start, rate_ladder.get_current());
    assert!(!rate_ladder.complete);
    rate_ladder.increment_rate();
    assert_eq!(start, rate_ladder.get_current());
    assert!(rate_ladder.complete);
}

#[test]
fn test_rate_ladder_without_increment_multiple_iterations() {
    let start = 5_000_000;
    let end = 10_000_000;
    let max_iterations = 100;
    let mut rate_ladder = RateLadderBuilder::default()
        .start(start)
        .end(end)
        .rate_increment(None)
        .step_duration_micros(None)
        .step_requests(None)
        .max_rate_iterations(max_iterations)
        .build()
        .expect("Failed to build");

    assert_eq!(start, rate_ladder.get_current());
    assert!(!rate_ladder.complete);

    for i in 0..max_iterations {
        rate_ladder.increment_rate();
        assert_eq!(start, rate_ladder.get_current());
        assert_eq!(i + 1 == max_iterations, rate_ladder.complete);
    }
}

#[test]
fn test_ladder_rejects_reversed_rates() {
    let result = RateLadderBuilder::default()
        .start(10_000_000)
        .end(5_000_000)
        .rate_increment(None)
        .step_duration_micros(None)
        .step_requests(None)
        .build();
    assert!(result.is_err());
}

#[test]
fn test_ladder_requires_all_fields() {
    let result = RateLadderBuilder::default().start(1_000).build();
    assert!(result.is_err());
}

fn http_mode() -> BenchmarkMode {
    BenchmarkMode::Http(
        HttpBenchAdapterBuilder::default()
            .request(
                HttpRequestBuilder::default()
                    .url(vec!["http://localhost:8080/1".to_string()])
                    .build()
                    .unwrap(),
            )
            .config(HttpClientConfigBuilder::default().build().unwrap())
            .build()
            .unwrap(),
    )
}

/// A session over a fixed-rate ladder yields exactly `max_rate_iterations`
/// batches, each with one worker per unit of concurrency, numbered
/// consecutively.
#[test]
fn test_session_yields_fixed_rate_batches() {
    let rate_ladder = RateLadderBuilder::default()
        .start(1_000_000)
        .end(1_000_000)
        .rate_increment(None)
        .step_duration_micros(None)
        .step_requests(Some(5))
        .max_rate_iterations(3)
        .build()
        .expect("ladder");
    let mut config = BenchmarkConfigBuilder::default()
        .concurrency(2)
        .rate_ladder(rate_ladder)
        .mode(http_mode())
        .build()
        .expect("config");
    let mut session = config.new_bench_session();

    let mut batches = 0;
    let mut next_index = 0;
    while let Some(batch) = session.next_batch() {
        assert_eq!(batch.runs.len(), 2);
        for run in batch.runs.iter() {
            assert_eq!(run.index, next_index);
            next_index += 1;
        }
        batches += 1;
        assert!(batches <= 3);
    }
    assert_eq!(batches, 3);
}

/// A climbing session yields the start rate, the top rate, and then stops.
#[test]
fn test_session_climbs_to_the_top_rate() {
    let rate_ladder = RateLadderBuilder::default()
        .start(5_000_000)
        .end(10_000_000)
        .rate_increment(Some(5_000_000))
        .step_duration_micros(None)
        .step_requests(Some(1))
        .max_rate_iterations(0)
        .build()
        .expect("ladder");
    let mut config = BenchmarkConfigBuilder::default()
        .concurrency(1)
        .rate_ladder(rate_ladder)
        .mode(http_mode())
        .build()
        .expect("config");
    let mut session = config.new_bench_session();

    let mut batches = 0;
    while let Some(batch) = session.next_batch() {
        assert_eq!(batch.runs.len(), 1);
        batches += 1;
        assert!(batches <= 2);
    }
    assert_eq!(batches, 2);
}

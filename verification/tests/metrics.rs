//! Metrics aggregation, the ordered summary, and the latency statistics.

use perf_gauge::bench_run::BenchRun;
use perf_gauge::histogram::LatencyHistogram;
use perf_gauge::metrics::{BenchRunMetrics, RequestStats};
use perf_gauge::rate_limiter::RateLimiter;
use perf_gauge::report::DefaultConsoleReporter;

fn stats(is_success: bool, bytes: u64, status: &str, duration_micros: u64) -> RequestStats {
    RequestStats {
        is_success,
        bytes_processed: bytes,
        status: status.to_string(),
        duration_micros,
        fatal_error: false,
        operation_name: None,
    }
}

#[test]
fn test_codes() {
    let mut metrics = BenchRunMetrics::new();
    let codes = vec![
        "200 OK".to_string(),
        "200 OK".to_string(),
        "400 BAD_REQUEST".to_string(),
        "502 BAD_GATEWAY".to_string(),
        "502 BAD_GATEWAY".to_string(),
        "502 BAD_GATEWAY".to_string(),
    ];

    for code in codes.into_iter() {
        metrics.report_request(RequestStats {
            is_success: true,
            bytes_processed: 0,
            status: code,
            duration_micros: 0,
            fatal_error: false,
            operation_name: None,
        });
    }

    let mut ordered_summary = DefaultConsoleReporter::new(None)
        .build_report(&metrics)
        .response_code_summary
        .into_iter();
    assert_eq!(
        Some(("502 BAD_GATEWAY".to_string(), 3)),
        ordered_summary.next()
    );
    assert_eq!(Some(("200 OK".to_string(), 2)), ordered_summary.next());
    assert_eq!(
        Some(("400 BAD_REQUEST".to_string(), 1)),
        ordered_summary.next()
    );
}

#[test]
fn test_latency() {
    let mut metrics = BenchRunMetrics::new();
    for i in 0..1000 {
        metrics.report_request(stats(true, 0, "200 OK", i));
    }

    let report = DefaultConsoleReporter::new(None).build_report(&metrics);
    let mut items = report.latency_summary.into_iter();

    assert_eq!(Some(("Min".to_string(), 0)), items.next());
    assert_eq!(Some(("p50".to_string(), 500)), items.next());
    assert_eq!(Some(("p90".to_string(), 900)), items.next());
    assert_eq!(Some(("p95".to_string(), 950)), items.next());
    assert_eq!(Some(("p99".to_string(), 990)), items.next());
    assert_eq!(Some(("p99.9".to_string(), 999)), items.next());
    assert_eq!(Some(("p99.99".to_string(), 999)), items.next());
    assert_eq!(Some(("Max".to_string(), 999)), items.next());
    assert_eq!(Some(("Mean".to_string(), 500)), items.next());
    assert_eq!(Some(("StdDev".to_string(), 289)), items.next());
}

#[test]
fn test_has_more_work_request_limit() {
    let requests = 10;
    let mut metrics = BenchRun::from_request_limit(0, requests, RateLimiter::build_rate_limiter(0), None);
    for _ in 0..requests {
        assert!(metrics.has_more_work());
    }
    assert!(!metrics.has_more_work());
}

/// Successful requests never outnumber all requests, and the summary counts
/// add up to exactly the total request count.
#[test]
fn test_summary_counts_add_up() {
    let mut metrics = BenchRunMetrics::new();
    metrics.report_request(stats(true, 10, "200 OK", 100));
    metrics.report_request(stats(false, 0, "500 Internal Server Error", 250));
    metrics.report_request(stats(true, 20, "200 OK", 150));
    metrics.report_request(stats(false, 0, "timed out", 900));

    assert_eq!(metrics.total_requests(), 4);
    assert_eq!(metrics.successful_requests(), 2);
    assert!(metrics.successful_requests() <= metrics.total_requests());
    assert_eq!(metrics.total_bytes(), 30);

    let report = DefaultConsoleReporter::new(None).build_report(&metrics);
    let summed: u64 = report.response_code_summary.iter().map(|p| p.1).sum();
    assert_eq!(summed, metrics.total_requests());
}

#[test]
fn test_success_and_error_latency_split() {
    let mut metrics = BenchRunMetrics::new();
    metrics.report_request(stats(true, 0, "200 OK", 100));
    metrics.report_request(stats(false, 0, "500 Internal Server Error", 900));

    assert_eq!(metrics.success_latency().total(), 1);
    assert_eq!(metrics.error_latency().total(), 1);
    assert_eq!(metrics.success_latency().maximum(), Some(100));
    assert_eq!(metrics.error_latency().minimum(), Some(900));
}

#[test]
fn test_truncated_mean_uniform() {
    let mut metrics = BenchRunMetrics::new();
    for i in 0..=1000 {
        metrics.report_request(stats(true, 0, "200 OK", i));
    }
    // Thresholds are in ten-thousandths: five percent trimmed off each tail.
    assert_eq!(metrics.truncated_mean(500), 500);
}

/// The truncated mean lies between the percentiles that bound it.
#[test]
fn test_truncated_mean_between_percentiles() {
    let mut metrics = BenchRunMetrics::new();
    for i in 0..=1000 {
        metrics.report_request(stats(true, 0, "200 OK", i));
    }
    let hist = metrics.success_latency();
    let lo = hist.percentile(500).expect("nonempty");
    let hi = hist.percentile(9500).expect("nonempty");
    let tm = metrics.truncated_mean(500);
    assert!(lo <= tm && tm <= hi);
}

#[test]
fn test_histogram_exact_statistics() {
    let mut h = LatencyHistogram::new();
    assert!(h.increment(100));
    assert!(h.increment(200));
    assert!(h.increment(300));
    assert!(h.increment(300));

    assert_eq!(h.total(), 4);
    assert_eq!(h.minimum(), Some(100));
    assert_eq!(h.maximum(), Some(300));
    assert_eq!(h.percentile(5000), Some(300));
    assert_eq!(h.percentile(10000), Some(300));
    // (100 + 200 + 300 + 300 + 2) / 4, rounded halves up.
    assert_eq!(h.mean(), Some(225));
}

#[test]
fn test_histogram_ignores_untrackable_values() {
    let mut h = LatencyHistogram::new();
    assert!(h.increment(5));
    assert!(!h.increment(0xFFFF_FFFF + 1));
    assert_eq!(h.total(), 1);
    assert_eq!(h.maximum(), Some(5));
}

#[test]
fn test_histogram_merge_adds_counts() {
    let mut a = LatencyHistogram::new();
    a.increment(10);
    a.increment(20);
    let mut b = LatencyHistogram::new();
    b.increment(20);
    b.increment(30);
    a.merge(&b);
    assert_eq!(a.total(), 4);
    assert_eq!(a.minimum(), Some(10));
    assert_eq!(a.maximum(), Some(30));
    assert_eq!(a.percentile(5000), Some(20));
}

#[test]
fn test_empty_histogram_statistics() {
    let h = LatencyHistogram::new();
    assert_eq!(h.total(), 0);
    assert_eq!(h.minimum(), None);
    assert_eq!(h.maximum(), None);
    assert_eq!(h.percentile(5000), None);
    assert_eq!(h.mean(), None);
    assert_eq!(h.stddev(), None);
    assert_eq!(h.truncated_mean(500), 0);
}

#[test]
fn test_report_default_name() {
    let metrics = BenchRunMetrics::new();
    let report = DefaultConsoleReporter::new(None).build_report(&metrics);
    assert_eq!(report.test_case_name, Some("perf-gauge".to_string()));
    let named = DefaultConsoleReporter::new(Some("campaign".to_string())).build_report(&metrics);
    assert_eq!(named.test_case_name, Some("campaign".to_string()));
}

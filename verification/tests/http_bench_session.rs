//! The HTTP adapter's builders, request preparation and response
//! classification.

use perf_gauge::http_bench_session::{
    classify_status, HttpBenchAdapterBuilder, HttpClientConfigBuilder, HttpRequestBuilder,
};

#[test]
fn test_request_builder_defaults() {
    let request = HttpRequestBuilder::default()
        .url(vec!["http://localhost/1".to_string()])
        .build()
        .expect("a bare target is enough");
    assert_eq!(request.method, "GET");
    assert!(request.headers.is_empty());
    assert!(request.body.is_empty());
}

#[test]
fn test_request_builder_requires_a_target() {
    assert!(HttpRequestBuilder::default().build().is_err());
}

#[test]
fn test_request_builder_validates_the_method() {
    let ok = HttpRequestBuilder::default()
        .url(vec!["http://localhost/1".to_string()])
        .method("PATCH".to_string())
        .build();
    assert!(ok.is_ok());
    let custom = HttpRequestBuilder::default()
        .url(vec!["http://localhost/1".to_string()])
        .method("PURGE".to_string())
        .build();
    assert!(custom.is_ok());
    let bad = HttpRequestBuilder::default()
        .url(vec!["http://localhost/1".to_string()])
        .method("GE T".to_string())
        .build();
    assert!(bad.is_err());
    let empty = HttpRequestBuilder::default()
        .url(vec!["http://localhost/1".to_string()])
        .method(String::new())
        .build();
    assert!(empty.is_err());
}

#[test]
fn test_prepare_draws_from_the_configured_parts() {
    let request = HttpRequestBuilder::default()
        .url(vec![
            "http://localhost/1".to_string(),
            "http://localhost/2".to_string(),
        ])
        .method("PUT".to_string())
        .headers(vec![(
            "x-header".to_string(),
            vec!["value1".to_string(), "value2".to_string()],
        )])
        .body(b"abcd".to_vec())
        .build()
        .expect("request");

    for _ in 0..32 {
        let prepared = request.prepare();
        assert_eq!(prepared.method, "PUT");
        assert!(request.url.contains(&prepared.url));
        assert_eq!(prepared.headers.len(), 1);
        assert_eq!(prepared.headers[0].0, "x-header");
        assert!(request.headers[0].1.contains(&prepared.headers[0].1));
        assert_eq!(prepared.body, b"abcd".to_vec());
    }
}

#[test]
fn test_classify_status_codes() {
    let stop = vec![401, 503];
    assert_eq!(classify_status(200, &stop), (true, false));
    assert_eq!(classify_status(299, &stop), (true, false));
    assert_eq!(classify_status(300, &stop), (false, false));
    assert_eq!(classify_status(199, &stop), (false, false));
    assert_eq!(classify_status(401, &stop), (false, true));
    assert_eq!(classify_status(503, &stop), (false, true));
    let none: Vec<u16> = Vec::new();
    assert_eq!(classify_status(500, &none), (false, false));
}

#[test]
fn test_adapter_builder_requires_both_parts() {
    assert!(HttpBenchAdapterBuilder::default().build().is_err());
    let adapter = HttpBenchAdapterBuilder::default()
        .request(
            HttpRequestBuilder::default()
                .url(vec!["http://localhost/1".to_string()])
                .build()
                .unwrap(),
        )
        .config(
            HttpClientConfigBuilder::default()
                .stop_on_errors(vec![401])
                .build()
                .unwrap(),
        )
        .build()
        .expect("adapter");
    assert_eq!(adapter.config.stop_on_errors, vec![401]);
    assert!(!adapter.config.http2_only);
}

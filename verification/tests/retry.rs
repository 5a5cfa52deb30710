//! Retry decisions, server-requested delays and back-off.

use codex_chat_compat::retry::{
    backoff, backoff_for, backoff_for_at, backoff_with_jitter, max_retry_after, next_retry_step, parse_seconds_str,
    retry_after_from_err, retry_after_from_err_at, retry_after_from_headers_at, Duration, RetryOn,
    RetryPolicy, RetryStep, TransportError,
};
use http::header::{HeaderName, HeaderValue, RETRY_AFTER};
use http::{HeaderMap, StatusCode};

fn x_ratelimit_reset_after() -> HeaderName {
    HeaderName::from_static("x-ratelimit-reset-after")
}

fn x_ratelimit_reset() -> HeaderName {
    HeaderName::from_static("x-ratelimit-reset")
}

fn make_err_with_headers(headers: HeaderMap) -> TransportError {
    TransportError::Http {
        status: StatusCode::TOO_MANY_REQUESTS,
        url: None,
        headers: Some(headers),
        body: None,
    }
}

fn http_error(status: StatusCode) -> TransportError {
    TransportError::Http { status, url: None, headers: None, body: None }
}

fn now_secs() -> u64 {
    std::time::SystemTime::now()
        .duration_since(std::time::UNIX_EPOCH)
        .unwrap()
        .as_secs()
}

#[test]
fn retry_after_seconds() {
    let mut h = HeaderMap::new();
    h.insert(RETRY_AFTER, HeaderValue::from_static("5"));
    let err = make_err_with_headers(h);
    assert_eq!(retry_after_from_err(&err), Some(Duration::from_secs(5)));
}

#[test]
fn retry_after_float_seconds() {
    let mut h = HeaderMap::new();
    h.insert(RETRY_AFTER, HeaderValue::from_static("2.5"));
    let err = make_err_with_headers(h);
    assert_eq!(retry_after_from_err(&err), Some(Duration::from_secs(3)));
}

#[test]
fn ratelimit_reset_after() {
    let mut h = HeaderMap::new();
    h.insert(x_ratelimit_reset_after(), HeaderValue::from_static("12"));
    let err = make_err_with_headers(h);
    assert_eq!(retry_after_from_err(&err), Some(Duration::from_secs(12)));
}

#[test]
fn ratelimit_reset_unix() {
    let future = now_secs() + 30;
    let mut h = HeaderMap::new();
    h.insert(x_ratelimit_reset(), HeaderValue::from_str(&future.to_string()).unwrap());
    let err = make_err_with_headers(h);
    let d = retry_after_from_err(&err).unwrap();
    // Allow 1s slop for the time it took to run the test
    assert!(d.as_secs() >= 28 && d.as_secs() <= 30);
}

#[test]
fn no_headers_falls_back() {
    let err = make_err_with_headers(HeaderMap::new());
    assert_eq!(retry_after_from_err(&err), None);
}

#[test]
fn non_http_error_returns_none() {
    let err = TransportError::Timeout;
    assert_eq!(retry_after_from_err(&err), None);
}

#[test]
fn backoff_caps_at_max() {
    // Very large attempt count - ensure we never exceed the cap
    let d = backoff(Duration::from_secs(10), 30);
    assert!(d <= max_retry_after());
}

#[test]
fn seconds_text_forms() {
    assert_eq!(parse_seconds_str("5"), Some(5));
    assert_eq!(parse_seconds_str("+5"), Some(5));
    assert_eq!(parse_seconds_str("2.5"), Some(3));
    assert_eq!(parse_seconds_str("2.0"), Some(2));
    assert_eq!(parse_seconds_str("0.0001"), Some(1));
    assert_eq!(parse_seconds_str(".5"), Some(1));
    assert_eq!(parse_seconds_str("5."), Some(5));
    assert_eq!(parse_seconds_str("1.5e1"), Some(15));
    assert_eq!(parse_seconds_str("1E3"), Some(1000));
    assert_eq!(parse_seconds_str("25e-1"), Some(3));
    assert_eq!(parse_seconds_str("0"), Some(0));
    assert_eq!(parse_seconds_str("99999999999999999999999"), Some(u64::MAX));
    assert_eq!(parse_seconds_str("1e400"), None);
}

#[test]
fn seconds_text_refused() {
    assert_eq!(parse_seconds_str(""), None);
    assert_eq!(parse_seconds_str("-1"), None);
    assert_eq!(parse_seconds_str("-0"), None);
    assert_eq!(parse_seconds_str("inf"), None);
    assert_eq!(parse_seconds_str("NaN"), None);
    assert_eq!(parse_seconds_str("12abc"), None);
    assert_eq!(parse_seconds_str("."), None);
    assert_eq!(parse_seconds_str("1e"), None);
    assert_eq!(parse_seconds_str("e5"), None);
}

#[test]
fn retry_after_is_trimmed() {
    let mut h = HeaderMap::new();
    h.insert(RETRY_AFTER, HeaderValue::from_static(" \t7 "));
    assert_eq!(retry_after_from_headers_at(&h, None), Some(Duration::from_secs(7)));
}

#[test]
fn retry_after_http_date_in_future() {
    // Sun, 06 Nov 1994 08:49:37 GMT is 784111777 seconds after the epoch.
    let mut h = HeaderMap::new();
    h.insert(RETRY_AFTER, HeaderValue::from_static("Sun, 06 Nov 1994 08:49:37 GMT"));
    let now = Duration::new(784111770, 500_000_000);
    assert_eq!(retry_after_from_headers_at(&h, Some(now)), Some(Duration::new(6, 500_000_000)));
}

#[test]
fn retry_after_http_date_in_past_falls_through() {
    let mut h = HeaderMap::new();
    h.insert(RETRY_AFTER, HeaderValue::from_static("Sun, 06 Nov 1994 08:49:37 GMT"));
    h.insert(x_ratelimit_reset_after(), HeaderValue::from_static("4"));
    let now = Duration::from_secs(784111800);
    assert_eq!(retry_after_from_headers_at(&h, Some(now)), Some(Duration::from_secs(4)));
}

#[test]
fn retry_after_garbage_falls_through() {
    let mut h = HeaderMap::new();
    h.insert(RETRY_AFTER, HeaderValue::from_static("soon"));
    h.insert(x_ratelimit_reset_after(), HeaderValue::from_static("1.2"));
    assert_eq!(retry_after_from_headers_at(&h, None), Some(Duration::from_secs(2)));
}

#[test]
fn ratelimit_reset_in_past_is_zero() {
    let mut h = HeaderMap::new();
    h.insert(x_ratelimit_reset(), HeaderValue::from_static("100"));
    assert_eq!(retry_after_from_headers_at(&h, Some(Duration::from_secs(200))), Some(Duration::zero()));
    assert_eq!(retry_after_from_headers_at(&h, None), None);
}

#[test]
fn ratelimit_reset_takes_whole_numbers_only() {
    let mut h = HeaderMap::new();
    h.insert(x_ratelimit_reset(), HeaderValue::from_static("300.5"));
    assert_eq!(retry_after_from_headers_at(&h, Some(Duration::from_secs(200))), None);
}

#[test]
fn retry_after_first_value_wins() {
    let mut h = HeaderMap::new();
    h.append(RETRY_AFTER, HeaderValue::from_static("9"));
    h.append(RETRY_AFTER, HeaderValue::from_static("1"));
    assert_eq!(retry_after_from_headers_at(&h, None), Some(Duration::from_secs(9)));
}

#[test]
fn error_without_headers_asks_for_nothing() {
    let err = http_error(StatusCode::TOO_MANY_REQUESTS);
    assert_eq!(retry_after_from_err_at(&err, Some(Duration::from_secs(1))), None);
}

#[test]
fn should_retry_rules() {
    let all = RetryOn { retry_429: true, retry_5xx: true, retry_transport: true };
    let none = RetryOn { retry_429: false, retry_5xx: false, retry_transport: false };
    assert!(all.should_retry(&http_error(StatusCode::TOO_MANY_REQUESTS), 0, 3));
    assert!(all.should_retry(&http_error(StatusCode::INTERNAL_SERVER_ERROR), 0, 3));
    assert!(all.should_retry(&http_error(StatusCode::from_u16(599).unwrap()), 2, 3));
    assert!(!all.should_retry(&http_error(StatusCode::BAD_REQUEST), 0, 3));
    assert!(!all.should_retry(&http_error(StatusCode::from_u16(600).unwrap()), 0, 3));
    assert!(all.should_retry(&TransportError::Timeout, 0, 3));
    assert!(all.should_retry(&TransportError::Network("reset".to_string()), 0, 3));
    assert!(!all.should_retry(&TransportError::Build("bad".to_string()), 0, 3));
    assert!(!all.should_retry(&TransportError::RetryLimit, 0, 3));
    assert!(!all.should_retry(&TransportError::Timeout, 3, 3));
    assert!(!none.should_retry(&http_error(StatusCode::TOO_MANY_REQUESTS), 0, 3));
    assert!(!none.should_retry(&TransportError::Timeout, 0, 3));
}

#[test]
fn backoff_exact_values() {
    let base = Duration::from_millis(200);
    assert_eq!(backoff_with_jitter(base, 0, 1_000_000), base);
    assert_eq!(backoff_with_jitter(base, 1, 1_000_000), Duration::from_millis(200));
    assert_eq!(backoff_with_jitter(base, 2, 1_000_000), Duration::from_millis(400));
    assert_eq!(backoff_with_jitter(base, 3, 900_000), Duration::from_millis(720));
    assert_eq!(backoff_with_jitter(base, 3, 1_099_999), Duration::from_millis(879));
    assert_eq!(backoff_with_jitter(base, 20, 1_000_000), max_retry_after());
}

#[test]
fn backoff_stays_in_jitter_band() {
    let d = backoff(Duration::from_millis(1000), 2);
    assert!(d >= Duration::from_millis(1800) && d < Duration::from_millis(2200));
}

#[test]
fn backoff_for_caps_server_delay() {
    let mut h = HeaderMap::new();
    h.insert(RETRY_AFTER, HeaderValue::from_static("3600"));
    let err = make_err_with_headers(h);
    assert_eq!(backoff_for_at(Duration::from_millis(100), 1, &err, None, 1_000_000), max_retry_after());
    let mut h = HeaderMap::new();
    h.insert(RETRY_AFTER, HeaderValue::from_static("2"));
    let err = make_err_with_headers(h);
    assert_eq!(backoff_for_at(Duration::from_millis(100), 1, &err, None, 1_000_000), Duration::from_secs(2));
    let err = TransportError::Timeout;
    assert_eq!(backoff_for_at(Duration::from_millis(100), 2, &err, None, 1_000_000), Duration::from_millis(200));
}

#[test]
fn retry_step_decisions() {
    let policy = RetryPolicy {
        max_attempts: 2,
        base_delay: Duration::from_millis(100),
        retry_on: RetryOn { retry_429: true, retry_5xx: false, retry_transport: false },
    };
    match next_retry_step(&policy, 0, http_error(StatusCode::TOO_MANY_REQUESTS)) {
        RetryStep::Wait(d) => assert!(d >= Duration::from_millis(90) && d < Duration::from_millis(110)),
        RetryStep::Fail(e) => panic!("expected a retry, got {e:?}"),
    }
    assert!(matches!(
        next_retry_step(&policy, 2, http_error(StatusCode::TOO_MANY_REQUESTS)),
        RetryStep::Fail(TransportError::Http { .. })
    ));
    assert!(matches!(next_retry_step(&policy, 0, TransportError::Timeout), RetryStep::Fail(TransportError::Timeout)));
}

#[test]
fn duration_parts() {
    let d = Duration::new(3, 1_500_000_000);
    assert_eq!(d.as_secs(), 4);
    assert_eq!(d.subsec_nanos(), 500_000_000);
    assert_eq!(d.as_millis(), 4500);
    assert_eq!(Duration::from_millis(1234).as_nanos(), 1_234_000_000);
}

#[test]
fn retry_after_seconds_ignore_the_clock() {
    let mut h = HeaderMap::new();
    h.insert(RETRY_AFTER, HeaderValue::from_static("5"));
    for now in [None, Some(Duration::zero()), Some(Duration::from_secs(1_000_000_000))] {
        assert_eq!(retry_after_from_headers_at(&h, now), Some(Duration::from_secs(5)));
    }
}

#[test]
fn only_429_waits_for_the_headers() {
    let mut h = HeaderMap::new();
    h.insert(RETRY_AFTER, HeaderValue::from_static("5"));
    let err = TransportError::Http {
        status: StatusCode::SERVICE_UNAVAILABLE,
        url: None,
        headers: Some(h),
        body: None,
    };
    assert_eq!(retry_after_from_err(&err), Some(Duration::from_secs(5)));
    assert_eq!(retry_after_from_err_at(&err, None), Some(Duration::from_secs(5)));
    assert_eq!(backoff_for_at(Duration::from_millis(100), 2, &err, None, 1_000_000), Duration::from_millis(200));
    let mut h = HeaderMap::new();
    h.insert(RETRY_AFTER, HeaderValue::from_static("5"));
    let err = make_err_with_headers(h);
    assert_eq!(backoff_for_at(Duration::from_millis(100), 2, &err, None, 1_000_000), Duration::from_secs(5));
}

#[test]
fn server_delay_needs_no_backoff_attempt() {
    let mut h = HeaderMap::new();
    h.insert(x_ratelimit_reset_after(), HeaderValue::from_static("7"));
    let err = make_err_with_headers(h);
    assert_eq!(backoff_for(Duration::from_millis(100), 1 << 32, &err), Duration::from_secs(7));
    assert_eq!(backoff_for_at(Duration::from_millis(100), 1 << 32, &err, None, 1_000_000), Duration::from_secs(7));
}

#[test]
fn seconds_text_read_as_doubles() {
    assert_eq!(parse_seconds_str("2.0000000000000000001"), Some(2));
    assert_eq!(parse_seconds_str("1.0000000000000001"), Some(1));
    assert_eq!(parse_seconds_str("1.0000000000000003"), Some(2));
    assert_eq!(parse_seconds_str("9007199254740993.0"), Some(9007199254740992));
    assert_eq!(parse_seconds_str("4503599627370496.5"), Some(4503599627370496));
    assert_eq!(parse_seconds_str("4503599627370497.5"), Some(4503599627370498));
    assert_eq!(parse_seconds_str("18446744073709551615.5"), Some(u64::MAX));
    assert_eq!(parse_seconds_str("9e308"), None);
    assert_eq!(parse_seconds_str("1.7976931348623158e308"), Some(u64::MAX));
    assert_eq!(parse_seconds_str("1.7976931348623159e308"), None);
    assert_eq!(parse_seconds_str("4e-324"), Some(1));
    assert_eq!(parse_seconds_str("2e-324"), Some(0));
    assert_eq!(parse_seconds_str("1e-400"), Some(0));
    assert_eq!(parse_seconds_str("0.000e99999999999999999999"), Some(0));
    assert_eq!(parse_seconds_str("1e99999999999999999999"), None);
}

#[test]
fn jitter_reaches_single_milliseconds() {
    let base = Duration::from_millis(2500);
    assert_eq!(backoff_with_jitter(base, 3, 900_100), Duration::from_millis(9001));
    assert_eq!(backoff_with_jitter(base, 3, 1_099_950), Duration::from_millis(10999));
}

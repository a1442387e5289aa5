use reqwest::header::{HeaderMap, HeaderName, HeaderValue};
use reqwest::StatusCode;
use snow_devil::retry::{
    backoff_secs, now_unix, parse_header_number, read_retry_signals, retry_delay_for,
    retry_delay_secs, transport_retry_delay, RetrySignals, MAX_BACKOFF_SECS, MAX_RETRIES,
};
use std::time::Duration;

fn headers(pairs: &[(&str, &str)]) -> HeaderMap {
    let mut map = HeaderMap::new();
    for (name, value) in pairs {
        map.insert(
            HeaderName::from_bytes(name.as_bytes()).unwrap(),
            HeaderValue::from_str(value).unwrap(),
        );
    }
    map
}

#[test]
fn honours_retry_after_on_secondary_rate_limit() {
    let delay = retry_delay_for(
        StatusCode::TOO_MANY_REQUESTS.as_u16(),
        &headers(&[("retry-after", "5")]),
        0,
        1_000,
    );
    assert_eq!(delay, Some(Duration::from_secs(5)));
}

#[test]
fn uses_reset_window_on_primary_rate_limit() {
    let delay = retry_delay_for(
        StatusCode::FORBIDDEN.as_u16(),
        &headers(&[
            ("x-ratelimit-remaining", "0"),
            ("x-ratelimit-reset", "1030"),
        ]),
        0,
        1_000,
    );
    assert_eq!(delay, Some(Duration::from_secs(30)));
}

#[test]
fn does_not_retry_plain_permission_forbidden() {
    let delay = retry_delay_for(StatusCode::FORBIDDEN.as_u16(), &HeaderMap::new(), 0, 1_000);
    assert_eq!(delay, None);
}

#[test]
fn retries_server_errors_with_exponential_backoff() {
    assert_eq!(
        retry_delay_for(StatusCode::INTERNAL_SERVER_ERROR.as_u16(), &HeaderMap::new(), 0, 0),
        Some(Duration::from_secs(1))
    );
    assert_eq!(
        retry_delay_for(StatusCode::BAD_GATEWAY.as_u16(), &HeaderMap::new(), 2, 0),
        Some(Duration::from_secs(4))
    );
}

#[test]
fn stops_after_max_retries() {
    let delay = retry_delay_for(
        StatusCode::TOO_MANY_REQUESTS.as_u16(),
        &headers(&[("retry-after", "5")]),
        MAX_RETRIES,
        1_000,
    );
    assert_eq!(delay, None);
}

#[test]
fn clamps_delay_bounds() {
    // A reset already in the past clamps up to the 1s floor.
    assert_eq!(
        retry_delay_for(
            StatusCode::FORBIDDEN.as_u16(),
            &headers(&[("x-ratelimit-remaining", "0"), ("x-ratelimit-reset", "10")]),
            0,
            1_000,
        ),
        Some(Duration::from_secs(1))
    );
    // A very large retry-after clamps down to the ceiling.
    assert_eq!(
        retry_delay_for(
            StatusCode::TOO_MANY_REQUESTS.as_u16(),
            &headers(&[("retry-after", "999")]),
            0,
            1_000,
        ),
        Some(Duration::from_secs(MAX_BACKOFF_SECS))
    );
}

#[test]
fn does_not_retry_success() {
    assert_eq!(
        retry_delay_for(StatusCode::OK.as_u16(), &HeaderMap::new(), 0, 0),
        None
    );
}

#[test]
fn backoff_doubles_up_to_sixty_four_seconds() {
    let waits: Vec<u64> = (0..9).map(backoff_secs).collect();
    assert_eq!(waits, vec![1, 2, 4, 8, 16, 32, 64, 64, 64]);
}

#[test]
fn backoff_is_clamped_to_the_ceiling_for_server_errors() {
    // attempt 3 backs off 8s; a server error never waits past the ceiling.
    assert_eq!(
        retry_delay_for(503, &HeaderMap::new(), 3, 0),
        Some(Duration::from_secs(8))
    );
}

#[test]
fn forbidden_with_retry_after_is_a_secondary_rate_limit() {
    // An unparseable retry-after still marks the rate limit; the wait then
    // falls back to backoff.
    assert_eq!(
        retry_delay_for(403, &headers(&[("retry-after", "soon")]), 1, 0),
        Some(Duration::from_secs(2))
    );
    // remaining > 0 without retry-after is a plain permission failure.
    assert_eq!(
        retry_delay_for(403, &headers(&[("x-ratelimit-remaining", "12")]), 0, 0),
        None
    );
}

#[test]
fn header_numbers_follow_trim_and_unsigned_parsing() {
    assert_eq!(parse_header_number(b"30"), Some(30));
    assert_eq!(parse_header_number(b"  42\t"), Some(42));
    assert_eq!(parse_header_number(b"+7"), Some(7));
    assert_eq!(parse_header_number(b"0005"), Some(5));
    assert_eq!(parse_header_number(b"18446744073709551615"), Some(u64::MAX));
    assert_eq!(parse_header_number(b"18446744073709551616"), None);
    assert_eq!(parse_header_number(b"-1"), None);
    assert_eq!(parse_header_number(b"+"), None);
    assert_eq!(parse_header_number(b""), None);
    assert_eq!(parse_header_number(b"   "), None);
    assert_eq!(parse_header_number(b"1 2"), None);
    assert_eq!(parse_header_number(&[0x31, 0x80]), None);
}

#[test]
fn signals_are_read_from_lower_case_header_names() {
    let map = headers(&[
        ("Retry-After", "9"),
        ("X-RateLimit-Remaining", "0"),
        ("X-RateLimit-Reset", "100"),
    ]);
    let signals = read_retry_signals(&map);
    assert!(signals.retry_after_present);
    assert_eq!(signals.retry_after_secs, Some(9));
    assert_eq!(signals.rate_limit_remaining, Some(0));
    assert_eq!(signals.rate_limit_reset, Some(100));
}

#[test]
fn reset_window_is_measured_from_now() {
    let signals = RetrySignals {
        retry_after_present: false,
        retry_after_secs: None,
        rate_limit_remaining: Some(0),
        rate_limit_reset: Some(1_045),
    };
    assert_eq!(retry_delay_secs(429, &signals, 1, 1_000), Some(45));
    assert_eq!(retry_delay_secs(429, &signals, 1, 2_000), Some(1));
    assert_eq!(retry_delay_secs(404, &signals, 1, 1_000), None);
}

#[test]
fn transport_failures_back_off_while_retries_remain() {
    assert_eq!(transport_retry_delay(true, 0), Some(Duration::from_secs(1)));
    assert_eq!(transport_retry_delay(true, 3), Some(Duration::from_secs(8)));
    assert_eq!(transport_retry_delay(true, MAX_RETRIES), None);
    assert_eq!(transport_retry_delay(false, 0), None);
}

#[test]
fn clock_reads_after_the_epoch() {
    assert!(now_unix() > 1_600_000_000);
}

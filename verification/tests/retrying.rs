use std::time::{Duration, SystemTime};

use alibabacloud::retry::{
    backoff_delay, parse_retry_after, retry_after_hint, should_retry_status, RetryPolicy,
};

fn unix_now_secs() -> u64 {
    SystemTime::now()
        .duration_since(SystemTime::UNIX_EPOCH)
        .unwrap()
        .as_secs()
}

#[test]
fn retry_statuses_are_conservative() {
    assert!(should_retry_status(429));
    assert!(should_retry_status(502));
    assert!(should_retry_status(503));
    assert!(should_retry_status(504));
    assert!(!should_retry_status(400));
}

#[test]
fn retry_after_seconds_is_parsed() {
    let headers = vec![("Retry-After".to_owned(), "3".to_owned())];
    assert_eq!(parse_retry_after(&headers), Some(3000));
}

#[test]
fn retry_after_http_date_is_parsed() {
    let now = SystemTime::now();
    let target = now + Duration::from_secs(2);
    let date = httpdate::fmt_http_date(target);

    let headers = vec![("Retry-After".to_owned(), date)];

    let delay = parse_retry_after(&headers).unwrap();
    assert!(delay <= 2000);
}

#[test]
fn backoff_is_capped() {
    let policy = RetryPolicy {
        max_retries: 3,
        base_delay_ms: 50,
        max_delay_ms: 200,
    };

    for attempt in 0..10 {
        let delay = backoff_delay(&policy, attempt);
        assert!(delay <= policy.max_delay_ms);
    }
}

#[test]
fn retry_after_hint_reads_integer_seconds() {
    let now = unix_now_secs();
    assert_eq!(retry_after_hint("3", now), Some(3000));
    assert_eq!(retry_after_hint(" 7 ", now), Some(7000));
    assert_eq!(retry_after_hint("soon", now), None);
}

#[test]
fn retry_after_hint_reads_http_dates_against_the_clock() {
    let now = unix_now_secs();
    let target = SystemTime::UNIX_EPOCH + Duration::from_secs(now + 5);
    let date = httpdate::fmt_http_date(target);
    assert_eq!(retry_after_hint(&date, now), Some(5000));

    let past = SystemTime::UNIX_EPOCH + Duration::from_secs(now - 5);
    let past_date = httpdate::fmt_http_date(past);
    assert_eq!(retry_after_hint(&past_date, now), None);
}

#[test]
fn missing_retry_after_header_yields_no_hint() {
    let headers = vec![("content-type".to_owned(), "application/json".to_owned())];
    assert_eq!(parse_retry_after(&headers), None);
}

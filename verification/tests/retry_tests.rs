use ghlinks::retry::{
    backoff_delay, backoff_delay_with, decide_after_attempt_with, proactive_wait_secs,
    proactive_wait_secs_at, retry_delay, retry_delay_with, should_retry, AttemptOutcome, Delay,
    HeaderField, ResponseHeaders, RetryDecision,
};
use std::time::{SystemTime, UNIX_EPOCH};

const TOO_MANY_REQUESTS: u16 = 429;
const BAD_GATEWAY: u16 = 502;
const SERVICE_UNAVAILABLE: u16 = 503;
const NOT_FOUND: u16 = 404;
const OK: u16 = 200;
const FORBIDDEN: u16 = 403;

fn text(s: &str) -> HeaderField {
    HeaderField::Text(s.to_string())
}

#[test]
fn retryable_statuses_are_identified_correctly() {
    let empty = ResponseHeaders::none();
    assert!(should_retry(TOO_MANY_REQUESTS, &empty, 1, 3));
    assert!(should_retry(BAD_GATEWAY, &empty, 1, 3));
    assert!(should_retry(SERVICE_UNAVAILABLE, &empty, 1, 3));
    assert!(!should_retry(NOT_FOUND, &empty, 1, 3));
    assert!(!should_retry(OK, &empty, 1, 3));
}

#[test]
fn plain_forbidden_with_no_rate_limit_signal_is_not_retried() {
    let empty = ResponseHeaders::none();
    assert!(!should_retry(FORBIDDEN, &empty, 1, 3));
}

#[test]
fn forbidden_is_retried_when_it_carries_a_rate_limit_signal() {
    let mut with_retry_after = ResponseHeaders::none();
    with_retry_after.retry_after = text("5");
    assert!(should_retry(FORBIDDEN, &with_retry_after, 1, 3));

    let mut exhausted = ResponseHeaders::none();
    exhausted.ratelimit_remaining = text("0");
    assert!(should_retry(FORBIDDEN, &exhausted, 1, 3));
}

#[test]
fn retries_stop_once_max_attempts_reached() {
    let empty = ResponseHeaders::none();
    assert!(!should_retry(TOO_MANY_REQUESTS, &empty, 3, 3));
    assert!(!should_retry(BAD_GATEWAY, &empty, 5, 3));
}

#[test]
fn backoff_delay_grows_with_attempt_number() {
    assert!(backoff_delay(3).millis >= backoff_delay(1).millis);
    assert!(backoff_delay(6).millis >= backoff_delay(3).millis);
}

#[test]
fn backoff_delay_growth_is_capped_so_it_cannot_overflow() {
    let d = backoff_delay(1000);
    assert!(d.millis / 1000 < 3600);
}

#[test]
fn retry_after_header_is_honored_over_backoff() {
    let mut headers = ResponseHeaders::none();
    headers.retry_after = text("42");
    assert_eq!(retry_delay(&headers, 1), Delay { millis: 42_000 });
}

#[test]
fn proactive_wait_is_none_when_headers_absent_or_remaining_healthy() {
    assert_eq!(proactive_wait_secs(None, None, 2, 900), None);
    assert_eq!(
        proactive_wait_secs(Some(500), Some(1_900_000_000), 2, 900),
        None
    );
}

#[test]
fn proactive_wait_is_capped_at_max_wait_secs() {
    let far_future = SystemTime::now()
        .duration_since(UNIX_EPOCH)
        .unwrap()
        .as_secs() as i64
        + 10_000;
    let wait = proactive_wait_secs(Some(0), Some(far_future), 2, 900).unwrap();
    assert!(wait <= 900);
}

#[test]
fn proactive_wait_is_none_when_reset_already_passed() {
    let past = SystemTime::now()
        .duration_since(UNIX_EPOCH)
        .unwrap()
        .as_secs() as i64
        - 10;
    assert_eq!(proactive_wait_secs(Some(0), Some(past), 2, 900), None);
}

// ---- further cases -------------------------------------------------------

#[test]
fn backoff_doubles_per_attempt_and_stops_growing_at_the_seventh() {
    assert_eq!(backoff_delay_with(0, 0).millis, 500);
    assert_eq!(backoff_delay_with(1, 0).millis, 500);
    assert_eq!(backoff_delay_with(2, 0).millis, 1_000);
    assert_eq!(backoff_delay_with(3, 0).millis, 2_000);
    assert_eq!(backoff_delay_with(7, 0).millis, 32_000);
    assert_eq!(backoff_delay_with(8, 0).millis, 32_000);
    assert_eq!(backoff_delay_with(u32::MAX, 0).millis, 32_000);
}

#[test]
fn jitter_is_the_clock_milliseconds_modulo_250() {
    assert_eq!(backoff_delay_with(1, 249).millis, 749);
    assert_eq!(backoff_delay_with(1, 250).millis, 500);
    assert_eq!(backoff_delay_with(2, 999).millis, 1_249);
}

#[test]
fn clock_jitter_stays_below_250_ms() {
    for attempt in 1..10u32 {
        let base = backoff_delay_with(attempt, 0).millis;
        let d = backoff_delay(attempt).millis;
        assert!(d >= base && d < base + 250);
    }
}

#[test]
fn a_retry_after_that_is_not_a_number_falls_back_to_backoff() {
    let mut headers = ResponseHeaders::none();
    headers.retry_after = text("Wed, 21 Oct 2015 07:28:00 GMT");
    assert_eq!(retry_delay_with(&headers, 2, 10), Delay { millis: 1_010 });
    headers.retry_after = HeaderField::Opaque;
    assert_eq!(retry_delay_with(&headers, 1, 0), Delay { millis: 500 });
    headers.retry_after = text("+7");
    assert_eq!(retry_delay_with(&headers, 1, 0), Delay { millis: 7_000 });
}

#[test]
fn forbidden_with_remaining_calls_or_garbled_remaining_is_not_retried() {
    let mut headers = ResponseHeaders::none();
    headers.ratelimit_remaining = text("12");
    assert!(!should_retry(FORBIDDEN, &headers, 1, 3));
    headers.ratelimit_remaining = text("zero");
    assert!(!should_retry(FORBIDDEN, &headers, 1, 3));
    headers.ratelimit_remaining = text("-0");
    assert!(should_retry(FORBIDDEN, &headers, 1, 3));
    headers.ratelimit_remaining = HeaderField::Absent;
    headers.retry_after = HeaderField::Opaque;
    assert!(should_retry(FORBIDDEN, &headers, 1, 3));
}

#[test]
fn every_5xx_is_retried_below_the_budget() {
    let empty = ResponseHeaders::none();
    assert!(should_retry(500, &empty, 1, 2));
    assert!(should_retry(599, &empty, 1, 2));
    assert!(!should_retry(600, &empty, 1, 2));
    assert!(!should_retry(499, &empty, 1, 2));
}

#[test]
fn loop_decisions_follow_the_policy() {
    let transport = AttemptOutcome::TransportError;
    assert_eq!(
        decide_after_attempt_with(1, 3, &transport, 100),
        RetryDecision::Retry(Delay { millis: 600 })
    );
    assert_eq!(decide_after_attempt_with(3, 3, &transport, 100), RetryDecision::GiveUp);

    let busy = AttemptOutcome::Response { status: 503, headers: ResponseHeaders::none() };
    assert_eq!(
        decide_after_attempt_with(2, 3, &busy, 0),
        RetryDecision::Retry(Delay { millis: 1_000 })
    );
    assert_eq!(decide_after_attempt_with(3, 3, &busy, 0), RetryDecision::Accept);

    let missing = AttemptOutcome::Response { status: 404, headers: ResponseHeaders::none() };
    assert_eq!(decide_after_attempt_with(1, 3, &missing, 0), RetryDecision::Accept);

    let mut limited_headers = ResponseHeaders::none();
    limited_headers.retry_after = text("3");
    let limited = AttemptOutcome::Response { status: 429, headers: limited_headers };
    assert_eq!(
        decide_after_attempt_with(1, 3, &limited, 0),
        RetryDecision::Retry(Delay { millis: 3_000 })
    );
}

#[test]
fn proactive_wait_with_a_given_clock_is_exact() {
    assert_eq!(proactive_wait_secs_at(Some(2), Some(1_000), 2, 900, 400), Some(600));
    assert_eq!(proactive_wait_secs_at(Some(1), Some(5_000), 2, 900, 400), Some(900));
    assert_eq!(proactive_wait_secs_at(Some(3), Some(1_000), 2, 900, 400), None);
    assert_eq!(proactive_wait_secs_at(Some(0), Some(400), 2, 900, 400), None);
    assert_eq!(proactive_wait_secs_at(Some(0), None, 2, 900, 400), None);
    assert_eq!(proactive_wait_secs_at(Some(0), Some(i64::MIN), 2, 900, i64::MAX), None);
}

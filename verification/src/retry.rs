//! Retry and backoff decisions shared by the GitHub client and Hacker News
//! discovery. The policy (what to retry, how long to wait) is decided here,
//! over plain values; the mechanism (sending requests, sleeping) belongs to
//! whoever runs the request loop.
//!
//! Jitter and the proactive rate-limit pause read the system clock. Each of
//! them comes in two forms: one that takes the clock reading as an argument
//! and states its result exactly, and one that reads the clock itself.

use vstd::prelude::*;

use crate::text::{parse_i64, parse_i64_spec, parse_u64, parse_u64_spec};

verus! {

/// One response header as the retry logic sees it.
#[derive(Debug)]
pub enum HeaderField {
    /// The response does not carry the header.
    Absent,
    /// The header is present but its value is not visible ASCII text.
    Opaque,
    /// The header's (first) value, as text.
    Text(String),
}

impl HeaderField {
    /// The header's text, where it has text.
    pub open spec fn text(self) -> Option<Seq<char>> {
        match self {
            HeaderField::Text(t) => Some(t@),
            _ => None,
        }
    }

    /// Whether the response carries the header at all.
    pub open spec fn is_present(self) -> bool {
        !(self is Absent)
    }
}

/// The response headers that retry, throttling and pagination read.
#[derive(Debug)]
pub struct ResponseHeaders {
    pub retry_after: HeaderField,
    pub ratelimit_remaining: HeaderField,
    pub ratelimit_reset: HeaderField,
    pub link: HeaderField,
}

impl ResponseHeaders {
    /// Headers of a response that carries none of them.
    pub fn none() -> (h: ResponseHeaders)
        ensures
            h.retry_after is Absent,
            h.ratelimit_remaining is Absent,
            h.ratelimit_reset is Absent,
            h.link is Absent,
    {
        ResponseHeaders {
            retry_after: HeaderField::Absent,
            ratelimit_remaining: HeaderField::Absent,
            ratelimit_reset: HeaderField::Absent,
            link: HeaderField::Absent,
        }
    }
}

/// A header's value read as an `i64` (`None`: absent, not text, or not a
/// number).
pub open spec fn header_i64(h: HeaderField) -> Option<i64> {
    match h.text() {
        Some(t) => parse_i64_spec(t),
        None => None,
    }
}

/// A header's value read as a `u64`.
pub open spec fn header_u64(h: HeaderField) -> Option<u64> {
    match h.text() {
        Some(t) => parse_u64_spec(t),
        None => None,
    }
}

/// Reads a header as `i64` the way `str::parse::<i64>` does.
pub fn header_as_i64(h: &HeaderField) -> (r: Option<i64>)
    ensures
        r == header_i64(*h),
{
    match h {
        HeaderField::Text(t) => parse_i64(t.as_str()),
        _ => None,
    }
}

/// Reads a header as `u64` the way `str::parse::<u64>` does.
pub fn header_as_u64(h: &HeaderField) -> (r: Option<u64>)
    ensures
        r == header_u64(*h),
{
    match h {
        HeaderField::Text(t) => parse_u64(t.as_str()),
        _ => None,
    }
}

pub const STATUS_FORBIDDEN: u16 = 403;

pub const STATUS_NOT_FOUND: u16 = 404;

pub const STATUS_TOO_MANY_REQUESTS: u16 = 429;

/// `StatusCode::is_success`.
pub open spec fn is_success(status: u16) -> bool {
    200 <= status && status < 300
}

/// `StatusCode::is_server_error`.
pub open spec fn is_server_error(status: u16) -> bool {
    500 <= status && status < 600
}

pub fn status_is_success(status: u16) -> (r: bool)
    ensures
        r == is_success(status),
{
    200 <= status && status < 300
}

/// Whether a 403 carries a rate-limit signal: a `Retry-After` header
/// (secondary limit) or `X-RateLimit-Remaining: 0` (primary limit).
pub open spec fn rate_limit_signal(headers: ResponseHeaders) -> bool {
    headers.retry_after.is_present() || header_i64(headers.ratelimit_remaining) == Some(0i64)
}

/// Whether a response is worth retrying, given how many attempts have
/// already been made (`attempt` is the 1-based number of the attempt that
/// just happened). Nothing is retried once `attempt` reaches
/// `max_retries`; below that, 429, 5xx, and a 403 with a rate-limit signal
/// are retried. A plain 403 is a permission error and is not.
pub fn should_retry(status: u16, headers: &ResponseHeaders, attempt: u32, max_retries: u32) -> (r:
    bool)
    ensures
        r == (attempt < max_retries && (status == 429 || (status == 403 && rate_limit_signal(
            *headers,
        )) || is_server_error(status))),
{
    if attempt >= max_retries {
        return false;
    }
    if status == STATUS_TOO_MANY_REQUESTS {
        return true;
    }
    if status == STATUS_FORBIDDEN {
        let secondary_limit_signal = match headers.retry_after {
            HeaderField::Absent => false,
            _ => true,
        };
        let primary_limit_exhausted = match header_as_i64(&headers.ratelimit_remaining) {
            Some(remaining) => remaining == 0,
            None => false,
        };
        return secondary_limit_signal || primary_limit_exhausted;
    }
    500 <= status && status < 600
}

/// A length of time to wait, in milliseconds.
#[derive(Debug, Clone, Copy, PartialEq, Eq)]
pub struct Delay {
    pub millis: u128,
}

/// `2^e`.
pub open spec fn doubling(e: nat) -> nat
    decreases e,
{
    if e == 0 {
        1
    } else {
        2 * doubling((e - 1) as nat)
    }
}

/// The exponent of the backoff for an attempt: one less than the attempt
/// (never below zero), at most 6.
pub open spec fn backoff_exponent(attempt: u32) -> nat {
    let e: int = if attempt == 0 { 0 } else { attempt - 1 };
    if e > 6 { 6 } else { e as nat }
}

/// The backoff before jitter: 500 ms doubled once per earlier attempt,
/// growing no further after the seventh.
pub open spec fn backoff_base_millis(attempt: u32) -> nat {
    500 * doubling(backoff_exponent(attempt))
}

/// The jitter that a clock reading of `subsec_millis` milliseconds past the
/// second adds: below 250 ms.
pub open spec fn jitter_millis(subsec_millis: u64) -> nat {
    (subsec_millis % 250) as nat
}

/// The exponential backoff for `attempt`, with the jitter taken from a
/// clock reading `subsec_millis`.
pub fn backoff_delay_with(attempt: u32, subsec_millis: u64) -> (d: Delay)
    ensures
        d.millis == backoff_base_millis(attempt) + jitter_millis(subsec_millis),
{
    let exponent: u32 = if attempt == 0 {
        0
    } else if attempt - 1 > 6 {
        6
    } else {
        attempt - 1
    };
    let mut factor: u64 = 1;
    let mut i: u32 = 0;
    while i < exponent
        invariant
            exponent <= 6,
            i <= exponent,
            factor == doubling(i as nat),
            factor <= 64,
        decreases exponent - i,
    {
        proof {
            assert(doubling((i + 1) as nat) == 2 * doubling(i as nat));
            assert(i < 6);
            lemma_doubling_bound(i as nat);
        }
        factor = factor * 2;
        i = i + 1;
    }
    assert(exponent == backoff_exponent(attempt));
    let scaled: u64 = 500 * factor;
    let jitter: u64 = subsec_millis % 250;
    Delay { millis: (scaled + jitter) as u128 }
}

proof fn lemma_doubling_bound(e: nat)
    requires
        e < 6,
    ensures
        doubling(e + 1) <= 64,
    decreases e,
{
    reveal_with_fuel(doubling, 7);
    if e > 0 {
        lemma_doubling_bound((e - 1) as nat);
    }
}

/// Reads the system clock: `SystemTime::now()` measured from the Unix
/// epoch (`duration_since(UNIX_EPOCH)`), as whole seconds and the
/// sub-second nanoseconds; `None` where the clock stands before the epoch.
/// The contract states only what `Duration` documents of every reading:
/// the nanoseconds are below one second.
#[verifier::external_body]
pub(crate) fn system_clock() -> (r: Option<(u64, u32)>)
    ensures
        r matches Some(t) ==> t.1 < 1_000_000_000,
{
    std::time::SystemTime::now().duration_since(std::time::UNIX_EPOCH).ok().map(
        |d| (d.as_secs(), d.subsec_nanos()),
    )
}

/// The instant of a clock reading as Unix seconds and nanoseconds: a
/// reading before the epoch (`None`) counts as the epoch itself, and
/// seconds beyond the `i64` range are capped there.
pub open spec fn reading_instant(reading: Option<(u64, u32)>) -> (i64, u32) {
    match reading {
        Some(t) => (if t.0 <= i64::MAX { t.0 as i64 } else { i64::MAX }, t.1),
        None => (0, 0),
    }
}

/// `reading_instant`, computed.
pub fn instant_of_reading(reading: Option<(u64, u32)>) -> (i: (i64, u32))
    ensures
        i == reading_instant(reading),
{
    match reading {
        Some((secs, nanos)) => {
            let s: i64 = if secs <= i64::MAX as u64 {
                secs as i64
            } else {
                i64::MAX
            };
            (s, nanos)
        },
        None => (0, 0),
    }
}

/// The current instant, read from the system clock (the epoch where the
/// clock stands before it).
pub fn current_instant() -> (i: (i64, u32))
    ensures
        exists|reading: Option<(u64, u32)>|
            (reading matches Some(t) ==> t.1 < 1_000_000_000) && i == reading_instant(reading),
        i.0 >= 0,
        i.1 < 1_000_000_000,
{
    let reading = system_clock();
    instant_of_reading(reading)
}

/// The milliseconds past the second of the current clock reading (0 where
/// the clock stands before the epoch).
fn clock_subsec_millis() -> (ms: u64)
    ensures
        ms < 1000,
{
    match system_clock() {
        Some((_, nanos)) => (nanos / 1_000_000) as u64,
        None => 0,
    }
}

/// The exponential backoff for `attempt`, with clock-derived jitter below
/// 250 ms.
pub fn backoff_delay(attempt: u32) -> (d: Delay)
    ensures
        exists|subsec: u64|
            subsec < 1000 && d.millis == backoff_base_millis(attempt) + jitter_millis(subsec),
{
    let subsec = clock_subsec_millis();
    backoff_delay_with(attempt, subsec)
}

/// How long to wait before the next attempt, with the jitter taken from a
/// clock reading: a `Retry-After` header (whole seconds) is honored when
/// it holds a number, else the exponential backoff applies.
pub fn retry_delay_with(headers: &ResponseHeaders, attempt: u32, subsec_millis: u64) -> (d: Delay)
    ensures
        d.millis == match header_u64(headers.retry_after) {
            Some(secs) => secs * 1000,
            None => (backoff_base_millis(attempt) + jitter_millis(subsec_millis)) as int,
        },
{
    match header_as_u64(&headers.retry_after) {
        Some(secs) => Delay { millis: (secs as u128) * 1000 },
        None => backoff_delay_with(attempt, subsec_millis),
    }
}

/// How long to wait before the next attempt: `Retry-After` (seconds) when
/// it holds a number, else the exponential backoff with clock jitter.
pub fn retry_delay(headers: &ResponseHeaders, attempt: u32) -> (d: Delay)
    ensures
        exists|subsec: u64|
            subsec < 1000 && d.millis == match header_u64(headers.retry_after) {
                Some(secs) => secs * 1000,
                None => (backoff_base_millis(attempt) + #[trigger] jitter_millis(subsec)) as int,
            },
{
    let subsec = clock_subsec_millis();
    let d = retry_delay_with(headers, attempt, subsec);
    assert(jitter_millis(subsec) < 250);
    d
}

/// What happened to one attempt at a request.
#[derive(Debug)]
pub enum AttemptOutcome {
    /// The request could not be sent or no response came back.
    TransportError,
    /// A response arrived.
    Response { status: u16, headers: ResponseHeaders },
}

/// What the request loop does next.
#[derive(Debug, PartialEq, Eq)]
pub enum RetryDecision {
    /// Wait, then make another attempt.
    Retry(Delay),
    /// Report the transport failure: the attempt budget is used up.
    GiveUp,
    /// Hand the response to the caller, whatever its status.
    Accept,
}

/// The decision after attempt number `attempt` (1-based), with the jitter
/// taken from a clock reading.
pub open spec fn decide_spec(
    attempt: u32,
    max_retries: u32,
    outcome: AttemptOutcome,
    subsec_millis: u64,
) -> RetryDecision {
    match outcome {
        AttemptOutcome::TransportError => if attempt >= max_retries {
            RetryDecision::GiveUp
        } else {
            RetryDecision::Retry(
                Delay {
                    millis: (backoff_base_millis(attempt) + jitter_millis(subsec_millis)) as u128,
                },
            )
        },
        AttemptOutcome::Response { status, headers } => if attempt < max_retries && (status
            == 429 || (status == 403 && rate_limit_signal(headers)) || is_server_error(status)) {
            RetryDecision::Retry(
                Delay {
                    millis: match header_u64(headers.retry_after) {
                        Some(secs) => (secs * 1000) as u128,
                        None => (backoff_base_millis(attempt) + jitter_millis(
                            subsec_millis,
                        )) as u128,
                    },
                },
            )
        } else {
            RetryDecision::Accept
        },
    }
}

/// The request loop's decision after attempt number `attempt`, with the
/// jitter taken from a clock reading: a transport error is retried with
/// backoff until the budget is used up; a response is retried per
/// `should_retry`, waiting per `retry_delay`, and otherwise accepted.
pub fn decide_after_attempt_with(
    attempt: u32,
    max_retries: u32,
    outcome: &AttemptOutcome,
    subsec_millis: u64,
) -> (d: RetryDecision)
    ensures
        d == decide_spec(attempt, max_retries, *outcome, subsec_millis),
        outcome is TransportError ==> (d is Retry <==> attempt < max_retries),
        outcome is TransportError && attempt >= max_retries ==> d is GiveUp,
        outcome matches AttemptOutcome::Response { status, headers } ==> (d is Retry <==> (
        attempt < max_retries && (*status == 429 || (*status == 403 && (
        !(headers.retry_after is Absent) || header_i64(headers.ratelimit_remaining) == Some(
            0i64,
        ))) || (500 <= *status && *status < 600)))),
        outcome is Response ==> !(d is GiveUp),
{
    match outcome {
        AttemptOutcome::TransportError => {
            if attempt >= max_retries {
                RetryDecision::GiveUp
            } else {
                RetryDecision::Retry(backoff_delay_with(attempt, subsec_millis))
            }
        },
        AttemptOutcome::Response { status, headers } => {
            if should_retry(*status, headers, attempt, max_retries) {
                RetryDecision::Retry(retry_delay_with(headers, attempt, subsec_millis))
            } else {
                RetryDecision::Accept
            }
        },
    }
}

/// The request loop's decision after attempt number `attempt`, reading the
/// clock for jitter.
pub fn decide_after_attempt(attempt: u32, max_retries: u32, outcome: &AttemptOutcome) -> (d:
    RetryDecision)
    ensures
        exists|subsec: u64|
            subsec < 1000 && d == decide_spec(attempt, max_retries, *outcome, subsec),
{
    let subsec = clock_subsec_millis();
    decide_after_attempt_with(attempt, max_retries, outcome, subsec)
}

/// The proactive pause before the next call, given the clock's reading
/// `now` (Unix seconds): none unless both headers were read and no more
/// than `floor` calls remain; else the seconds until the reset, clamped to
/// `0..=max_wait_secs`, and none where that is zero.
pub open spec fn proactive_wait_spec(
    remaining: Option<i64>,
    reset_epoch: Option<i64>,
    floor: i64,
    max_wait_secs: i64,
    now: i64,
) -> Option<i64> {
    match (remaining, reset_epoch) {
        (Some(rem), Some(reset)) => if rem > floor {
            None
        } else {
            let diff = reset - now;
            let wait = if diff < 0 {
                0
            } else if diff > max_wait_secs {
                max_wait_secs as int
            } else {
                diff
            };
            if wait > 0 {
                Some(wait as i64)
            } else {
                None
            }
        },
        _ => None,
    }
}

/// Where the wait reaches its clamp, the clamp's bounds
/// must be ordered (`i64::clamp` panics otherwise).
pub open spec fn proactive_wait_defined(
    remaining: Option<i64>,
    reset_epoch: Option<i64>,
    floor: i64,
    max_wait_secs: i64,
) -> bool {
    (remaining matches Some(rem) && reset_epoch is Some && rem <= floor) ==> max_wait_secs >= 0
}

/// The proactive pause before the next call, given the clock reading `now`.
pub fn proactive_wait_secs_at(
    remaining: Option<i64>,
    reset_epoch: Option<i64>,
    floor: i64,
    max_wait_secs: i64,
    now: i64,
) -> (w: Option<i64>)
    requires
        proactive_wait_defined(remaining, reset_epoch, floor, max_wait_secs),
    ensures
        w == proactive_wait_spec(remaining, reset_epoch, floor, max_wait_secs, now),
{
    let rem = match remaining {
        Some(r) => r,
        None => {
            return None;
        },
    };
    let reset = match reset_epoch {
        Some(r) => r,
        None => {
            return None;
        },
    };
    if rem > floor {
        return None;
    }
    let diff: i128 = reset as i128 - now as i128;
    let wait: i64 = if diff < 0 {
        0
    } else if diff > max_wait_secs as i128 {
        max_wait_secs
    } else {
        diff as i64
    };
    if wait > 0 {
        Some(wait)
    } else {
        None
    }
}

/// Should the caller pause before the next call because a rate-limit
/// window is nearly exhausted? The seconds to wait, capped at
/// `max_wait_secs` so a stale or garbled reset timestamp cannot stall a
/// run; the clock is read here.
pub fn proactive_wait_secs(
    remaining: Option<i64>,
    reset_epoch: Option<i64>,
    floor: i64,
    max_wait_secs: i64,
) -> (w: Option<i64>)
    requires
        proactive_wait_defined(remaining, reset_epoch, floor, max_wait_secs),
    ensures
        exists|now: i64| w == proactive_wait_spec(remaining, reset_epoch, floor, max_wait_secs, now),
        remaining is None || reset_epoch is None ==> w is None,
        remaining matches Some(rem) && rem > floor ==> w is None,
        w matches Some(secs) ==> 0 < secs <= max_wait_secs,
{
    let now: i64 = match system_clock() {
        Some((secs, _)) => secs as i64,
        None => 0,
    };
    let w = proactive_wait_secs_at(remaining, reset_epoch, floor, max_wait_secs, now);
    w
}

// ---------------------------------------------------------------------
// Laws
// ---------------------------------------------------------------------

proof fn lemma_doubling_monotone(a: nat, b: nat)
    requires
        a <= b,
    ensures
        doubling(a) <= doubling(b),
        a < b ==> 2 * doubling(a) <= doubling(b),
    decreases b,
{
    if a < b {
        lemma_doubling_monotone(a, (b - 1) as nat);
        assert(doubling(b) == 2 * doubling((b - 1) as nat));
    }
    if b > 0 {
        assert(doubling(b) >= 1) by {
            lemma_doubling_positive(b);
        }
    }
}

proof fn lemma_doubling_positive(e: nat)
    ensures
        doubling(e) >= 1,
    decreases e,
{
    if e > 0 {
        lemma_doubling_positive((e - 1) as nat);
    }
}

/// The backoff never shrinks as attempts grow, and from the second attempt
/// up to the seventh every later attempt waits strictly longer than every
/// earlier one whatever the jitter of either (a doubling outgrows 250 ms of
/// jitter).
pub proof fn lemma_backoff_grows_with_attempt(a: u32, b: u32, subsec_a: u64, subsec_b: u64)
    requires
        a <= b,
    ensures
        backoff_base_millis(a) <= backoff_base_millis(b),
        a < b && 2 <= b && a <= 6 ==> backoff_base_millis(a) + jitter_millis(subsec_a)
            < backoff_base_millis(b) + jitter_millis(subsec_b),
{
    lemma_doubling_monotone(backoff_exponent(a), backoff_exponent(b));
    lemma_doubling_positive(backoff_exponent(a));
}

/// The backoff is bounded: never more than 32 s of base plus 249 ms of
/// jitter, however large the attempt number.
pub proof fn lemma_backoff_is_capped(attempt: u32, subsec_millis: u64)
    ensures
        backoff_base_millis(attempt) + jitter_millis(subsec_millis) <= 32_249,
{
    lemma_doubling_monotone(backoff_exponent(attempt), 6);
    reveal_with_fuel(doubling, 7);
}

/// The attempt budget is never exceeded: once `attempt` reaches
/// `max_retries`, the loop gives up or accepts, never retries; and a
/// transport error below the budget is always retried.
pub proof fn lemma_no_retry_beyond_budget(
    attempt: u32,
    max_retries: u32,
    outcome: AttemptOutcome,
    subsec_millis: u64,
)
    ensures
        attempt >= max_retries ==> !(decide_spec(
            attempt,
            max_retries,
            outcome,
            subsec_millis,
        ) is Retry),
        attempt < max_retries && outcome is TransportError ==> decide_spec(
            attempt,
            max_retries,
            outcome,
            subsec_millis,
        ) is Retry,
{
}

/// The request loop retries a response exactly when `should_retry` holds:
/// below the attempt budget, a 429, a server error, or a 403 that carries
/// a `Retry-After` header or `X-RateLimit-Remaining: 0`; any other response
/// is handed back. A retried response waits `Retry-After` seconds where
/// the header holds a number, else the backoff.
pub proof fn lemma_loop_retries_what_should_retry_allows(
    attempt: u32,
    max_retries: u32,
    status: u16,
    headers: ResponseHeaders,
    subsec_millis: u64,
)
    ensures
        ({
            let d = decide_spec(
                attempt,
                max_retries,
                AttemptOutcome::Response { status, headers },
                subsec_millis,
            );
            &&& d is Retry <==> (attempt < max_retries && (status == 429 || (status == 403 && (
                !(headers.retry_after is Absent) || header_i64(headers.ratelimit_remaining)
                    == Some(0i64))) || (500 <= status && status < 600)))
            &&& !(d is Retry) ==> d is Accept
            &&& d matches RetryDecision::Retry(delay) ==> delay.millis == match header_u64(
                headers.retry_after,
            ) {
                Some(secs) => secs * 1000,
                None => 500 * doubling(backoff_exponent(attempt)) + subsec_millis % 250,
            }
        }),
{
    lemma_doubling_monotone(backoff_exponent(attempt), 6);
    reveal_with_fuel(doubling, 7);
    lemma_doubling_positive(backoff_exponent(attempt));
}

/// A proactive pause is always positive and never longer than the cap.
pub proof fn lemma_proactive_wait_is_bounded(
    remaining: Option<i64>,
    reset_epoch: Option<i64>,
    floor: i64,
    max_wait_secs: i64,
    now: i64,
)
    requires
        proactive_wait_defined(remaining, reset_epoch, floor, max_wait_secs),
    ensures
        proactive_wait_spec(remaining, reset_epoch, floor, max_wait_secs, now) matches Some(w) ==> 0
            < w <= max_wait_secs,
{
}

} // verus!

//! Deterministic one-retry policy and `Retry-After` handling.

use vstd::prelude::*;

use crate::instant;
use crate::instant::{Duration, Timestamp};
use crate::text;
use crate::transport::TransportError;

verus! {

/// The longest delay that a valid policy allows: one hour.
pub const MAX_RETRY_DELAY_SECONDS: u64 = 3600;

/// Fixed retry budget with bounded server delay handling.
#[derive(Debug, Clone, Copy, PartialEq, Eq, Structural)]
pub struct RetryPolicy {
    pub max_retries: u8,
    pub base_delay: Duration,
    pub max_delay: Duration,
}

/// Clock boundary used for `Retry-After` dates.
pub trait RetryClock {
    /// Current civil time used only to project an HTTP-date delay.
    fn wall_now(&self) -> Timestamp;
}

impl RetryPolicy {
    /// The fallback delay fits the ceiling, and the ceiling is at most an hour.
    pub open spec fn valid(self) -> bool {
        &&& !self.max_delay.shorter(self.base_delay)
        &&& !(Duration { seconds: MAX_RETRY_DELAY_SECONDS, nanos: 0 }).shorter(self.max_delay)
    }

    /// The delay before the next attempt, where another attempt is allowed.
    pub open spec fn next_delay(self, completed_retries: u8, error: TransportError) -> Option<
        Duration,
    > {
        if completed_retries >= self.max_retries || !error.retryable() {
            None
        } else {
            Some(
                (match error.server_delay() {
                    Some(delay) => delay,
                    None => self.base_delay,
                }).shortest(self.max_delay),
            )
        }
    }

    /// Disables automatic retry.
    pub fn none() -> (r: RetryPolicy)
        ensures
            r == (RetryPolicy {
                max_retries: 0,
                base_delay: Duration { seconds: 0, nanos: 0 },
                max_delay: Duration { seconds: 0, nanos: 0 },
            }),
            r.valid(),
    {
        RetryPolicy {
            max_retries: 0,
            base_delay: Duration::from_secs(0),
            max_delay: Duration::from_secs(0),
        }
    }

    /// Allows exactly one retry with bounded fallback and server delay.
    pub fn one(base_delay: Duration, max_delay: Duration) -> (r: RetryPolicy)
        ensures
            r == (RetryPolicy { max_retries: 1, base_delay, max_delay }),
    {
        RetryPolicy { max_retries: 1, base_delay, max_delay }
    }

    /// The delay for the next attempt, if the budget permits it.
    pub fn delay(self, completed_retries: u8, error: &TransportError) -> (r: Option<Duration>)
        ensures
            r == self.next_delay(completed_retries, *error),
    {
        if completed_retries >= self.max_retries || !error.is_retryable() {
            return None;
        }
        let requested = match error.retry_after() {
            Some(delay) => delay,
            None => self.base_delay,
        };
        Some(requested.at_most(self.max_delay))
    }

    /// Maximum accepted `Retry-After` duration.
    pub fn max_delay(self) -> (r: Duration)
        ensures
            r == self.max_delay,
    {
        self.max_delay
    }

    /// Whether the delays are in order and within the ceiling.
    pub fn is_valid(self) -> (r: bool)
        ensures
            r == self.valid(),
    {
        !self.max_delay.is_shorter(self.base_delay) && !Duration::from_secs(
            MAX_RETRY_DELAY_SECONDS,
        ).is_shorter(self.max_delay)
    }
}

/// The policy without retries.
pub open spec fn no_retry() -> RetryPolicy {
    RetryPolicy {
        max_retries: 0,
        base_delay: Duration { seconds: 0, nanos: 0 },
        max_delay: Duration { seconds: 0, nanos: 0 },
    }
}

/// The policy with one retry, its fallback delay in milliseconds below a second
/// and its ceiling in seconds.
pub open spec fn one_retry(base_millis: u32, max_seconds: u64) -> RetryPolicy {
    RetryPolicy {
        max_retries: 1,
        base_delay: Duration { seconds: 0, nanos: (base_millis * 1_000_000) as u32 },
        max_delay: Duration { seconds: max_seconds, nanos: 0 },
    }
}

/// A delay is never longer than the policy's ceiling, and none is given once
/// the budget is spent or for a failure that is not retryable.
pub proof fn law_delay_bounded(policy: RetryPolicy, completed: u8, error: TransportError)
    ensures
        match policy.next_delay(completed, error) {
            Some(delay) => !policy.max_delay.shorter(delay) && completed < policy.max_retries
                && error.retryable(),
            None => completed >= policy.max_retries || !error.retryable(),
        },
{
}

/// A request that got no answer in time or no connection is tried again after the
/// policy's delay within its ceiling; one that was cancelled, refused or answered in
/// a form that cannot be read is not.
pub proof fn law_lost_requests_are_retried(policy: RetryPolicy, completed: u8)
    requires
        completed < policy.max_retries,
        policy.valid(),
    ensures
        policy.next_delay(completed, TransportError::Timeout) == Some(policy.base_delay),
        policy.next_delay(completed, TransportError::Network) == Some(policy.base_delay),
        policy.next_delay(completed, TransportError::Cancelled) is None,
        policy.next_delay(completed, TransportError::Endpoint) is None,
        policy.next_delay(completed, TransportError::InvalidConfiguration) is None,
        policy.next_delay(completed, TransportError::ResponseTooLarge) is None,
        policy.next_delay(completed, TransportError::MalformedResponse) is None,
        policy.next_delay(completed, TransportError::TooManyRedirects) is None,
{
}

/// A server's wish in whole seconds is followed up to the ceiling.
pub proof fn law_wished_seconds_are_kept(value: Seq<u8>, now: Timestamp, maximum: Duration)
    requires
        maximum.seconds > 0,
        crate::transport::visible_text(value) is Some,
        text::u64_value(text::trimmed(crate::transport::visible_text(value)->0)) is Some,
    ensures
        ({
            let seconds = text::u64_value(
                text::trimmed(crate::transport::visible_text(value)->0),
            )->0;
            &&& retry_after_delay(value, now, maximum) matches Some(delay)
            &&& seconds <= maximum.seconds ==> delay.seconds == seconds && delay.nanos == 0
            &&& seconds > maximum.seconds ==> delay == maximum
        }),
{
}

/// A server's wish as a date leads to the span until that date, where it is ahead
/// and within the ceiling.
pub proof fn law_wished_dates_are_kept(at: u64, now: Timestamp, maximum: Duration)
    requires
        maximum.nanos < 1_000_000_000,
    ensures
        ({
            let delay = capped_span(span_until(at, now), maximum);
            let ahead = at * 1_000_000_000 - now.nanos;
            let ceiling = maximum.seconds * 1_000_000_000 + maximum.nanos;
            let length = delay.seconds * 1_000_000_000 + delay.nanos;
            &&& ahead <= 0 ==> length == 0
            &&& 0 < ahead <= ceiling ==> length == ahead
            &&& ahead > ceiling ==> length == ceiling
        }),
{
}

/// The attempts that a request makes when its attempts fail with `errors`, one
/// after the other: each retry uses up one of the policy's retries.
pub open spec fn attempts(policy: RetryPolicy, errors: Seq<TransportError>, completed: u8) -> nat
    decreases errors.len(),
{
    if errors.len() == 0 || policy.next_delay(completed, errors[0]) is None {
        1
    } else {
        1 + attempts(policy, errors.drop_first(), (completed + 1) as u8)
    }
}

/// Whatever the failures are, a request makes at most one attempt more than the
/// policy's retries: one attempt without retry, two with one retry.
pub proof fn law_attempts_bounded(policy: RetryPolicy, errors: Seq<TransportError>, completed: u8)
    requires
        completed <= policy.max_retries,
    ensures
        attempts(policy, errors, completed) <= policy.max_retries - completed + 1,
    decreases errors.len(),
{
    if errors.len() > 0 && policy.next_delay(completed, errors[0]) is Some {
        law_attempts_bounded(policy, errors.drop_first(), (completed + 1) as u8);
    }
}

/// The span from `now` to second `at`; zero where that second has passed. The
/// first component counts whole seconds, the second the nanoseconds beyond.
pub open spec fn span_until(at: u64, now: Timestamp) -> (int, int) {
    let nanos = at * instant::NANOS_PER_SECOND - now.nanos;
    if nanos <= 0 {
        (0, 0)
    } else {
        (nanos / instant::NANOS_PER_SECOND as int, nanos % instant::NANOS_PER_SECOND as int)
    }
}

/// The shorter of a span and `maximum`.
pub open spec fn capped_span(span: (int, int), maximum: Duration) -> Duration {
    if span.0 > maximum.seconds || (span.0 == maximum.seconds && span.1 > maximum.nanos) {
        maximum
    } else {
        Duration { seconds: span.0 as u64, nanos: span.1 as u32 }
    }
}

/// The delay that a `Retry-After` value asks for, at most `maximum`.
pub open spec fn retry_after_delay(value: Seq<u8>, now: Timestamp, maximum: Duration) -> Option<
    Duration,
> {
    if maximum.seconds == 0 && maximum.nanos == 0 {
        None
    } else {
        match crate::transport::visible_text(value) {
            None => None,
            Some(source) => {
                let plain = text::trimmed(source);
                match text::u64_value(plain) {
                    Some(seconds) => Some((Duration { seconds, nanos: 0 }).shortest(maximum)),
                    None => match instant::http_date(plain) {
                        Some(at) => Some(capped_span(span_until(at, now), maximum)),
                        None => None,
                    },
                }
            },
        }
    }
}

/// Limits the span from `now` to second `at` to `maximum`.
pub fn delay_until(at: u64, now: Timestamp, maximum: Duration) -> (r: Duration)
    ensures
        r == capped_span(span_until(at, now), maximum),
{
    let target: i128 = at as i128 * 1_000_000_000;
    if target <= now.nanos {
        if maximum.seconds == 0 && maximum.nanos == 0 {
            return maximum;
        }
        return Duration { seconds: 0, nanos: 0 };
    }
    let nanos: u128 = if now.nanos < 0 {
        target as u128 + ((-(now.nanos + 1)) as u128 + 1)
    } else {
        (target - now.nanos) as u128
    };
    let seconds: u128 = nanos / 1_000_000_000;
    let beyond: u32 = (nanos % 1_000_000_000) as u32;
    if seconds > maximum.seconds as u128 || (seconds == maximum.seconds as u128 && beyond
        > maximum.nanos) {
        maximum
    } else {
        Duration { seconds: seconds as u64, nanos: beyond }
    }
}

/// Parses either delta-seconds or an HTTP date and clamps it to `maximum`.
pub fn parse_retry_after(value: &[u8], now: Timestamp, maximum: Duration) -> (r: Option<Duration>)
    ensures
        r == retry_after_delay(value@, now, maximum),
{
    if maximum.is_zero() {
        return None;
    }
    let source = match crate::transport::header_text(value) {
        Some(source) => source,
        None => return None,
    };
    let chars = text::chars_of(source.as_str());
    let plain = text::trim(chars.as_slice());
    match text::parse_u64(plain) {
        Some(seconds) => Some(Duration::from_secs(seconds).at_most(maximum)),
        None => {
            let plain_text = text::text_of(plain);
            match instant::parse_http_date(plain_text.as_str()) {
                Some(at) => Some(delay_until(at, now, maximum)),
                None => None,
            }
        },
    }
}

/// A parsed delay is never longer than the maximum that it was parsed under.
pub proof fn law_retry_after_bounded(value: Seq<u8>, now: Timestamp, maximum: Duration)
    ensures
        match retry_after_delay(value, now, maximum) {
            Some(delay) => !maximum.shorter(delay),
            None => true,
        },
{
    match crate::transport::visible_text(value) {
        Some(source) => {
            let plain = text::trimmed(source);
            if text::u64_value(plain) is None {
                if let Some(at) = instant::http_date(plain) {
                    let span = span_until(at, now);
                    assert(0 <= span.1 < 1_000_000_000);
                    assert(0 <= span.0);
                }
            }
        },
        None => {},
    }
}

/// The policy with one retry waits its milliseconds and no longer than its seconds;
/// the one without retries never tries again.
pub proof fn law_policies_count_retries(base_millis: u32, max_seconds: u64)
    requires
        base_millis < 1000,
    ensures
        one_retry(base_millis, max_seconds).max_retries == 1,
        one_retry(base_millis, max_seconds).base_delay.seconds * 1_000_000_000 + one_retry(
            base_millis,
            max_seconds,
        ).base_delay.nanos == base_millis * 1_000_000,
        one_retry(base_millis, max_seconds).max_delay.seconds * 1_000_000_000 + one_retry(
            base_millis,
            max_seconds,
        ).max_delay.nanos == max_seconds * 1_000_000_000,
        no_retry().max_retries == 0,
{
}

} // verus!

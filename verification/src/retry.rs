//! Which answered-but-failed requests are worth another attempt, and how long
//! to wait before it.

use vstd::prelude::*;

use crate::text::{chars_of, parse_uint, parse_uint_spec, trim, trim_str};

verus! {

/// How many times a request is attempted at most.
pub const MAX_ATTEMPTS: u32 = 3;

/// The first retry's wait, in milliseconds.
pub const BASE_DELAY_MS: u64 = 400;

/// The longest wait, in milliseconds.
pub const MAX_DELAY_MS: u64 = 5000;

/// The backoff window before jitter: the base doubled per attempt after the
/// first (at most four doublings), capped at the maximum.
pub open spec fn window_spec(attempt: u32) -> u64 {
    let doublings: nat = if attempt == 0 {
        0
    } else if attempt - 1 > 4 {
        4
    } else {
        (attempt - 1) as nat
    };
    let raw = 400 * pow2(doublings);
    if raw > 5000 {
        5000
    } else {
        raw as u64
    }
}

/// Two to the `n`.
pub open spec fn pow2(n: nat) -> int
    decreases n,
{
    if n == 0 {
        1
    } else {
        2 * pow2((n - 1) as nat)
    }
}

/// The backoff window for `attempt`, in milliseconds.
pub fn window_ms(attempt: u32) -> (r: u64)
    ensures
        r == window_spec(attempt),
        r <= MAX_DELAY_MS,
{
    let doublings: u32 = if attempt == 0 {
        0
    } else if attempt - 1 > 4 {
        4
    } else {
        attempt - 1
    };
    proof {
        reveal_with_fuel(pow2, 5);
    }
    let factor: u64 = if doublings == 0 {
        1
    } else if doublings == 1 {
        2
    } else if doublings == 2 {
        4
    } else if doublings == 3 {
        8
    } else {
        16
    };
    let raw = BASE_DELAY_MS * factor;
    if raw > MAX_DELAY_MS {
        MAX_DELAY_MS
    } else {
        raw
    }
}

/// The sub-second nanoseconds of the current wall-clock time (0 when the
/// clock is before the epoch); below a billion.
#[verifier::external_body]
fn clock_nanos() -> (r: u64)
    ensures
        r < 1_000_000_000,
{
    std::time::SystemTime::now().duration_since(std::time::UNIX_EPOCH).map(|d| d.subsec_nanos() as u64).unwrap_or(0)
}

/// The span jitter is drawn from: half the window, at least one.
pub open spec fn jitter_span(window: u64) -> u64 {
    if window / 2 >= 1 {
        window / 2
    } else {
        1
    }
}

/// The jitter a clock reading of `nanos` sub-second nanoseconds gives for
/// `window`: the reading modulo the span.
pub open spec fn jitter_spec(nanos: u64, window: u64) -> u64 {
    nanos % jitter_span(window)
}

/// The jitter a clock reading of `nanos` gives for `window`.
pub fn jitter_for_clock(nanos: u64, window: u64) -> (r: u64)
    ensures
        r == jitter_spec(nanos, window),
        r < jitter_span(window),
{
    let span = if window / 2 >= 1 {
        window / 2
    } else {
        1
    };
    nanos % span
}

/// A jitter for `window`, taken from the clock's sub-second part: always
/// below half the window (below one for a window under two). Which value
/// comes is the clock's; it is what `jitter_for_clock` gives for some
/// sub-second reading.
pub fn jitter_ms(window: u64) -> (r: u64)
    ensures
        exists|nanos: u64| nanos < 1_000_000_000 && r == jitter_spec(nanos, window),
        r < jitter_span(window),
{
    let nanos = clock_nanos();
    jitter_for_clock(nanos, window)
}

/// The `Duration` std makes of a number of milliseconds.
pub uninterp spec fn millis(ms: u64) -> std::time::Duration;

/// A duration of `ms` milliseconds (std's `Duration::from_millis`).
#[verifier::external_body]
fn duration_from_millis(ms: u64) -> (r: std::time::Duration)
    ensures
        r == millis(ms),
{
    std::time::Duration::from_millis(ms)
}

/// How long to wait before attempt `attempt + 1`, in milliseconds: the
/// window plus a jitter below half of it.
pub fn delay_ms(attempt: u32) -> (r: u64)
    ensures
        exists|nanos: u64| nanos < 1_000_000_000 && r == window_spec(attempt) + jitter_spec(nanos, window_spec(attempt)),
        window_spec(attempt) <= r < window_spec(attempt) + jitter_span(window_spec(attempt)),
{
    let window = window_ms(attempt);
    window + jitter_ms(window)
}

/// How long to wait before attempt `attempt + 1`.
pub fn delay(attempt: u32) -> (r: std::time::Duration)
    ensures
        exists|ms: u64|
            window_spec(attempt) <= ms < window_spec(attempt) + jitter_span(window_spec(attempt)) && r
                == millis(ms) && exists|nanos: u64| nanos < 1_000_000_000 && ms == window_spec(attempt) + jitter_spec(nanos, window_spec(attempt)),
{
    let ms = delay_ms(attempt);
    duration_from_millis(ms)
}

/// The seconds a `Retry-After` header asks for, capped at the longest wait;
/// `None` when it is not a whole number.
pub open spec fn retry_after_spec(header: Seq<char>) -> Option<u64> {
    match parse_uint_spec(trim(header), 0xffff_ffff_ffff_ffff) {
        Some(s) => Some(if s > 5 {
            5
        } else {
            s as u64
        }),
        None => None,
    }
}

/// The seconds a `Retry-After` header value asks for.
pub fn retry_after_secs(header: &str) -> (r: Option<u64>)
    ensures
        r == retry_after_spec(header@),
        r matches Some(s) ==> s <= 5,
{
    let t = trim_str(header);
    match parse_uint(&t, 0xffff_ffff_ffff_ffff) {
        Some(s) => Some(if s > 5 {
            5
        } else {
            s
        }),
        None => None,
    }
}

/// Whether an answered request should be retried: a rate limit or a server
/// error, while attempts remain.
pub open spec fn should_retry(status: u16, attempt: u32) -> bool {
    attempt < 3 && (status == 429 || (500 <= status <= 599))
}

/// How long to wait before retrying an answered-but-failed response, in
/// milliseconds, or `None` when its status is the caller's to handle: the
/// server's `Retry-After` when it gave a usable one, else the backoff delay.
pub fn backoff_ms(status: u16, attempt: u32, retry_after: Option<&str>) -> (r: Option<u64>)
    ensures
        !should_retry(status, attempt) ==> r is None,
        should_retry(status, attempt) ==> r is Some,
        should_retry(status, attempt) ==> match retry_after {
            Some(h) => match retry_after_spec(h@) {
                Some(s) => r == Some((s * 1000) as u64),
                None => window_spec(attempt) <= r->0 < window_spec(attempt) + jitter_span(window_spec(attempt)),
            },
            None => window_spec(attempt) <= r->0 < window_spec(attempt) + jitter_span(window_spec(attempt)),
        },
{
    if attempt >= MAX_ATTEMPTS {
        return None;
    }
    if status != 429 && !(500 <= status && status <= 599) {
        return None;
    }
    let header = match retry_after {
        Some(h) => retry_after_secs(h),
        None => None,
    };
    match header {
        Some(s) => Some(s * 1000),
        None => Some(delay_ms(attempt)),
    }
}


/// The backoff window never shrinks as attempts go on, starts at the base
/// delay and never exceeds the longest wait.
pub proof fn lemma_window_grows_and_is_capped(a: u32, b: u32)
    requires
        a <= b,
    ensures
        window_spec(a) <= window_spec(b),
        400 <= window_spec(a) <= 5000,
{
    reveal_with_fuel(pow2, 5);
}

/// Every delay lies between the window and one and a half windows, so no
/// wait exceeds seven and a half seconds.
pub proof fn lemma_delay_bounds(attempt: u32, ms: u64)
    requires
        window_spec(attempt) <= ms < window_spec(attempt) + jitter_span(window_spec(attempt)),
    ensures
        400 <= ms < 7500,
{
    reveal_with_fuel(pow2, 5);
}

} // verus!

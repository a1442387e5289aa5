//! Retry policy for transient GitHub failures: primary rate limits
//! (`x-ratelimit-remaining: 0`), secondary rate limits (`retry-after`) and
//! server errors, with bounded exponential backoff that honours GitHub's own
//! timing headers.

use reqwest::header::{HeaderMap, HeaderValue};
use std::time::{Duration, SystemTime};
use vstd::arithmetic::power2::{lemma2_to64, pow2};
use vstd::prelude::*;

verus! {

/// Maximum number of automatic retries for transient GitHub failures.
pub const MAX_RETRIES: u32 = 4;

/// Upper bound on any single backoff wait, so the UI never blocks for an
/// unbounded amount of time on a distant rate-limit reset.
pub const MAX_BACKOFF_SECS: u64 = 60;

#[verifier::external_type_specification]
#[verifier::external_body]
#[verifier::reject_recursive_types(T)]
pub struct ExHeaderMap<T>(HeaderMap<T>);

#[verifier::external_type_specification]
#[verifier::external_body]
pub struct ExHeaderValue(HeaderValue);

#[verifier::external_type_specification]
#[verifier::external_body]
pub struct ExSystemTime(SystemTime);

/// What a header map holds: for each (lower-case) header name, the first value
/// stored under it, as raw bytes.
pub uninterp spec fn header_first_values(headers: HeaderMap) -> Map<Seq<char>, Seq<u8>>;

/// The duration that `Duration::from_secs` builds from a number of seconds.
pub uninterp spec fn duration_of_secs(secs: u64) -> Duration;

/// A header name made of lower-case letters, digits and `-`.
pub open spec fn is_lowercase_header_name(name: Seq<char>) -> bool {
    &&& name.len() > 0
    &&& forall|i: int|
        0 <= i < name.len() ==> {
            let c = #[trigger] name[i];
            ('a' <= c && c <= 'z') || ('0' <= c && c <= '9') || c == '-'
        }
}

/// `HeaderMap::get` for a lower-case name; the value is handed out as its
/// bytes (`HeaderValue::as_bytes`). The map's first value for that name, if any.
#[verifier::external_body]
fn header_value_bytes(headers: &HeaderMap, name: &str) -> (res: Option<Vec<u8>>)
    requires
        is_lowercase_header_name(name@),
    ensures
        match res {
            Some(v) => header_first_values(*headers).dom().contains(name@) && v@
                == header_first_values(*headers)[name@],
            None => !header_first_values(*headers).dom().contains(name@),
        },
{
    match headers.get(name) {
        Some(value) => Some(value.as_bytes().to_vec()),
        None => None,
    }
}

/// `HeaderMap::contains_key` for a lower-case name: whether any value is
/// stored under it.
#[verifier::external_body]
fn header_present(headers: &HeaderMap, name: &str) -> (res: bool)
    requires
        is_lowercase_header_name(name@),
    ensures
        res == header_first_values(*headers).dom().contains(name@),
{
    headers.contains_key(name)
}

/// `Duration::from_secs`: a duration of exactly `secs` whole seconds, so
/// `as_secs` gives `secs` back.
#[verifier::external_body]
fn duration_from_secs(secs: u64) -> (res: Duration)
    ensures
        res == duration_of_secs(secs),
        duration_secs(res) == secs,
{
    Duration::from_secs(secs)
}

/// `SystemTime::now`. Nothing is stated of the clock's reading.
#[verifier::external_body]
fn system_time_now() -> SystemTime {
    SystemTime::now()
}

/// What `SystemTime::duration_since(UNIX_EPOCH)` gives for a time: the time
/// elapsed since the Unix epoch, `None` when the time lies before the epoch.
pub uninterp spec fn elapsed_since_epoch(time: SystemTime) -> Option<Duration>;

/// What `Duration::as_secs` gives: the whole seconds of a duration.
pub uninterp spec fn duration_secs(duration: Duration) -> u64;

/// What `Duration::as_millis` gives: the whole milliseconds of a duration.
pub uninterp spec fn duration_millis(duration: Duration) -> u128;

/// `SystemTime::duration_since(UNIX_EPOCH)`, `None` when the time lies before
/// the epoch: the time elapsed since the epoch, for the time it is given.
#[verifier::external_body]
fn elapsed_since_unix_epoch(time: &SystemTime) -> (res: Option<Duration>)
    ensures
        res == elapsed_since_epoch(*time),
{
    match time.duration_since(std::time::UNIX_EPOCH) {
        Ok(elapsed) => Some(elapsed),
        Err(_) => None,
    }
}

/// `Duration::as_secs`: the whole seconds of the duration.
#[verifier::external_body]
fn duration_whole_secs(duration: &Duration) -> (res: u64)
    ensures
        res == duration_secs(*duration),
{
    duration.as_secs()
}

/// `Duration::as_millis`: the whole milliseconds of the duration.
#[verifier::external_body]
pub(crate) fn duration_whole_millis(duration: &Duration) -> (res: u128)
    ensures
        res == duration_millis(*duration),
{
    duration.as_millis()
}

/// Seconds since the Unix epoch for what the clock gave, or 0 when it gave a
/// time before the epoch.
pub open spec fn whole_secs_since_epoch(elapsed: Option<Duration>) -> u64 {
    match elapsed {
        Some(d) => duration_secs(d),
        None => 0,
    }
}

/// Reads the system clock and returns the time elapsed since the Unix epoch:
/// the elapsed time of some reading of the clock (which reading is not
/// stated).
pub(crate) fn clock_since_epoch() -> (res: Option<Duration>)
    ensures
        exists|t: SystemTime| #[trigger] elapsed_since_epoch(t) == res,
{
    let now = system_time_now();
    elapsed_since_unix_epoch(&now)
}

/// Seconds since the Unix epoch on the system clock, or 0 when the clock reads
/// a time before the epoch.
pub fn now_unix() -> (res: u64)
    ensures
        exists|t: SystemTime| res == whole_secs_since_epoch(#[trigger] elapsed_since_epoch(t)),
{
    let elapsed = clock_since_epoch();
    let ghost t = choose|t: SystemTime| #[trigger] elapsed_since_epoch(t) == elapsed;
    let res = match elapsed {
        Some(d) => duration_whole_secs(&d),
        None => 0,
    };
    assert(res == whole_secs_since_epoch(elapsed_since_epoch(t)));
    res
}

// ---------------------------------------------------------------------------
// Numeric header values
// ---------------------------------------------------------------------------

/// Bytes that `HeaderValue::to_str` accepts: visible ASCII and tab.
pub open spec fn is_visible_ascii(b: u8) -> bool {
    (32 <= b && b < 127) || b == 9
}

/// The whitespace characters that can occur among visible ASCII bytes.
pub open spec fn is_blank(b: u8) -> bool {
    b == 9 || b == 32
}

/// `s` without its leading blanks.
pub open spec fn trim_start(s: Seq<u8>) -> Seq<u8>
    decreases s.len(),
{
    if s.len() > 0 && is_blank(s[0]) {
        trim_start(s.drop_first())
    } else {
        s
    }
}

/// `s` without its trailing blanks.
pub open spec fn trim_end(s: Seq<u8>) -> Seq<u8>
    decreases s.len(),
{
    if s.len() > 0 && is_blank(s.last()) {
        trim_end(s.drop_last())
    } else {
        s
    }
}

/// An ASCII decimal digit.
pub open spec fn is_digit(b: u8) -> bool {
    48 <= b && b <= 57
}

/// The number a run of decimal digits spells.
pub open spec fn decimal_value(d: Seq<u8>) -> nat
    decreases d.len(),
{
    if d.len() == 0 {
        0
    } else {
        decimal_value(d.drop_last()) * 10 + (d.last() - 48) as nat
    }
}

/// The digits of a number's text once an optional leading `+` is removed.
pub open spec fn unsigned_digits(t: Seq<u8>) -> Seq<u8> {
    if t.len() > 0 && t[0] == 43 {
        t.drop_first()
    } else {
        t
    }
}

/// Every byte of `d` is a decimal digit.
pub open spec fn all_digits(d: Seq<u8>) -> bool {
    forall|i: int| 0 <= i < d.len() ==> is_digit(#[trigger] d[i])
}

/// `u64::from_str`: an optional `+`, then one or more decimal digits whose
/// value fits in 64 bits.
pub open spec fn parse_u64_text(t: Seq<u8>) -> Option<u64> {
    let d = unsigned_digits(t);
    if d.len() > 0 && all_digits(d) && decimal_value(d) <= u64::MAX {
        Some(decimal_value(d) as u64)
    } else {
        None
    }
}

/// The numeric value of a header: the value must be visible ASCII, and, once
/// trimmed, parse as a `u64`.
pub open spec fn header_number(value: Seq<u8>) -> Option<u64> {
    if forall|i: int| 0 <= i < value.len() ==> is_visible_ascii(#[trigger] value[i]) {
        parse_u64_text(trim_end(trim_start(value)))
    } else {
        None
    }
}

proof fn lemma_trim_start_step(v: Seq<u8>, i: int)
    requires
        0 <= i < v.len(),
        is_blank(v[i]),
    ensures
        trim_start(v.subrange(i, v.len() as int)) == trim_start(v.subrange(i + 1, v.len() as int)),
{
    assert(v.subrange(i, v.len() as int).drop_first() =~= v.subrange(i + 1, v.len() as int));
}

proof fn lemma_trim_end_step(v: Seq<u8>, i: int, j: int)
    requires
        0 <= i < j <= v.len(),
        is_blank(v[j - 1]),
    ensures
        trim_end(v.subrange(i, j)) == trim_end(v.subrange(i, j - 1)),
{
    assert(v.subrange(i, j).drop_last() =~= v.subrange(i, j - 1));
}

proof fn lemma_decimal_prefix_le(d: Seq<u8>, k: int)
    requires
        0 <= k <= d.len(),
    ensures
        decimal_value(d.subrange(0, k)) <= decimal_value(d),
    decreases d.len(),
{
    if k < d.len() {
        lemma_decimal_prefix_le(d.drop_last(), k);
        assert(d.drop_last().subrange(0, k) =~= d.subrange(0, k));
    } else {
        assert(d.subrange(0, k) =~= d);
    }
}

/// The numeric value of a header value, as
/// `value.to_str().ok()?.trim().parse::<u64>().ok()`.
pub fn parse_header_number(value: &[u8]) -> (res: Option<u64>)
    ensures
        res == header_number(value@),
{
    let n = value.len();
    let mut k: usize = 0;
    while k < n
        invariant
            n == value@.len(),
            k <= n,
            forall|i: int| 0 <= i < k ==> is_visible_ascii(#[trigger] value@[i]),
        decreases n - k,
    {
        let b = value[k];
        if !((32 <= b && b < 127) || b == 9) {
            assert(!is_visible_ascii(value@[k as int]));
            return None;
        }
        k = k + 1;
    }
    let ghost v = value@;
    assert(v.subrange(0, n as int) =~= v);
    let mut start: usize = 0;
    while start < n && (value[start] == 9 || value[start] == 32)
        invariant
            n == v.len(),
            v == value@,
            start <= n,
            trim_start(v) == trim_start(v.subrange(start as int, n as int)),
        decreases n - start,
    {
        proof {
            lemma_trim_start_step(v, start as int);
        }
        start = start + 1;
    }
    assert(trim_start(v) == v.subrange(start as int, n as int));
    let mut end: usize = n;
    while end > start && (value[end - 1] == 9 || value[end - 1] == 32)
        invariant
            n == v.len(),
            v == value@,
            start <= end <= n,
            trim_end(v.subrange(start as int, n as int)) == trim_end(
                v.subrange(start as int, end as int),
            ),
        decreases end,
    {
        proof {
            lemma_trim_end_step(v, start as int, end as int);
        }
        end = end - 1;
    }
    let ghost t = v.subrange(start as int, end as int);
    assert(trim_end(trim_start(v)) == t);
    let mut p = start;
    if p < end && value[p] == 43 {
        p = p + 1;
    }
    let ghost d = v.subrange(p as int, end as int);
    assert(d == unsigned_digits(t));
    if p == end {
        return None;
    }
    let mut acc: u64 = 0;
    let mut i = p;
    while i < end
        invariant
            n == v.len(),
            v == value@,
            p <= i <= end <= n,
            start <= p,
            d == v.subrange(p as int, end as int),
            t == v.subrange(start as int, end as int),
            trim_end(trim_start(v)) == t,
            forall|j: int| 0 <= j < n ==> is_visible_ascii(#[trigger] v[j]),
            d == unsigned_digits(t),
            d.len() > 0,
            forall|j: int| p <= j < i ==> is_digit(#[trigger] v[j]),
            acc == decimal_value(v.subrange(p as int, i as int)),
        decreases end - i,
    {
        let b = value[i];
        if !(48 <= b && b <= 57) {
            assert(!is_digit(d[i - p]));
            assert(!all_digits(d));
            assert(parse_u64_text(t) is None);
            assert(header_number(value@) == parse_u64_text(trim_end(trim_start(value@))));
            return None;
        }
        assert(v.subrange(p as int, i + 1).drop_last() =~= v.subrange(p as int, i as int));
        let digit = (b - 48) as u64;
        match acc.checked_mul(10) {
            Some(m) => match m.checked_add(digit) {
                Some(next) => {
                    acc = next;
                },
                None => {
                    proof {
                        assert(d.subrange(0, i + 1 - p) =~= v.subrange(p as int, i + 1));
                        lemma_decimal_prefix_le(d, i + 1 - p);
                    }
                    return None;
                },
            },
            None => {
                proof {
                    assert(d.subrange(0, i + 1 - p) =~= v.subrange(p as int, i + 1));
                    lemma_decimal_prefix_le(d, i + 1 - p);
                }
                return None;
            },
        }
        i = i + 1;
    }
    assert(v.subrange(p as int, end as int) == d);
    assert forall|j: int| 0 <= j < d.len() implies is_digit(#[trigger] d[j]) by {
        assert(d[j] == v[p + j]);
    }
    Some(acc)
}

// ---------------------------------------------------------------------------
// Retry decisions
// ---------------------------------------------------------------------------

/// The timing signals a response carries for the retry policy.
pub struct RetrySignals {
    /// A `retry-after` header is present (whatever its value).
    pub retry_after_present: bool,
    /// The numeric value of `retry-after`, in seconds.
    pub retry_after_secs: Option<u64>,
    /// The numeric value of `x-ratelimit-remaining`.
    pub rate_limit_remaining: Option<u64>,
    /// The numeric value of `x-ratelimit-reset`, a Unix time in seconds.
    pub rate_limit_reset: Option<u64>,
}

/// The numeric value of the header `name` in a map's contents.
pub open spec fn numeric_header(values: Map<Seq<char>, Seq<u8>>, name: Seq<char>) -> Option<u64> {
    if values.dom().contains(name) {
        header_number(values[name])
    } else {
        None
    }
}

/// The retry signals of a header map.
pub open spec fn signals_of(headers: HeaderMap) -> RetrySignals {
    let values = header_first_values(headers);
    RetrySignals {
        retry_after_present: values.dom().contains("retry-after"@),
        retry_after_secs: numeric_header(values, "retry-after"@),
        rate_limit_remaining: numeric_header(values, "x-ratelimit-remaining"@),
        rate_limit_reset: numeric_header(values, "x-ratelimit-reset"@),
    }
}

/// `1 << min(attempt, 6)`: 1s, 2s, 4s, 8s, 16s, 32s, then 64s.
pub open spec fn backoff_spec(attempt: u32) -> u64 {
    if attempt < 6 {
        pow2(attempt as nat) as u64
    } else {
        64
    }
}

/// GitHub signals primary rate limits with `x-ratelimit-remaining: 0` and
/// secondary rate limits with a `retry-after` header, both under 403 or 429.
pub open spec fn is_rate_limited(status: u16, signals: RetrySignals) -> bool {
    status == 429 || (status == 403 && (signals.rate_limit_remaining == Some(0u64)
        || signals.retry_after_present))
}

/// A 5xx status.
pub open spec fn is_server_error(status: u16) -> bool {
    500 <= status && status <= 599
}

/// A wait clamped to [1, `MAX_BACKOFF_SECS`] seconds.
pub open spec fn clamp_delay(secs: u64) -> u64 {
    if secs < 1 {
        1
    } else if secs > MAX_BACKOFF_SECS {
        MAX_BACKOFF_SECS
    } else {
        secs
    }
}

/// The wait before retrying: `retry-after` first, then the time left until
/// the rate-limit reset, then exponential backoff; clamped to [1, 60].
pub open spec fn retry_delay_spec(
    status: u16,
    signals: RetrySignals,
    attempt: u32,
    now_unix: u64,
) -> Option<u64> {
    if attempt >= MAX_RETRIES || !(is_rate_limited(status, signals) || is_server_error(status)) {
        None
    } else {
        let secs = match signals.retry_after_secs {
            Some(s) => s,
            None => match signals.rate_limit_reset {
                Some(reset) => if reset > now_unix {
                    (reset - now_unix) as u64
                } else {
                    0
                },
                None => backoff_spec(attempt),
            },
        };
        Some(clamp_delay(secs))
    }
}

/// The wait before retrying after a transport failure: backoff for timeouts
/// and connection failures while retries remain.
pub open spec fn transport_retry_spec(transient: bool, attempt: u32) -> Option<u64> {
    if transient && attempt < MAX_RETRIES {
        Some(backoff_spec(attempt))
    } else {
        None
    }
}

/// Exponential backoff for an attempt: `1 << attempt.min(6)`.
pub fn backoff_secs(attempt: u32) -> (res: u64)
    ensures
        res == backoff_spec(attempt),
        1 <= res <= 64,
{
    let exp: u32 = if attempt < 6 {
        attempt
    } else {
        6
    };
    let res = 1u64 << exp;
    proof {
        lemma2_to64();
        assert(exp <= 6 ==> (1u64 << exp) == if exp == 0 {
            1u64
        } else if exp == 1 {
            2u64
        } else if exp == 2 {
            4u64
        } else if exp == 3 {
            8u64
        } else if exp == 4 {
            16u64
        } else if exp == 5 {
            32u64
        } else {
            64u64
        }) by (bit_vector);
    }
    res
}

/// Reads the retry signals from a response's headers.
pub fn read_retry_signals(headers: &HeaderMap) -> (res: RetrySignals)
    ensures
        res == signals_of(*headers),
{
    proof {
        reveal_strlit("retry-after");
        reveal_strlit("x-ratelimit-remaining");
        reveal_strlit("x-ratelimit-reset");
    }
    let retry_after_present = header_present(headers, "retry-after");
    let retry_after_secs = match header_value_bytes(headers, "retry-after") {
        Some(v) => parse_header_number(v.as_slice()),
        None => None,
    };
    let rate_limit_remaining = match header_value_bytes(headers, "x-ratelimit-remaining") {
        Some(v) => parse_header_number(v.as_slice()),
        None => None,
    };
    let rate_limit_reset = match header_value_bytes(headers, "x-ratelimit-reset") {
        Some(v) => parse_header_number(v.as_slice()),
        None => None,
    };
    RetrySignals { retry_after_present, retry_after_secs, rate_limit_remaining, rate_limit_reset }
}

/// Decides whether a response should be retried and, if so, how many seconds
/// to wait first. `None` means the response is handed to the caller as-is.
pub fn retry_delay_secs(status: u16, signals: &RetrySignals, attempt: u32, now_unix: u64) -> (res:
    Option<u64>)
    ensures
        res == retry_delay_spec(status, *signals, attempt, now_unix),
        res matches Some(s) ==> 1 <= s <= MAX_BACKOFF_SECS,
{
    if attempt >= MAX_RETRIES {
        return None;
    }
    let exhausted = match signals.rate_limit_remaining {
        Some(r) => r == 0,
        None => false,
    };
    let rate_limited = status == 429 || (status == 403 && (exhausted
        || signals.retry_after_present));
    if !rate_limited && !(500 <= status && status <= 599) {
        return None;
    }
    let secs = match signals.retry_after_secs {
        Some(s) => s,
        None => match signals.rate_limit_reset {
            Some(reset) => reset.saturating_sub(now_unix),
            None => backoff_secs(attempt),
        },
    };
    let clamped = if secs < 1 {
        1
    } else if secs > MAX_BACKOFF_SECS {
        MAX_BACKOFF_SECS
    } else {
        secs
    };
    Some(clamped)
}

/// Decides whether a response should be retried and, if so, how long to wait.
///
/// Returns `Some(delay)` for transient GitHub failures that are safe to retry
/// (primary/secondary rate limits or 5xx), and `None` when the caller should
/// surface the response as-is.
pub fn retry_delay_for(status: u16, headers: &HeaderMap, attempt: u32, now_unix: u64) -> (res:
    Option<Duration>)
    ensures
        res == match retry_delay_spec(status, signals_of(*headers), attempt, now_unix) {
            Some(s) => Some(duration_of_secs(s)),
            None => None,
        },
        res matches Some(d) ==> duration_secs(d) == retry_delay_spec(
            status,
            signals_of(*headers),
            attempt,
            now_unix,
        )->0,
{
    let signals = read_retry_signals(headers);
    match retry_delay_secs(status, &signals, attempt, now_unix) {
        Some(secs) => Some(duration_from_secs(secs)),
        None => None,
    }
}

/// Decides whether a request that failed in transport (`transient` when it
/// timed out or could not connect) is sent again, and after how long.
pub fn transport_retry_delay(transient: bool, attempt: u32) -> (res: Option<Duration>)
    ensures
        res == match transport_retry_spec(transient, attempt) {
            Some(s) => Some(duration_of_secs(s)),
            None => None,
        },
        res matches Some(d) ==> duration_secs(d) == transport_retry_spec(transient, attempt)->0,
{
    if transient && attempt < MAX_RETRIES {
        Some(duration_from_secs(backoff_secs(attempt)))
    } else {
        None
    }
}

// ---------------------------------------------------------------------------
// Laws
// ---------------------------------------------------------------------------

/// Once `MAX_RETRIES` retries have been made, no response and no transport
/// failure leads to another attempt: a request is sent at most
/// `MAX_RETRIES + 1` times.
pub proof fn retries_stop_at_the_limit(
    status: u16,
    signals: RetrySignals,
    transient: bool,
    attempt: u32,
    now_unix: u64,
)
    requires
        attempt >= MAX_RETRIES,
    ensures
        retry_delay_spec(status, signals, attempt, now_unix) is None,
        transport_retry_spec(transient, attempt) is None,
{
}

/// Only rate limits and server errors are retried: successes, redirects,
/// client errors and a plain permission failure (403 without a rate-limit
/// signal) are handed back at once.
pub proof fn only_transient_responses_are_retried(
    status: u16,
    signals: RetrySignals,
    attempt: u32,
    now_unix: u64,
)
    ensures
        retry_delay_spec(status, signals, attempt, now_unix) is Some ==> status == 429 || (status
            == 403 && (signals.rate_limit_remaining == Some(0u64) || signals.retry_after_present))
            || (500 <= status <= 599),
{
}

/// Every wait lies between one second and `MAX_BACKOFF_SECS`, whatever the
/// server asks for; a wait after a transport failure is at most 8 seconds.
pub proof fn waits_are_bounded(
    status: u16,
    signals: RetrySignals,
    transient: bool,
    attempt: u32,
    now_unix: u64,
)
    ensures
        retry_delay_spec(status, signals, attempt, now_unix) matches Some(s) ==> 1 <= s
            <= MAX_BACKOFF_SECS,
        transport_retry_spec(transient, attempt) matches Some(s) ==> 1 <= s <= 8,
{
    lemma2_to64();
}

/// Explicit server guidance wins: a retryable response with a numeric
/// `retry-after` waits exactly that long, clamped to [1, 60].
pub proof fn retry_after_is_honoured(status: u16, signals: RetrySignals, attempt: u32, now_unix: u64)
    requires
        attempt < MAX_RETRIES,
        is_rate_limited(status, signals) || is_server_error(status),
        signals.retry_after_secs is Some,
    ensures
        retry_delay_spec(status, signals, attempt, now_unix) == Some(
            clamp_delay(signals.retry_after_secs->0),
        ),
{
}

/// Backoff doubles from one attempt to the next until it reaches 64 seconds.
pub proof fn backoff_doubles(attempt: u32)
    requires
        attempt < 6,
    ensures
        backoff_spec((attempt + 1) as u32) == if attempt < 5 {
            2 * backoff_spec(attempt)
        } else {
            64
        },
{
    lemma2_to64();
}

/// A retryable response without a numeric `retry-after` but with a numeric
/// `x-ratelimit-reset` waits until the reset: the seconds left to it, at
/// least one second and at most a minute, however far away the reset lies. A
/// reset a minute or more away always gives a one-minute wait; one already
/// past gives a one-second wait.
pub proof fn rate_limit_reset_is_waited_for(
    status: u16,
    signals: RetrySignals,
    attempt: u32,
    now_unix: u64,
    reset: u64,
)
    requires
        attempt < 4,
        status == 429 || (status == 403 && (signals.rate_limit_remaining == Some(0u64)
            || signals.retry_after_present)) || (500 <= status && status <= 599),
        signals.retry_after_secs is None,
        signals.rate_limit_reset == Some(reset),
    ensures
        retry_delay_spec(status, signals, attempt, now_unix) == Some(
            if reset <= now_unix + 1 {
                1u64
            } else if reset >= now_unix + 60 {
                60u64
            } else {
                (reset - now_unix) as u64
            },
        ),
        reset >= now_unix + 60 ==> retry_delay_spec(status, signals, attempt, now_unix) == Some(
            60u64,
        ),
{
}

/// Without timing headers a retryable response waits 1, 2, 4 and then 8
/// seconds on the successive attempts, and every retryable response is
/// retried while retries remain.
pub proof fn backoff_without_timing_headers(status: u16, signals: RetrySignals, attempt: u32, now_unix: u64)
    requires
        attempt < 4,
        status == 429 || (status == 403 && (signals.rate_limit_remaining == Some(0u64)
            || signals.retry_after_present)) || (500 <= status && status <= 599),
        signals.retry_after_secs is None,
        signals.rate_limit_reset is None,
    ensures
        retry_delay_spec(status, signals, attempt, now_unix) == Some(
            if attempt == 0 {
                1u64
            } else if attempt == 1 {
                2u64
            } else if attempt == 2 {
                4u64
            } else {
                8u64
            },
        ),
{
    lemma2_to64();
}

} // verus!

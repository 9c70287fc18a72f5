//! What a storage backend reports: listed items, errors, which errors are
//! worth retrying, and the retry schedule.
use vstd::prelude::*;
use crate::numbers::{dec, decimal, parse_u64, spec_parse_u64};
use crate::state::{ck, Timestamp};
use crate::text::{concat_str, contains_seq, contains_str, trim_ws, trim_ws_str};

verus! {

/// Metadata of one remote entry, as a listing returns it.
#[derive(Debug, Clone)]
pub struct StorageItem {
    /// Path of the entry relative to the backend's root.
    pub path: String,
    /// Size in bytes (0 for directories).
    pub size: u64,
    /// Last modification, in nanoseconds since the Unix epoch.
    pub modified: Timestamp,
    pub is_dir: bool,
    /// Provider checksum, when the listing has one.
    pub checksum: Option<String>,
}

/// Errors of storage operations.
#[derive(Debug, Clone)]
pub enum StorageError {
    /// A local I/O failure, with its description.
    Io(String),
    Authentication(String),
    NotFound(String),
    /// The provider throttled the request; `retry_after` is the delay it asked
    /// for, in seconds.
    RateLimit { message: String, retry_after: Option<u64> },
    /// The provider's API refused the request.
    Provider { message: String, status: Option<u16> },
    /// The HTTP client failed: its description, whether it timed out or could
    /// not connect, and the HTTP status it carries, if any.
    Http { message: String, timeout: bool, connect: bool, status: Option<u16> },
    AuthenticationExpired(String),
    Conflict(String),
    ConnectionFailed(String),
}

pub enum StorageErrorView {
    Io(Seq<char>),
    Authentication(Seq<char>),
    NotFound(Seq<char>),
    RateLimit { message: Seq<char>, retry_after: Option<u64> },
    Provider { message: Seq<char>, status: Option<u16> },
    Http { message: Seq<char>, timeout: bool, connect: bool, status: Option<u16> },
    AuthenticationExpired(Seq<char>),
    Conflict(Seq<char>),
    ConnectionFailed(Seq<char>),
}

impl View for StorageError {
    type V = StorageErrorView;

    open spec fn view(&self) -> StorageErrorView {
        match self {
            StorageError::Io(m) => StorageErrorView::Io(m@),
            StorageError::Authentication(m) => StorageErrorView::Authentication(m@),
            StorageError::NotFound(m) => StorageErrorView::NotFound(m@),
            StorageError::RateLimit { message, retry_after } => StorageErrorView::RateLimit {
                message: message@,
                retry_after: *retry_after,
            },
            StorageError::Provider { message, status } => StorageErrorView::Provider {
                message: message@,
                status: *status,
            },
            StorageError::Http { message, timeout, connect, status } => StorageErrorView::Http {
                message: message@,
                timeout: *timeout,
                connect: *connect,
                status: *status,
            },
            StorageError::AuthenticationExpired(m) => StorageErrorView::AuthenticationExpired(m@),
            StorageError::Conflict(m) => StorageErrorView::Conflict(m@),
            StorageError::ConnectionFailed(m) => StorageErrorView::ConnectionFailed(m@),
        }
    }
}

/// Whether an HTTP status is a server error (5xx).
pub open spec fn is_server_error(s: u16) -> bool {
    500 <= s <= 599
}

/// Errors that may go away by themselves: throttling, timeouts, failed
/// connections, `429` and server errors.
pub open spec fn spec_is_transient(e: StorageErrorView) -> bool {
    match e {
        StorageErrorView::RateLimit { .. } => true,
        StorageErrorView::Http { timeout, connect, status, .. } => timeout || connect || match status {
            Some(s) => s == 429 || is_server_error(s),
            None => false,
        },
        StorageErrorView::Provider { message, status } => match status {
            Some(c) => c == 429 || c == 502 || c == 503 || c == 504,
            None => contains_seq(message, "429"@) || contains_seq(message, "503"@)
                || contains_seq(message, "504"@) || contains_seq(message, "502"@),
        },
        _ => false,
    }
}

/// Whether an error is transient and the operation worth retrying.
pub fn is_transient_error(err: &StorageError) -> (b: bool)
    ensures
        b == spec_is_transient(err@),
{
    match err {
        StorageError::RateLimit { .. } => true,
        StorageError::Http { timeout, connect, status, .. } => {
            if *timeout || *connect {
                return true;
            }
            match status {
                Some(s) => *s == 429 || (500 <= *s && *s <= 599),
                None => false,
            }
        },
        StorageError::Provider { message, status } => match status {
            Some(c) => *c == 429 || *c == 502 || *c == 503 || *c == 504,
            None => {
                contains_str(message.as_str(), "429") || contains_str(message.as_str(), "503")
                    || contains_str(message.as_str(), "504") || contains_str(message.as_str(), "502")
            },
        },
        _ => false,
    }
}

/// The reason phrase `http::StatusCode::canonical_reason` gives a code, or
/// `<unknown status code>` for a code without one.
pub uninterp spec fn status_reason(code: u16) -> Seq<char>;

/// `reqwest::StatusCode::from_u16(code)` rendered with `Display`: the code in
/// decimal, a space, and its reason phrase. `from_u16` accepts exactly the
/// codes from 100 to 999.
#[verifier::external_body]
fn status_line(code: u16) -> (s: String)
    requires
        100 <= code <= 999,
    ensures
        s@ == dec(code as nat) + " "@ + status_reason(code),
{
    match reqwest::StatusCode::from_u16(code) {
        Ok(c) => c.to_string(),
        Err(_) => String::new(),
    }
}

/// The delay a `Retry-After` header asks for, when it is a number of seconds.
pub open spec fn retry_after_secs(header: Option<Seq<char>>) -> Option<u64> {
    match header {
        Some(h) => spec_parse_u64(h),
        None => None,
    }
}

/// What an error response is reported as: the body, or the status line when
/// the body is blank.
pub open spec fn response_detail(code: u16, body: Seq<char>) -> Seq<char> {
    if trim_ws(body).len() == 0 {
        dec(code as nat) + " "@ + status_reason(code)
    } else {
        body
    }
}

/// The error an unsuccessful response maps to.
pub open spec fn spec_response_error(
    code: u16,
    retry_after: Option<Seq<char>>,
    body: Seq<char>,
    provider: Seq<char>,
    action: Seq<char>,
) -> StorageErrorView {
    let detail = response_detail(code, body);
    if code == 429 {
        StorageErrorView::RateLimit {
            message: "Rate limit exceeded on "@ + provider + ": "@ + detail,
            retry_after: retry_after_secs(retry_after),
        }
    } else if code == 404 {
        StorageErrorView::NotFound("Resource not found on "@ + provider + ": "@ + detail)
    } else {
        StorageErrorView::Provider {
            message: "Failed to "@ + action + " on "@ + provider + ": "@ + detail,
            status: Some(code),
        }
    }
}

pub open spec fn opt_view(o: Option<&str>) -> Option<Seq<char>> {
    match o {
        Some(s) => Some(s@),
        None => None,
    }
}

/// Maps an unsuccessful API response (its status, `Retry-After` header and
/// body) to a storage error: `429` is throttling, `404` a missing resource,
/// anything else a provider error carrying the status.
pub fn parse_response_error(
    status: u16,
    retry_after: Option<&str>,
    body: &str,
    provider_name: &str,
    action: &str,
) -> (e: StorageError)
    requires
        100 <= status <= 999,
    ensures
        e@ == spec_response_error(status, opt_view(retry_after), body@, provider_name@, action@),
{
    let secs = match retry_after {
        Some(h) => parse_u64(h),
        None => None,
    };
    let trimmed = trim_ws_str(body);
    let detail = if crate::text::chars_of(trimmed.as_str()).len() == 0 { status_line(status) } else { body.to_owned() };
    if status == 429 {
        let m = concat_str("Rate limit exceeded on ", provider_name);
        let m = concat_str(m.as_str(), ": ");
        let m = concat_str(m.as_str(), detail.as_str());
        StorageError::RateLimit { message: m, retry_after: secs }
    } else if status == 404 {
        let m = concat_str("Resource not found on ", provider_name);
        let m = concat_str(m.as_str(), ": ");
        let m = concat_str(m.as_str(), detail.as_str());
        StorageError::NotFound(m)
    } else {
        let m = concat_str("Failed to ", action);
        let m = concat_str(m.as_str(), " on ");
        let m = concat_str(m.as_str(), provider_name);
        let m = concat_str(m.as_str(), ": ");
        let m = concat_str(m.as_str(), detail.as_str());
        StorageError::Provider { message: m, status: Some(status) }
    }
}

/// `{:?}` of an optional status: `Some(code)` or `None`.
pub open spec fn status_debug(s: Option<u16>) -> Seq<char> {
    match s {
        Some(c) => "Some("@ + dec(c as nat) + ")"@,
        None => "None"@,
    }
}

/// The human-readable description of an error.
pub open spec fn describe_text(e: StorageErrorView) -> Seq<char> {
    match e {
        StorageErrorView::Io(m) => "I/O error occurred: "@ + m,
        StorageErrorView::Authentication(m) => "Authentication failed: "@ + m,
        StorageErrorView::NotFound(m) => "Resource not found: "@ + m,
        StorageErrorView::RateLimit { message, .. } => "Rate limit exceeded. Try again later: "@ + message,
        StorageErrorView::Provider { message, status } =>
            "Storage provider error: "@ + message + " (status: "@ + status_debug(status) + ")"@,
        StorageErrorView::Http { message, .. } => "HTTP client error: "@ + message,
        StorageErrorView::AuthenticationExpired(m) => "Authentication expired: "@ + m,
        StorageErrorView::Conflict(m) => "Conflict: "@ + m,
        StorageErrorView::ConnectionFailed(m) => "Connection failed: "@ + m,
    }
}

impl StorageError {
    /// The human-readable description of the error.
    pub fn describe(&self) -> (s: String)
        ensures
            s@ == describe_text(self@),
    {
        match self {
            StorageError::Io(m) => concat_str("I/O error occurred: ", m.as_str()),
            StorageError::Authentication(m) => concat_str("Authentication failed: ", m.as_str()),
            StorageError::NotFound(m) => concat_str("Resource not found: ", m.as_str()),
            StorageError::RateLimit { message, .. } => concat_str(
                "Rate limit exceeded. Try again later: ",
                message.as_str(),
            ),
            StorageError::Provider { message, status } => {
                let s = concat_str("Storage provider error: ", message.as_str());
                let s = concat_str(s.as_str(), " (status: ");
                let st = match status {
                    Some(c) => {
                        let t = concat_str("Some(", decimal(*c as u64).as_str());
                        concat_str(t.as_str(), ")")
                    },
                    None => "None".to_owned(),
                };
                let s = concat_str(s.as_str(), st.as_str());
                concat_str(s.as_str(), ")")
            },
            StorageError::Http { message, .. } => concat_str("HTTP client error: ", message.as_str()),
            StorageError::AuthenticationExpired(m) => concat_str("Authentication expired: ", m.as_str()),
            StorageError::Conflict(m) => concat_str("Conflict: ", m.as_str()),
            StorageError::ConnectionFailed(m) => concat_str("Connection failed: ", m.as_str()),
        }
    }
}

} // verus!

verus! {

/// How many times an operation is tried in all.
pub const MAX_ATTEMPTS: u32 = 5;

/// Progress of an operation under retry.
#[derive(Debug, Clone, Copy, PartialEq, Eq, Structural)]
pub struct RetryState {
    /// Retries made so far.
    pub attempt: u32,
    /// The pause before the first retry, in milliseconds.
    pub initial_delay_ms: u32,
}

/// What to do after a failed try.
#[derive(Debug, Clone, Copy, PartialEq, Eq, Structural)]
pub enum RetryDecision {
    /// Wait this many milliseconds, then try again.
    Retry { wait_ms: u128 },
    /// Report the error.
    GiveUp,
}

/// The default pause before retry number `attempt + 1`: the initial delay,
/// doubled after every retry.
pub open spec fn backoff_ms(initial: u32, attempt: nat) -> nat
    decreases attempt,
{
    if attempt == 0 { initial as nat } else { 2 * backoff_ms(initial, (attempt - 1) as nat) }
}

/// The decision on a failure: transient errors are retried while fewer than
/// `MAX_ATTEMPTS` tries were made; the pause is what a throttling response
/// asked for, else the doubling default.
pub open spec fn spec_retry(st: RetryState, e: StorageErrorView) -> RetryDecision {
    if spec_is_transient(e) && st.attempt + 1 < MAX_ATTEMPTS {
        match e {
            StorageErrorView::RateLimit { retry_after: Some(secs), .. } => RetryDecision::Retry {
                wait_ms: (secs * 1000) as u128,
            },
            _ => RetryDecision::Retry { wait_ms: backoff_ms(st.initial_delay_ms, st.attempt as nat) as u128 },
        }
    } else {
        RetryDecision::GiveUp
    }
}

impl RetryState {
    /// A fresh operation, with the pause before its first retry.
    pub fn new(initial_delay_ms: u32) -> (s: RetryState)
        ensures
            s.attempt == 0,
            s.initial_delay_ms == initial_delay_ms,
    {
        RetryState { attempt: 0, initial_delay_ms }
    }
}

fn default_backoff(initial: u32, attempt: u32) -> (ms: u128)
    requires
        attempt < MAX_ATTEMPTS,
    ensures
        ms == backoff_ms(initial, attempt as nat),
{
    let mut ms: u128 = initial as u128;
    let mut k: u32 = 0;
    while k < attempt
        invariant
            k <= attempt < MAX_ATTEMPTS,
            ms == backoff_ms(initial, k as nat),
            ms <= (initial as u128) * 16,
        decreases attempt - k,
    {
        assert(backoff_ms(initial, (k + 1) as nat) == 2 * backoff_ms(initial, k as nat));
        proof { lemma_backoff_bound(initial, (k + 1) as nat); }
        ms = ms * 2;
        k = k + 1;
    }
    ms
}

proof fn lemma_backoff_bound(initial: u32, attempt: nat)
    requires
        attempt <= 4,
    ensures
        backoff_ms(initial, attempt) <= (initial as nat) * 16,
    decreases attempt,
{
    if attempt > 0 {
        lemma_backoff_bound(initial, (attempt - 1) as nat);
        reveal_with_fuel(backoff_ms, 5);
        if attempt == 1 {
            assert(backoff_ms(initial, 1) == 2 * (initial as nat));
        } else if attempt == 2 {
            assert(backoff_ms(initial, 2) == 4 * (initial as nat));
        } else if attempt == 3 {
            assert(backoff_ms(initial, 3) == 8 * (initial as nat));
        } else {
            assert(backoff_ms(initial, 4) == 16 * (initial as nat));
        }
    }
}

/// Decides what follows a failed try, and counts the retry.
pub fn next_retry(state: &mut RetryState, err: &StorageError) -> (d: RetryDecision)
    requires
        old(state).attempt < MAX_ATTEMPTS,
    ensures
        d == spec_retry(*old(state), err@),
        d is Retry ==> *final(state) == (RetryState { attempt: (old(state).attempt + 1) as u32, ..*old(state) }),
        d is GiveUp ==> *final(state) == *old(state),
        final(state).attempt < MAX_ATTEMPTS,
{
    if is_transient_error(err) && state.attempt + 1 < MAX_ATTEMPTS {
        let wait_ms: u128 = match err {
            StorageError::RateLimit { retry_after: Some(secs), .. } => (*secs as u128) * 1000,
            _ => default_backoff(state.initial_delay_ms, state.attempt),
        };
        state.attempt = state.attempt + 1;
        RetryDecision::Retry { wait_ms }
    } else {
        RetryDecision::GiveUp
    }
}

/// An error that is not transient is reported at once, without a retry.
pub proof fn law_permanent_errors_are_not_retried(st: RetryState, e: StorageErrorView)
    requires
        !spec_is_transient(e),
    ensures
        spec_retry(st, e) == RetryDecision::GiveUp,
{
}

/// An operation is tried at most `MAX_ATTEMPTS` times: the fourth retry is
/// the last one, whatever the error.
pub proof fn law_tries_are_bounded(st: RetryState, e: StorageErrorView)
    requires
        st.attempt + 1 >= MAX_ATTEMPTS,
    ensures
        spec_retry(st, e) == RetryDecision::GiveUp,
{
}

/// Without an explicit delay from the provider, the pauses double: the pause
/// before retry `k + 1` is the initial delay times two to the power `k`.
pub proof fn law_backoff_doubles(initial: u32, k: nat)
    ensures
        backoff_ms(initial, k + 1) == 2 * backoff_ms(initial, k),
        backoff_ms(initial, 0) == initial,
{
}

} // verus!

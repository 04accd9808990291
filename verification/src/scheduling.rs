//! Scheduling providers: their error type and retry policy, the data they
//! return, and the table that maps a provider name to a provider.
use vstd::prelude::*;
use std::time::Duration;
use crate::text::{decimal_string, decimal_text, join2, join4, parse_u64, parse_u64_spec, str_eq};

verus! {

broadcast use vstd::string::group_string_axioms;

/// `Duration` is `Copy`; its `clone` returns the same value.
pub assume_specification[ <Duration as Clone>::clone ](d: &Duration) -> (r: Duration)
    ensures
        r == *d,
;

/// Error types for scheduling provider operations.
#[derive(Debug, Clone, PartialEq)]
pub enum ProviderError {
    /// HTTP error from the scheduler API (4xx/5xx).
    HttpError { status: u16, body: String },
    /// Rate limit hit (429); how long to wait before retrying.
    RateLimit(Duration),
    /// Network error (connection refused, timeout, DNS failure).
    NetworkError(String),
    /// Authentication error (invalid API key).
    AuthError(String),
    /// Operation not supported by this provider.
    NotSupported(String),
    /// Instance domain is invalid (e.g. resolves to a private IP).
    InvalidInstance(String),
    /// Unknown error.
    Unknown(String),
}

/// Transient errors that are safe to retry: network failures, rate limits and
/// server errors (5xx). Unknown errors are not retried: the request may have
/// succeeded on the provider's side, and a retry would duplicate the post.
pub open spec fn retryable(e: ProviderError) -> bool {
    match e {
        ProviderError::NetworkError(_) => true,
        ProviderError::RateLimit(_) => true,
        ProviderError::HttpError { status, .. } => status >= 500,
        _ => false,
    }
}

/// Renders a `Duration` as `{:?}` does.
#[verifier::external_body]
fn duration_debug_string(d: &Duration) -> String {
    format!("{:?}", d)
}

/// The user-facing text of an error, leaving aside the rendering of a
/// rate-limit duration.
pub open spec fn provider_error_text(e: ProviderError, duration_text: Seq<char>) -> Seq<char> {
    match e {
        ProviderError::HttpError { status, body } => "HTTP error "@ + decimal_text(status as nat)
            + ": "@ + body@,
        ProviderError::RateLimit(_) => "Rate limit hit, retry after "@ + duration_text,
        ProviderError::NetworkError(m) => "Network error: "@ + m@,
        ProviderError::AuthError(m) => "Authentication error: "@ + m@,
        ProviderError::NotSupported(m) => "Operation not supported: "@ + m@,
        ProviderError::InvalidInstance(m) => "Invalid instance: "@ + m@,
        ProviderError::Unknown(m) => "Unknown error: "@ + m@,
    }
}

impl ProviderError {
    /// Whether the error is transient and the request may be retried.
    pub fn is_retryable(&self) -> (r: bool)
        ensures
            r == retryable(*self),
    {
        match self {
            ProviderError::NetworkError(_) => true,
            ProviderError::RateLimit(_) => true,
            ProviderError::HttpError { status, .. } => *status >= 500,
            _ => false,
        }
    }

    /// The user-facing message for this error.
    pub fn to_message(&self) -> (s: String)
        ensures
            !(*self is RateLimit) ==> s@ == provider_error_text(*self, Seq::empty()),
            *self is RateLimit ==> s@ == provider_error_text(*self, s@.skip(28)),
    {
        proof {
            reveal_strlit("Rate limit hit, retry after ");
        }
        match self {
            ProviderError::HttpError { status, body } => {
                let code = decimal_string(*status as u128);
                join4("HTTP error ", code.as_str(), ": ", body.as_str())
            },
            ProviderError::RateLimit(d) => {
                let shown = duration_debug_string(d);
                let s = join2("Rate limit hit, retry after ", shown.as_str());
                proof {
                    assert(s@.skip(28) =~= shown@);
                }
                s
            },
            ProviderError::NetworkError(m) => join2("Network error: ", m.as_str()),
            ProviderError::AuthError(m) => join2("Authentication error: ", m.as_str()),
            ProviderError::NotSupported(m) => join2("Operation not supported: ", m.as_str()),
            ProviderError::InvalidInstance(m) => join2("Invalid instance: ", m.as_str()),
            ProviderError::Unknown(m) => join2("Unknown error: ", m.as_str()),
        }
    }
}

/// Scheduler profile (social media account connected to the scheduler).
#[derive(Debug, Clone, PartialEq)]
pub struct SchedulerProfile {
    pub id: String,
    pub name: String,
    pub platforms: Vec<String>,
}

/// Engagement metrics for a post.
#[derive(Debug, Clone, PartialEq)]
pub struct Engagement {
    pub likes: u64,
    pub reposts: u64,
    pub replies: u64,
    pub impressions: Option<u64>,
    /// Public URL of the post, if the provider returned it.
    pub platform_url: Option<String>,
}

/// Result of scheduling a post.
#[derive(Debug, Clone)]
pub struct PostScheduleResult {
    /// Scheduler-internal post ID (kept for cancellation and engagement lookup).
    pub scheduler_id: String,
    /// Public URL of the post on the platform, if the provider returned it.
    pub platform_url: Option<String>,
}

// ── Retry-After ──────────────────────────────────────────────────────────────
/// Seconds to wait when a `Retry-After` header is absent or unparseable.
pub const DEFAULT_RETRY_AFTER_SECS: u64 = 60;

/// Longest wait honoured from a `Retry-After` header.
pub const MAX_RETRY_AFTER_SECS: u64 = 3600;

pub open spec fn retry_after_secs(header: Option<Seq<char>>) -> u64 {
    let parsed = match header {
        Some(h) => match parse_u64_spec(h) {
            Some(v) => v,
            None => DEFAULT_RETRY_AFTER_SECS,
        },
        None => DEFAULT_RETRY_AFTER_SECS,
    };
    if parsed < MAX_RETRY_AFTER_SECS {
        parsed
    } else {
        MAX_RETRY_AFTER_SECS
    }
}

pub open spec fn opt_str_view(o: Option<&str>) -> Option<Seq<char>> {
    match o {
        Some(s) => Some(s@),
        None => None,
    }
}

/// Seconds to wait given a raw `Retry-After` header value: the parsed number,
/// 60 when it is absent or not a number, and never more than 3600.
pub fn parse_retry_after_secs(header_value: Option<&str>) -> (r: u64)
    ensures
        r == retry_after_secs(opt_str_view(header_value)),
        r <= MAX_RETRY_AFTER_SECS,
{
    let parsed = match header_value {
        Some(s) => match parse_u64(s) {
            Some(v) => v,
            None => DEFAULT_RETRY_AFTER_SECS,
        },
        None => DEFAULT_RETRY_AFTER_SECS,
    };
    if parsed < MAX_RETRY_AFTER_SECS {
        parsed
    } else {
        MAX_RETRY_AFTER_SECS
    }
}

// ── retry policy ─────────────────────────────────────────────────────────────
/// What to do after a failed attempt.
#[derive(Debug)]
pub enum RetryStep {
    /// Return the error to the caller.
    GiveUp,
    /// Wait for the duration the provider asked for, then try again.
    WaitFor(Duration),
    /// Wait this many seconds (exponential backoff), then try again.
    WaitSecs(u64),
}

pub open spec fn pow2(n: nat) -> nat
    decreases n,
{
    if n == 0 {
        1
    } else {
        2 * pow2((n - 1) as nat)
    }
}

/// The step the retry loop takes after its `failures + 1`-th failed attempt,
/// which failed with `err`, when it may retry at most `max_retries` times.
pub open spec fn retry_step_spec(err: ProviderError, failures: nat, max_retries: nat) -> RetryStep {
    if !retryable(err) || failures + 1 > max_retries {
        RetryStep::GiveUp
    } else {
        match err {
            ProviderError::RateLimit(d) => RetryStep::WaitFor(d),
            _ => RetryStep::WaitSecs(pow2(failures) as u64),
        }
    }
}

pub proof fn lemma_pow2_mono(a: nat, b: nat)
    requires
        a <= b,
    ensures
        pow2(a) <= pow2(b),
    decreases b,
{
    if a < b {
        lemma_pow2_mono(a, (b - 1) as nat);
    }
}

pub proof fn lemma_pow2_62()
    ensures
        pow2(62) == 0x4000_0000_0000_0000,
{
    reveal_with_fuel(pow2, 63);
}

/// Decides what the retry loop does after a failed attempt. Non-retryable
/// errors are returned at once; a rate limit waits for the provider's
/// `Retry-After`; other retryable errors back off 1 s, 2 s, 4 s, ...
/// Backoff past 2^63 seconds overflows, so the loop stops short of it.
pub fn next_retry_step(err: &ProviderError, failures: u32, max_retries: u32) -> (r: RetryStep)
    requires
        retryable(*err) && !(*err is RateLimit) && failures + 1 <= max_retries ==> failures < 64,
    ensures
        r == retry_step_spec(*err, failures as nat, max_retries as nat),
{
    if !err.is_retryable() {
        return RetryStep::GiveUp;
    }
    if failures as u64 + 1 > max_retries as u64 {
        return RetryStep::GiveUp;
    }
    match err {
        ProviderError::RateLimit(d) => RetryStep::WaitFor(*d),
        _ => {
            let mut secs: u64 = 1;
            let mut k: u32 = 0;
            while k < failures
                invariant
                    failures < 64,
                    k <= failures,
                    secs == pow2(k as nat),
                decreases failures - k,
            {
                proof {
                    lemma_pow2_mono(k as nat, 62);
                    lemma_pow2_62();
                }
                secs = secs * 2;
                k += 1;
            }
            RetryStep::WaitSecs(secs)
        },
    }
}

// ── provider table ───────────────────────────────────────────────────────────
/// The scheduling providers that can be built from a name and a credential.
#[derive(Debug, Clone, Copy, PartialEq, Eq, Structural)]
pub enum ProviderKind {
    Zernio,
    Buffer,
    Ayrshare,
    Publer,
    Outstand,
    SubstackNotes,
    UploadPost,
    Webhook,
}

/// The name under which each provider is configured.
pub open spec fn kind_name(k: ProviderKind) -> Seq<char> {
    match k {
        ProviderKind::Zernio => "zernio"@,
        ProviderKind::Buffer => "buffer"@,
        ProviderKind::Ayrshare => "ayrshare"@,
        ProviderKind::Publer => "publer"@,
        ProviderKind::Outstand => "outstand"@,
        ProviderKind::SubstackNotes => "substack_notes"@,
        ProviderKind::UploadPost => "upload_post"@,
        ProviderKind::Webhook => "webhook"@,
    }
}

/// The provider configured under `name`, if any.
pub open spec fn kind_of_name(name: Seq<char>) -> Option<ProviderKind> {
    if name == "zernio"@ {
        Some(ProviderKind::Zernio)
    } else if name == "buffer"@ {
        Some(ProviderKind::Buffer)
    } else if name == "ayrshare"@ {
        Some(ProviderKind::Ayrshare)
    } else if name == "publer"@ {
        Some(ProviderKind::Publer)
    } else if name == "outstand"@ {
        Some(ProviderKind::Outstand)
    } else if name == "substack_notes"@ {
        Some(ProviderKind::SubstackNotes)
    } else if name == "upload_post"@ {
        Some(ProviderKind::UploadPost)
    } else if name == "webhook"@ {
        Some(ProviderKind::Webhook)
    } else {
        None
    }
}

impl ProviderKind {
    /// Looks a provider up by its configured name.
    pub fn from_name(name: &str) -> (r: Option<ProviderKind>)
        ensures
            r == kind_of_name(name@),
    {
        if str_eq(name, "zernio") {
            Some(ProviderKind::Zernio)
        } else if str_eq(name, "buffer") {
            Some(ProviderKind::Buffer)
        } else if str_eq(name, "ayrshare") {
            Some(ProviderKind::Ayrshare)
        } else if str_eq(name, "publer") {
            Some(ProviderKind::Publer)
        } else if str_eq(name, "outstand") {
            Some(ProviderKind::Outstand)
        } else if str_eq(name, "substack_notes") {
            Some(ProviderKind::SubstackNotes)
        } else if str_eq(name, "upload_post") {
            Some(ProviderKind::UploadPost)
        } else if str_eq(name, "webhook") {
            Some(ProviderKind::Webhook)
        } else {
            None
        }
    }

    /// The provider's configured name.
    pub fn name(&self) -> (s: &'static str)
        ensures
            s@ == kind_name(*self),
    {
        match self {
            ProviderKind::Zernio => "zernio",
            ProviderKind::Buffer => "buffer",
            ProviderKind::Ayrshare => "ayrshare",
            ProviderKind::Publer => "publer",
            ProviderKind::Outstand => "outstand",
            ProviderKind::SubstackNotes => "substack_notes",
            ProviderKind::UploadPost => "upload_post",
            ProviderKind::Webhook => "webhook",
        }
    }
}

/// A provider chosen by name, with the credential it is built from (an API
/// key, a session cookie, or for webhooks the URL to post to).
#[derive(Debug, Clone)]
pub struct ProviderHandle {
    pub kind: ProviderKind,
    pub credential: String,
}

impl ProviderHandle {
    /// The provider's configured name.
    pub fn name(&self) -> (s: &'static str)
        ensures
            s@ == kind_name(self.kind),
    {
        self.kind.name()
    }
}

pub open spec fn unknown_provider_message(name: Seq<char>) -> Seq<char> {
    "Unknown provider: "@ + name
}

pub open spec fn unknown_scheduler_provider_message(name: Seq<char>) -> Seq<char> {
    "Unknown scheduler provider: "@ + name
}

/// Builds the provider configured under `name` with credential `api_key`;
/// an unknown name is an error.
pub fn build_provider(name: &str, api_key: String) -> (r: Result<ProviderHandle, String>)
    ensures
        match kind_of_name(name@) {
            Some(k) => r is Ok && r->Ok_0.kind == k && r->Ok_0.credential == api_key,
            None => r is Err && r->Err_0@ == unknown_provider_message(name@),
        },
{
    match ProviderKind::from_name(name) {
        Some(kind) => Ok(ProviderHandle { kind, credential: api_key }),
        None => Err(join2("Unknown provider: ", name)),
    }
}

/// As `build_provider`, with the error text of the scheduler settings.
pub fn build_scheduling_provider(name: &str, api_key: String) -> (r: Result<ProviderHandle, String>)
    ensures
        match kind_of_name(name@) {
            Some(k) => r is Ok && r->Ok_0.kind == k && r->Ok_0.credential == api_key,
            None => r is Err && r->Err_0@ == unknown_scheduler_provider_message(name@),
        },
{
    match ProviderKind::from_name(name) {
        Some(kind) => Ok(ProviderHandle { kind, credential: api_key }),
        None => Err(join2("Unknown scheduler provider: ", name)),
    }
}

} // verus!

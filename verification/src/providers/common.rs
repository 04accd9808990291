//! What every scheduling provider shares: queued posts and their preview
//! text, reading an HTTP status, reading engagement counters, and the times
//! providers report.
use vstd::prelude::*;
use std::time::Duration;
use crate::json::{filter_map_json, i64_of, lemma_filter_map_step, opt_string_view, str_of, u64_at, JsonNumber,
    JsonValue};
use crate::scheduling::{parse_retry_after_secs, retry_after_secs, opt_str_view, Engagement, PostScheduleResult,
    ProviderError, ProviderKind, SchedulerProfile};
use crate::provider_policy::{auth_failure, publer_rate_limit_secs, publer_wait_spec, status_verdict, StatusVerdict};
use crate::text::{parse_u64, parse_u64_spec, string_of_chars, to_owned_string};

verus! {

broadcast use vstd::string::group_string_axioms;

/// An instant in UTC: whole seconds since the Unix epoch and nanoseconds past
/// that second.
#[derive(Clone, Copy, Debug, PartialEq, Eq, Structural)]
pub struct UtcTime {
    pub secs: i64,
    pub nanos: u32,
}

/// A post waiting in a provider's queue.
#[derive(Clone, Debug)]
pub struct QueuedPost {
    pub post_id: String,
    pub platform: String,
    pub scheduled_for: UtcTime,
    /// The post's text, cut to 80 characters with `...` when longer.
    pub content_preview: String,
}

pub type QueuedView = (Seq<char>, Seq<char>, UtcTime, Seq<char>);

pub open spec fn queued_view(q: QueuedPost) -> QueuedView {
    (q.post_id@, q.platform@, q.scheduled_for, q.content_preview@)
}

pub open spec fn queued_views(v: Seq<QueuedPost>) -> Seq<QueuedView> {
    v.map_values(|q: QueuedPost| queued_view(q))
}

pub type ProfileView = (Seq<char>, Seq<char>, Seq<Seq<char>>);

pub open spec fn strings_view(v: Seq<String>) -> Seq<Seq<char>> {
    v.map_values(|s: String| s@)
}

pub open spec fn profile_view(p: SchedulerProfile) -> ProfileView {
    (p.id@, p.name@, strings_view(p.platforms@))
}

pub open spec fn profile_views(v: Seq<SchedulerProfile>) -> Seq<ProfileView> {
    v.map_values(|p: SchedulerProfile| profile_view(p))
}

pub open spec fn scheduled_view(r: PostScheduleResult) -> (Seq<char>, Option<Seq<char>>) {
    (r.scheduler_id@, opt_string_view(r.platform_url))
}

/// The error `Unknown(message)`, compared by its text.
pub open spec fn is_unknown_error(e: ProviderError, message: Seq<char>) -> bool {
    e matches ProviderError::Unknown(m) && m@ == message
}

/// The error `NotSupported(message)`, compared by its text.
pub open spec fn is_not_supported(e: ProviderError, message: Seq<char>) -> bool {
    e matches ProviderError::NotSupported(m) && m@ == message
}

/// The error `AuthError(message)`, compared by its text.
pub open spec fn is_auth_error(e: ProviderError, message: Seq<char>) -> bool {
    e matches ProviderError::AuthError(m) && m@ == message
}

/// The error `InvalidInstance(message)`, compared by its text.
pub open spec fn is_invalid_instance(e: ProviderError, message: Seq<char>) -> bool {
    e matches ProviderError::InvalidInstance(m) && m@ == message
}

/// The UTC instant an RFC 3339 timestamp denotes, as
/// `chrono::DateTime::parse_from_rfc3339` reads it: `(seconds, nanoseconds)`,
/// or `None` when chrono does not accept the text.
pub uninterp spec fn rfc3339_utc(s: Seq<char>) -> Option<(i64, u32)>;

pub open spec fn utc_of(p: Option<(i64, u32)>) -> Option<UtcTime> {
    match p {
        Some((secs, nanos)) => Some(UtcTime { secs, nanos }),
        None => None,
    }
}

/// Calls `chrono::DateTime::parse_from_rfc3339` and converts the result to
/// UTC seconds and nanoseconds. Which texts chrono accepts, and the calendar
/// arithmetic behind the result, are not restated here.
#[verifier::external_body]
pub(crate) fn parse_rfc3339(s: &str) -> (r: Option<UtcTime>)
    ensures
        r == utc_of(rfc3339_utc(s@)),
{
    match chrono::DateTime::parse_from_rfc3339(s) {
        Ok(dt) => {
            let u = dt.with_timezone(&chrono::Utc);
            Some(UtcTime { secs: u.timestamp(), nanos: u.timestamp_subsec_nanos() })
        },
        Err(_) => None,
    }
}

/// The first second chrono can represent: -262143-01-01T00:00:00Z.
pub const CHRONO_MIN_SECS: i64 = -8334601228800;

/// The last second chrono can represent: 262142-12-31T23:59:59Z.
pub const CHRONO_MAX_SECS: i64 = 8210266876799;

/// Whether `chrono::DateTime::from_timestamp(secs, 0)` gives an instant:
/// chrono's dates run from year -262143 to year 262142.
pub open spec fn chrono_accepts_secs(secs: i64) -> bool {
    CHRONO_MIN_SECS <= secs <= CHRONO_MAX_SECS
}

/// Whether `chrono::DateTime::from_timestamp(t.secs, t.nanos)` gives an
/// instant: the second must be in chrono's range, and the nanoseconds below
/// one second, or below two seconds on the last second of a minute (a leap
/// second).
pub open spec fn chrono_accepts(t: UtcTime) -> bool {
    &&& chrono_accepts_secs(t.secs)
    &&& (t.nanos < 1_000_000_000 || (t.nanos < 2_000_000_000 && (t.secs as int) % 86400 % 60 == 59))
}

/// Calls `chrono::DateTime::from_timestamp(secs, 0)`, which gives the instant
/// `secs` seconds after the epoch, or `None` outside chrono's range of dates
/// (`NaiveDate::MIN` to `NaiveDate::MAX`).
#[verifier::external_body]
pub(crate) fn utc_from_secs(secs: i64) -> (r: Option<UtcTime>)
    ensures
        r is Some <==> chrono_accepts_secs(secs),
        r is Some ==> r->0 == (UtcTime { secs: secs, nanos: 0 }),
{
    match chrono::DateTime::from_timestamp(secs, 0) {
        Some(dt) => Some(UtcTime { secs: dt.timestamp(), nanos: dt.timestamp_subsec_nanos() }),
        None => None,
    }
}

/// The preview of a post's text: its first 80 characters followed by `...`
/// when it has more than 80, else the whole text.
pub open spec fn preview_text(t: Seq<char>) -> Seq<char> {
    if t.len() > 80 {
        t.take(80) + "..."@
    } else {
        t
    }
}

/// The preview shown for a queued post.
pub fn content_preview(text: &str) -> (r: String)
    ensures
        r@ == preview_text(text@),
{
    let chars = crate::text::chars_of(text);
    if chars.len() > 80 {
        let mut out: Vec<char> = Vec::new();
        let mut i: usize = 0;
        while i < 80
            invariant
                0 <= i <= 80,
                chars@.len() > 80,
                out@ == chars@.take(i as int),
            decreases 80 - i,
        {
            out.push(chars[i]);
            proof {
                assert(out@ =~= chars@.take(i + 1));
            }
            i += 1;
        }
        out.push('.');
        out.push('.');
        out.push('.');
        proof {
            reveal_strlit("...");
            assert(out@ =~= chars@.take(80) + "..."@);
        }
        string_of_chars(out.as_slice())
    } else {
        to_owned_string(text)
    }
}

/// An engagement record read from `obj`: the three counters under the given
/// keys (0 when absent or not a non-negative integer) and impressions under
/// `impressions` when it is given and present.
pub open spec fn engagement_spec(
    obj: JsonValue,
    likes: Seq<char>,
    reposts: Seq<char>,
    replies: Seq<char>,
    impressions: Option<Seq<char>>,
) -> (u64, u64, u64, Option<u64>) {
    (
        match u64_at(obj, likes) {
            Some(n) => n,
            None => 0,
        },
        match u64_at(obj, reposts) {
            Some(n) => n,
            None => 0,
        },
        match u64_at(obj, replies) {
            Some(n) => n,
            None => 0,
        },
        match impressions {
            Some(k) => u64_at(obj, k),
            None => None,
        },
    )
}

pub open spec fn engagement_counts(e: Engagement) -> (u64, u64, u64, Option<u64>) {
    (e.likes, e.reposts, e.replies, e.impressions)
}

/// Reads engagement counters from `obj`; no platform URL.
pub fn engagement_from(obj: &JsonValue, likes: &str, reposts: &str, replies: &str, impressions: Option<&str>) -> (r:
    Engagement)
    ensures
        engagement_counts(r) == engagement_spec(*obj, likes@, reposts@, replies@, opt_str_view(impressions)),
        r.platform_url is None,
{
    let l = match obj.u64_field(likes) {
        Some(n) => n,
        None => 0,
    };
    let rp = match obj.u64_field(reposts) {
        Some(n) => n,
        None => 0,
    };
    let rl = match obj.u64_field(replies) {
        Some(n) => n,
        None => 0,
    };
    let imp = match impressions {
        Some(k) => obj.u64_field(k),
        None => None,
    };
    Engagement { likes: l, reposts: rp, replies: rl, impressions: imp, platform_url: None }
}

/// Seconds to wait after a 429 from provider `kind`: Publer sends the Unix
/// time its limit resets (`X-RateLimit-Reset`, read against `now_secs`); the
/// others send `Retry-After` in seconds.
pub open spec fn rate_limit_wait_spec(
    kind: ProviderKind,
    retry_after: Option<Seq<char>>,
    rate_limit_reset: Option<Seq<char>>,
    now_secs: u64,
) -> u64 {
    match kind {
        ProviderKind::Publer => publer_wait_spec(
            match rate_limit_reset {
                Some(h) => parse_u64_spec(h),
                None => None,
            },
            now_secs,
        ),
        _ => retry_after_secs(retry_after),
    }
}

/// How long provider `kind` asks to wait after a 429.
pub fn rate_limit_wait_secs(
    kind: ProviderKind,
    retry_after: Option<&str>,
    rate_limit_reset: Option<&str>,
    now_secs: u64,
) -> (r: u64)
    ensures
        r == rate_limit_wait_spec(kind, opt_str_view(retry_after), opt_str_view(rate_limit_reset), now_secs),
        1 <= r <= 3600 || !(kind is Publer),
        r <= 3600,
{
    match kind {
        ProviderKind::Publer => {
            let reset = match rate_limit_reset {
                Some(h) => parse_u64(h),
                None => None,
            };
            publer_rate_limit_secs(reset, now_secs)
        },
        _ => parse_retry_after_secs(retry_after),
    }
}

/// The error a response status means for provider `kind`, before its body
/// is read: a refused credential, a rate limit (waiting `wait`), or none.
pub open spec fn check_matches(r: Result<(), ProviderError>, kind: ProviderKind, status: u16, wait: Duration) -> bool {
    match auth_failure(kind, status) {
        Some(m) => r matches Err(ProviderError::AuthError(msg)) && msg@ == m,
        None => if status == 429 {
            r == Err::<(), ProviderError>(ProviderError::RateLimit(wait))
        } else {
            r is Ok
        },
    }
}

/// Which statuses each provider refuses as a bad credential, and with what
/// message (see `refusal_table_holds`), as the error a status check gives;
/// 429 is a rate limit and any other status passes.
pub open spec fn refusal_result_table(r: Result<(), ProviderError>, kind: ProviderKind, status: u16, wait: Duration) -> bool {
    &&& (kind is Outstand && (status == 401 || status == 403)) ==> (r matches Err(ProviderError::AuthError(m))
        && m@ == "Invalid Outstand API key"@)
    &&& (kind is SubstackNotes && (status == 401 || status == 403)) ==> (r matches Err(ProviderError::AuthError(m))
        && m@ == "Substack session expired. Re-enter your connect.sid cookie in Settings."@)
    &&& (kind is Publer && status == 401) ==> (r matches Err(ProviderError::AuthError(m)) && m@
        == "Invalid Publer API key"@)
    &&& ((kind is Zernio || kind is Buffer || kind is Ayrshare || kind is UploadPost) && status == 401) ==> (
    r matches Err(ProviderError::AuthError(m)) && m@ == "Invalid API key"@)
    &&& (kind is Webhook || (status != 401 && status != 403)) ==> !(r matches Err(ProviderError::AuthError(_)))
    &&& (status == 429) ==> r == Err::<(), ProviderError>(ProviderError::RateLimit(wait))
    &&& (status != 401 && status != 403 && status != 429) ==> r is Ok
}

/// Checks a response status the way provider `kind` does.
pub fn check_response_status(kind: ProviderKind, status: u16, wait: Duration) -> (r: Result<(), ProviderError>)
    ensures
        check_matches(r, kind, status, wait),
        refusal_result_table(r, kind, status, wait),
{
    match status_verdict(kind, status) {
        StatusVerdict::Auth(m) => Err(ProviderError::AuthError(m)),
        StatusVerdict::RateLimited => Err(ProviderError::RateLimit(wait)),
        StatusVerdict::Proceed => Ok(()),
    }
}

/// The error for a non-success status, carrying the response body.
pub fn http_error(status: u16, body: String) -> (r: ProviderError)
    ensures
        r == (ProviderError::HttpError { status: status, body: body }),
{
    ProviderError::HttpError { status, body }
}

/// The string elements of `items`, in order.
pub open spec fn string_items_spec(items: Seq<JsonValue>) -> Seq<Seq<char>> {
    filter_map_json(items, |j: JsonValue| str_of(j))
}

/// Copies out the string elements of an array, skipping the others.
pub fn string_items(items: &Vec<JsonValue>) -> (r: Vec<String>)
    ensures
        strings_view(r@) == string_items_spec(items@),
{
    let ghost f = |j: JsonValue| str_of(j);
    let mut out: Vec<String> = Vec::new();
    let mut i: usize = 0;
    while i < items.len()
        invariant
            0 <= i <= items@.len(),
            f == (|j: JsonValue| str_of(j)),
            strings_view(out@) == filter_map_json(items@.take(i as int), f),
        decreases items@.len() - i,
    {
        proof {
            lemma_filter_map_step(items@, f, i as int);
        }
        match items[i].as_str() {
            Some(s) => {
                let ghost before = out@;
                out.push(to_owned_string(s));
                proof {
                    assert(strings_view(out@) =~= strings_view(before).push(s@));
                }
            },
            None => {},
        }
        i += 1;
    }
    proof {
        assert(items@.take(items@.len() as int) =~= items@);
    }
    out
}

/// `n` as a JSON integer.
pub fn json_i64(n: i64) -> (r: JsonValue)
    ensures
        i64_of(r) == Some(n),
{
    if n >= 0 {
        JsonValue::Number(JsonNumber::Unsigned(n as u64))
    } else {
        JsonValue::Number(JsonNumber::Negative(n))
    }
}

} // verus!

//! Per-provider decisions that do not need the network: how an HTTP status is
//! read, how long Publer asks to wait, which public URL a post gets, and how
//! platform names are spelled for Zernio.
use vstd::prelude::*;
use crate::scheduling::ProviderKind;
use crate::text::{join2, join4, str_eq, to_owned_string};

verus! {

broadcast use vstd::string::group_string_axioms;

/// How a provider reads an HTTP status before looking at the body.
#[derive(Debug, Clone)]
pub enum StatusVerdict {
    /// Go on: a success, or an error status handled as a plain HTTP error.
    Proceed,
    /// The credential was refused; the message explains it.
    Auth(String),
    /// Rate limited (429): wait as the response asks, then retry.
    RateLimited,
}

/// The credential-refused message of each provider for `status`, if that
/// status means the credential was refused.
pub open spec fn auth_failure(kind: ProviderKind, status: u16) -> Option<Seq<char>> {
    match kind {
        ProviderKind::Outstand => if status == 401 || status == 403 {
            Some("Invalid Outstand API key"@)
        } else {
            None
        },
        ProviderKind::SubstackNotes => if status == 401 || status == 403 {
            Some("Substack session expired. Re-enter your connect.sid cookie in Settings."@)
        } else {
            None
        },
        ProviderKind::Publer => if status == 401 {
            Some("Invalid Publer API key"@)
        } else if status == 403 {
            Some(
                "Publer returned 403. API access may require a paid plan — check publer.com/plans or switch to a different scheduler."@,
            )
        } else {
            None
        },
        ProviderKind::Webhook => None,
        _ => if status == 401 {
            Some("Invalid API key"@)
        } else {
            None
        },
    }
}

pub open spec fn verdict_spec(kind: ProviderKind, status: u16, v: StatusVerdict) -> bool {
    match auth_failure(kind, status) {
        Some(m) => v is Auth && v->Auth_0@ == m,
        None => if status == 429 {
            v is RateLimited
        } else {
            v is Proceed
        },
    }
}

/// Which statuses each provider reads as a refused credential, and with
/// what message: Outstand 401 and 403 ("Invalid Outstand API key");
/// Substack 401 and 403 (session expired); Publer 401 ("Invalid Publer API
/// key") and 403 (paid plan); Zernio, Buffer, Ayrshare and Upload-Post 401
/// only ("Invalid API key"); webhooks none. A status not refused is a rate
/// limit when it is 429, and goes on otherwise.
pub open spec fn refusal_table_holds(kind: ProviderKind, status: u16, v: StatusVerdict) -> bool {
    &&& (kind is Outstand && (status == 401 || status == 403)) ==> (v matches StatusVerdict::Auth(m) && m@
        == "Invalid Outstand API key"@)
    &&& (kind is SubstackNotes && (status == 401 || status == 403)) ==> (v matches StatusVerdict::Auth(m) && m@
        == "Substack session expired. Re-enter your connect.sid cookie in Settings."@)
    &&& (kind is Publer && status == 401) ==> (v matches StatusVerdict::Auth(m) && m@ == "Invalid Publer API key"@)
    &&& (kind is Publer && status == 403) ==> (v matches StatusVerdict::Auth(m) && m@
        == "Publer returned 403. API access may require a paid plan — check publer.com/plans or switch to a different scheduler."@)
    &&& ((kind is Zernio || kind is Buffer || kind is Ayrshare || kind is UploadPost) && status == 401) ==> (
    v matches StatusVerdict::Auth(m) && m@ == "Invalid API key"@)
    &&& ((kind is Zernio || kind is Buffer || kind is Ayrshare || kind is UploadPost || kind is Webhook) && status
        == 403) ==> !(v is Auth)
    &&& kind is Webhook ==> !(v is Auth)
    &&& (status != 401 && status != 403) ==> !(v is Auth)
    &&& (status == 429) ==> v is RateLimited
    &&& (status != 401 && status != 403 && status != 429) ==> v is Proceed
}

/// Every verdict a status can get follows the per-provider table of refused
/// statuses.
pub proof fn lemma_refusal_table(kind: ProviderKind, status: u16, v: StatusVerdict)
    requires
        verdict_spec(kind, status, v),
    ensures
        refusal_table_holds(kind, status, v),
{
}

/// Reads an HTTP status the way provider `kind` does: a refused credential
/// first (401, and for some providers 403), then a rate limit (429);
/// anything else goes on.
pub fn status_verdict(kind: ProviderKind, status: u16) -> (v: StatusVerdict)
    ensures
        verdict_spec(kind, status, v),
        refusal_table_holds(kind, status, v),
{
    match kind {
        ProviderKind::Outstand => {
            if status == 401 || status == 403 {
                return StatusVerdict::Auth(to_owned_string("Invalid Outstand API key"));
            }
        },
        ProviderKind::SubstackNotes => {
            if status == 401 || status == 403 {
                return StatusVerdict::Auth(
                    to_owned_string(
                        "Substack session expired. Re-enter your connect.sid cookie in Settings.",
                    ),
                );
            }
        },
        ProviderKind::Publer => {
            if status == 401 {
                return StatusVerdict::Auth(to_owned_string("Invalid Publer API key"));
            }
            if status == 403 {
                return StatusVerdict::Auth(
                    to_owned_string(
                        "Publer returned 403. API access may require a paid plan — check publer.com/plans or switch to a different scheduler.",
                    ),
                );
            }
        },
        ProviderKind::Webhook => {},
        _ => {
            if status == 401 {
                return StatusVerdict::Auth(to_owned_string("Invalid API key"));
            }
        },
    }
    if status == 429 {
        StatusVerdict::RateLimited
    } else {
        StatusVerdict::Proceed
    }
}

/// How Mastodon reads an HTTP status: 401 is a refused access token, 429 a
/// rate limit, anything else goes on.
pub fn mastodon_status_verdict(status: u16) -> (v: StatusVerdict)
    ensures
        status == 401 ==> v is Auth && v->Auth_0@ == "Invalid access token"@,
        status == 429 ==> v is RateLimited,
        status != 401 && status != 429 ==> v is Proceed,
{
    if status == 401 {
        StatusVerdict::Auth(to_owned_string("Invalid access token"))
    } else if status == 429 {
        StatusVerdict::RateLimited
    } else {
        StatusVerdict::Proceed
    }
}

/// Seconds Publer asks to wait on a 429: until its `X-RateLimit-Reset` time
/// (`reset`, Unix seconds) as seen at `now_secs`, kept within 1..=3600; 60
/// when the header is absent or not a number.
pub open spec fn publer_wait_spec(reset: Option<u64>, now_secs: u64) -> u64 {
    match reset {
        Some(ts) => {
            let left: int = if ts > now_secs {
                ts - now_secs
            } else {
                0
            };
            if left < 1 {
                1
            } else if left > 3600 {
                3600
            } else {
                left as u64
            }
        },
        None => 60,
    }
}

/// Seconds to wait after a Publer 429.
pub fn publer_rate_limit_secs(reset: Option<u64>, now_secs: u64) -> (r: u64)
    ensures
        r == publer_wait_spec(reset, now_secs),
        1 <= r <= 3600,
{
    match reset {
        Some(ts) => {
            let left = ts.saturating_sub(now_secs);
            if left < 1 {
                1
            } else if left > 3600 {
                3600
            } else {
                left
            }
        },
        None => 60,
    }
}

/// Zernio's name for a Postlane platform: `x` is `twitter`; other names are
/// the same.
pub open spec fn zernio_platform_spec(platform: Seq<char>) -> Seq<char> {
    if platform == "x"@ {
        "twitter"@
    } else {
        platform
    }
}

/// Maps a Postlane platform name to Zernio's identifier.
pub fn zernio_platform(platform: &str) -> (r: String)
    ensures
        r@ == zernio_platform_spec(platform@),
{
    if str_eq(platform, "x") {
        to_owned_string("twitter")
    } else {
        to_owned_string(platform)
    }
}

/// The public URL of post `post_id` on `platform`, as provider `kind` knows
/// it. Substack notes need the account's username, when it is known.
pub open spec fn post_url_spec(kind: ProviderKind, platform: Seq<char>, post_id: Seq<char>, username: Option<Seq<char>>) -> Option<Seq<char>> {
    let x = platform == "x"@ || platform == "twitter"@;
    match kind {
        ProviderKind::Zernio | ProviderKind::Ayrshare => if x {
            Some("https://x.com/i/web/status/"@ + post_id)
        } else {
            None
        },
        ProviderKind::Buffer => if x {
            Some("https://x.com/i/web/status/"@ + post_id)
        } else if platform == "facebook"@ {
            Some("https://facebook.com/"@ + post_id)
        } else if platform == "linkedin"@ {
            Some("https://linkedin.com/feed/update/"@ + post_id)
        } else if platform == "instagram"@ {
            Some("https://instagram.com/p/"@ + post_id)
        } else {
            None
        },
        ProviderKind::SubstackNotes => match username {
            Some(u) => Some("https://substack.com/@"@ + u + "/note/"@ + post_id),
            None => None,
        },
        _ => None,
    }
}

pub open spec fn opt_view(o: Option<String>) -> Option<Seq<char>> {
    match o {
        Some(s) => Some(s@),
        None => None,
    }
}

pub open spec fn opt_str_view(o: Option<&str>) -> Option<Seq<char>> {
    match o {
        Some(s) => Some(s@),
        None => None,
    }
}

/// Public URL of a post, when the provider can tell it.
pub fn post_url(kind: ProviderKind, platform: &str, post_id: &str, substack_username: Option<&str>) -> (r: Option<String>)
    ensures
        opt_view(r) == post_url_spec(kind, platform@, post_id@, opt_str_view(substack_username)),
{
    let x = str_eq(platform, "x") || str_eq(platform, "twitter");
    match kind {
        ProviderKind::Zernio | ProviderKind::Ayrshare => {
            if x {
                Some(join2("https://x.com/i/web/status/", post_id))
            } else {
                None
            }
        },
        ProviderKind::Buffer => {
            if x {
                Some(join2("https://x.com/i/web/status/", post_id))
            } else if str_eq(platform, "facebook") {
                Some(join2("https://facebook.com/", post_id))
            } else if str_eq(platform, "linkedin") {
                Some(join2("https://linkedin.com/feed/update/", post_id))
            } else if str_eq(platform, "instagram") {
                Some(join2("https://instagram.com/p/", post_id))
            } else {
                None
            }
        },
        ProviderKind::SubstackNotes => match substack_username {
            Some(u) => Some(join4("https://substack.com/@", u, "/note/", post_id)),
            None => None,
        },
        _ => None,
    }
}

} // verus!

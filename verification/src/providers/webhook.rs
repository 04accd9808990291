//! Webhooks (Zapier, Make and the like): a standard JSON payload posted to a
//! user-supplied HTTPS URL, which must not point inside the user's network.
use vstd::prelude::*;
use crate::ip_ranges::IpAddress;
use crate::json::{entry_keys, field, json_opt_str, json_str, keys_of, push_entry, str_at, str_of, JsonValue};
use crate::providers::common::{chrono_accepts, is_auth_error, UtcTime, is_invalid_instance, is_not_supported};
use crate::scheduling::{opt_str_view, ProviderError};
use crate::text::{decimal_string, decimal_text, join3, starts_with_str, starts_with_text, str_eq, to_owned_string};

use crate::schedule_time::{instant_text, utc_rfc3339};

verus! {

broadcast use vstd::string::group_string_axioms;

/// The host of a URL as the `url` crate reads it.
#[derive(Clone, Debug)]
pub enum UrlHost {
    Domain(String),
    Ipv4([u8; 4]),
    Ipv6([u16; 8]),
}

/// A URL host as plain values.
pub enum HostView {
    Domain(Seq<char>),
    Ip(IpAddress),
}

pub open spec fn host_view(h: UrlHost) -> HostView {
    match h {
        UrlHost::Domain(d) => HostView::Domain(d@),
        UrlHost::Ipv4(o) => HostView::Ip(IpAddress::V4(o)),
        UrlHost::Ipv6(s) => HostView::Ip(IpAddress::V6(s)),
    }
}

/// What `url::Url::parse` makes of `url`: `None` when the crate does not
/// accept it, else the parsed URL's host, if it has one.
pub uninterp spec fn url_host(url: Seq<char>) -> Option<Option<HostView>>;

pub open spec fn parsed_host_view(r: Option<Option<UrlHost>>) -> Option<Option<HostView>> {
    match r {
        Some(Some(h)) => Some(Some(host_view(h))),
        Some(None) => Some(None),
        None => None,
    }
}

/// Calls `url::Url::parse` and reads the parsed URL's `host()`, converting
/// addresses to octets and segments. The URL grammar the crate implements is
/// not restated here.
#[verifier::external_body]
pub(crate) fn parse_url_host(url: &str) -> (r: Option<Option<UrlHost>>)
    ensures
        parsed_host_view(r) == url_host(url@),
{
    match url::Url::parse(url) {
        Ok(u) => match u.host() {
            Some(url::Host::Domain(d)) => Some(Some(UrlHost::Domain(d.to_string()))),
            Some(url::Host::Ipv4(v4)) => Some(Some(UrlHost::Ipv4(v4.octets()))),
            Some(url::Host::Ipv6(v6)) => Some(Some(UrlHost::Ipv6(v6.segments()))),
            None => Some(None),
        },
        Err(_) => None,
    }
}

/// IPv4 hosts refused for webhooks: loopback, private and link-local.
pub open spec fn private_v4_host(o: Seq<u8>) -> bool {
    ||| o[0] == 127
    ||| o[0] == 10
    ||| (o[0] == 172 && 16 <= o[1] <= 31)
    ||| (o[0] == 192 && o[1] == 168)
    ||| (o[0] == 169 && o[1] == 254)
}

/// Host names refused for webhooks.
pub open spec fn loopback_host_name(h: Seq<char>) -> bool {
    h == "localhost"@ || h == "ip6-localhost"@ || h == "ip6-loopback"@
}

/// IPv6 hosts refused for webhooks: loopback (::1), unique local (fc00::/7)
/// and link-local (fe80::/10).
pub open spec fn private_v6_host(s: Seq<u16>) -> bool {
    ||| (s[0] == 0 && s[1] == 0 && s[2] == 0 && s[3] == 0 && s[4] == 0 && s[5] == 0 && s[6] == 0 && s[7] == 1)
    ||| s[0] & 0xfe00 == 0xfc00
    ||| s[0] & 0xffc0 == 0xfe80
}

/// Whether the parsed host of a webhook URL is refused.
pub open spec fn refused_host(h: Option<HostView>) -> bool {
    match h {
        Some(HostView::Domain(d)) => loopback_host_name(d),
        Some(HostView::Ip(IpAddress::V4(o))) => private_v4_host(o@),
        Some(HostView::Ip(IpAddress::V6(s))) => private_v6_host(s@),
        None => false,
    }
}

pub open spec fn https_message() -> Seq<char> {
    "Webhook URL must use https://"@
}

pub open spec fn invalid_url_message() -> Seq<char> {
    "Webhook URL is not a valid URL."@
}

pub open spec fn private_target_message() -> Seq<char> {
    "Webhook URL must not target a private or loopback address."@
}

/// The checks a webhook URL must pass before anything is sent to it.
pub open spec fn url_check(url: Seq<char>) -> Option<Seq<char>> {
    if !starts_with_text(url, "https://"@) {
        Some(https_message())
    } else {
        match url_host(url) {
            None => Some(invalid_url_message()),
            Some(h) => if refused_host(h) {
                Some(private_target_message())
            } else {
                None
            },
        }
    }
}

/// Checks a webhook URL: it must use `https://`, parse as a URL, and not
/// target a loopback, private or link-local host, IPv4 or IPv6.
pub fn validate_url(url: &str) -> (r: Result<(), ProviderError>)
    ensures
        match url_check(url@) {
            None => r is Ok,
            Some(m) => r is Err && is_invalid_instance(r->Err_0, m),
        },
{
    if !starts_with_str(url, "https://") {
        return Err(ProviderError::InvalidInstance(to_owned_string("Webhook URL must use https://")));
    }
    let host = match parse_url_host(url) {
        Some(h) => h,
        None => return Err(ProviderError::InvalidInstance(to_owned_string("Webhook URL is not a valid URL."))),
    };
    let refused = match &host {
        Some(UrlHost::Domain(d)) => str_eq(d.as_str(), "localhost") || str_eq(d.as_str(), "ip6-localhost") || str_eq(
            d.as_str(),
            "ip6-loopback",
        ),
        Some(UrlHost::Ipv4(o)) => {
            let a = o[0];
            let b = o[1];
            a == 127 || a == 10 || (a == 172 && 16 <= b && b <= 31) || (a == 192 && b == 168) || (a == 169 && b
                == 254)
        },
        Some(UrlHost::Ipv6(s)) => (s[0] == 0 && s[1] == 0 && s[2] == 0 && s[3] == 0 && s[4] == 0 && s[5] == 0
            && s[6] == 0 && s[7] == 1) || s[0] & 0xfe00 == 0xfc00 || s[0] & 0xffc0 == 0xfe80,
        None => false,
    };
    if refused {
        return Err(
            ProviderError::InvalidInstance(
                to_owned_string("Webhook URL must not target a private or loopback address."),
            ),
        );
    }
    Ok(())
}

/// The payload posted for a post: text, platform, and the profile and
/// schedule time (`null` when absent). The schedule time is sent as RFC 3339
/// text.
pub fn build_payload(content: &str, platform: &str, scheduled_at: Option<UtcTime>, profile_id: Option<&str>) -> (r:
    JsonValue)
    requires
        scheduled_at matches Some(t) ==> chrono_accepts(t),
    ensures
        keys_of(r) == seq!["content"@, "platform"@, "profile_id"@, "scheduled_at"@],
        str_at(r, "content"@) == Some(content@),
        str_at(r, "platform"@) == Some(platform@),
        match profile_id {
            Some(p) => str_at(r, "profile_id"@) == Some(p@),
            None => field(r, "profile_id"@) is Null,
        },
        match scheduled_at {
            Some(t) => str_at(r, "scheduled_at"@) == utc_rfc3339(t.secs, t.nanos),
            None => field(r, "scheduled_at"@) is Null,
        },
{
    proof {
        reveal_strlit("content");
        reveal_strlit("platform");
        reveal_strlit("profile_id");
        reveal_strlit("scheduled_at");
        assert("content"@.len() == 7 && "platform"@.len() == 8 && "profile_id"@.len() == 10);
        assert("scheduled_at"@.len() == 12);
    }
    let mut body: Vec<(String, JsonValue)> = Vec::new();
    push_entry(&mut body, "content", json_str(content));
    push_entry(&mut body, "platform", json_str(platform));
    push_entry(&mut body, "profile_id", json_opt_str(profile_id));
    let when = match scheduled_at {
        Some(t) => json_str(instant_text(t).as_str()),
        None => JsonValue::Null,
    };
    push_entry(&mut body, "scheduled_at", when);
    proof {
        assert(entry_keys(body@) =~= seq!["content"@, "platform"@, "profile_id"@, "scheduled_at"@]);
    }
    JsonValue::Object(body)
}

/// The payload posted to test a webhook.
pub fn test_payload() -> (r: JsonValue)
    ensures
        keys_of(r) == seq!["test"@, "source"@],
        field(r, "test"@) == JsonValue::Bool(true),
        str_at(r, "source"@) == Some("postlane"@),
{
    proof {
        reveal_strlit("test");
        reveal_strlit("source");
        assert("test"@.len() == 4 && "source"@.len() == 6);
    }
    let mut body: Vec<(String, JsonValue)> = Vec::new();
    push_entry(&mut body, "test", JsonValue::Bool(true));
    push_entry(&mut body, "source", json_str("postlane"));
    proof {
        assert(entry_keys(body@) =~= seq!["test"@, "source"@]);
    }
    JsonValue::Object(body)
}

pub open spec fn test_failed_message(status: u16) -> Seq<char> {
    "Webhook returned "@ + decimal_text(status as nat)
        + " — verify the URL is correct and the endpoint accepts POST requests."@
}

/// The error when the test payload is answered with a non-success status.
pub fn test_failed_error(status: u16) -> (r: ProviderError)
    ensures
        is_auth_error(r, test_failed_message(status)),
{
    let code = decimal_string(status as u128);
    ProviderError::AuthError(
        join3(
            "Webhook returned ",
            code.as_str(),
            " — verify the URL is correct and the endpoint accepts POST requests.",
        ),
    )
}

pub open spec fn cancel_unsupported_message() -> Seq<char> {
    "Webhook tools have no cancel mechanism. Remove the post directly in your automation platform."@
}

/// Webhook tools cannot cancel a post.
pub fn cancel_error() -> (r: ProviderError)
    ensures
        is_not_supported(r, cancel_unsupported_message()),
{
    ProviderError::NotSupported(
        to_owned_string(
            "Webhook tools have no cancel mechanism. Remove the post directly in your automation platform.",
        ),
    )
}

pub open spec fn engagement_unsupported_message() -> Seq<char> {
    "Engagement data is not available via webhook."@
}

/// Webhooks report no engagement.
pub fn engagement_error() -> (r: ProviderError)
    ensures
        is_not_supported(r, engagement_unsupported_message()),
{
    ProviderError::NotSupported(to_owned_string("Engagement data is not available via webhook."))
}

} // verus!

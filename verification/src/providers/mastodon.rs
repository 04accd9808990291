//! Mastodon: statuses are posted straight to the user's instance, which must
//! not resolve to a private address; scheduled statuses are listed page by
//! page through `Link` headers.
use vstd::prelude::*;
use std::time::Duration;
use crate::ip_ranges::{is_private_ip, private_ip, IpAddress};
use crate::json::{
    array_of, entry_keys, field, filter_map_json, json_str, keys_of, lemma_filter_map_step, push_entry, str_at,
    u64_at, JsonValue,
};
use crate::providers::common::{
    chrono_accepts, UtcTime,
    content_preview, is_auth_error, is_invalid_instance, is_not_supported, is_unknown_error, parse_rfc3339, preview_text,
    profile_view, queued_view, queued_views, rfc3339_utc, scheduled_view, strings_view, utc_of, ProfileView,
    QueuedPost, QueuedView,
};
use crate::providers::outstand::text_or;
use crate::provider_policy::mastodon_status_verdict;
use crate::provider_policy::StatusVerdict;
use crate::scheduling::{opt_str_view, Engagement, PostScheduleResult, ProviderError, SchedulerProfile};
use crate::text::{
    occurs_at_exec, before_char, before_char_str, chars_of, contains_str, contains_text, join2, join3, join4, split_at_char,
    split_str, starts_with_str, starts_with_text, string_of_chars, to_owned_string, trim, trim_char_ends,
    trim_end_char, trim_start_char, trimmed,
};

use crate::schedule_time::{instant_text, utc_rfc3339};

verus! {

broadcast use vstd::string::group_string_axioms;

/// The API base of an instance: `https://{instance}/api/v1`.
pub fn api_base(instance: &str) -> (r: String)
    ensures
        r@ == "https://"@ + instance@ + "/api/v1"@,
{
    join3("https://", instance, "/api/v1")
}

/// Reads a response status: 401 is a refused access token, 429 a rate limit
/// (waiting `wait`).
pub fn check_response_status(status: u16, wait: Duration) -> (r: Result<(), ProviderError>)
    ensures
        status == 401 ==> r is Err && is_auth_error(r->Err_0, "Invalid access token"@),
        status == 429 ==> r == Err::<(), ProviderError>(ProviderError::RateLimit(wait)),
        status != 401 && status != 429 ==> r is Ok,
{
    match mastodon_status_verdict(status) {
        StatusVerdict::Auth(m) => Err(ProviderError::AuthError(m)),
        StatusVerdict::RateLimited => Err(ProviderError::RateLimit(wait)),
        StatusVerdict::Proceed => Ok(()),
    }
}

pub open spec fn cancel_unsupported_message() -> Seq<char> {
    "Mastodon posts cannot be deleted via Postlane. Delete the post from your Mastodon client."@
}

/// Reads the status of `DELETE /scheduled_statuses/{id}`: 404 means the post
/// was published at once and cannot be deleted here; otherwise the usual
/// status check applies.
pub fn check_cancel_status(status: u16, wait: Duration) -> (r: Result<(), ProviderError>)
    ensures
        status == 404 ==> r is Err && is_not_supported(r->Err_0, cancel_unsupported_message()),
        status == 401 ==> r is Err && is_auth_error(r->Err_0, "Invalid access token"@),
        status == 429 ==> r == Err::<(), ProviderError>(ProviderError::RateLimit(wait)),
        status != 404 && status != 401 && status != 429 ==> r is Ok,
{
    if status == 404 {
        return Err(
            ProviderError::NotSupported(
                to_owned_string(
                    "Mastodon posts cannot be deleted via Postlane. Delete the post from your Mastodon client.",
                ),
            ),
        );
    }
    check_response_status(status, wait)
}

/// The body of `POST /statuses`: the text, and when scheduled the instant
/// as RFC 3339 text.
pub fn build_status_body(content: &str, scheduled_for: Option<UtcTime>) -> (r: JsonValue)
    requires
        scheduled_for matches Some(t) ==> chrono_accepts(t),
    ensures
        keys_of(r) == (if scheduled_for is Some {
            seq!["status"@, "scheduled_at"@]
        } else {
            seq!["status"@]
        }),
        str_at(r, "status"@) == Some(content@),
        match scheduled_for {
            Some(t) => str_at(r, "scheduled_at"@) == utc_rfc3339(t.secs, t.nanos),
            None => true,
        },
{
    proof {
        reveal_strlit("status");
        reveal_strlit("scheduled_at");
        assert("status"@.len() == 6 && "scheduled_at"@.len() == 12);
    }
    let mut body: Vec<(String, JsonValue)> = Vec::new();
    push_entry(&mut body, "status", json_str(content));
    match scheduled_for {
        Some(t) => {
            let text = instant_text(t);
            push_entry(&mut body, "scheduled_at", json_str(text.as_str()));
        },
        None => {},
    }
    proof {
        assert(entry_keys(body@) =~= (if scheduled_for is Some {
            seq!["status"@, "scheduled_at"@]
        } else {
            seq!["status"@]
        }));
    }
    JsonValue::Object(body)
}

pub open spec fn missing_id_message(json_text: Seq<char>) -> Seq<char> {
    "Missing id in response: "@ + json_text
}

/// Reads the reply to a status post. A scheduled status (non-null
/// `scheduled_at`) has no URL yet; a published one gives its `url`.
pub fn parse_schedule_response(json: &JsonValue, json_text: &str) -> (r: Result<PostScheduleResult, ProviderError>)
    ensures
        match str_at(*json, "id"@) {
            Some(id) => r is Ok && scheduled_view(r->Ok_0) == (id, if field(*json, "scheduled_at"@) is Null {
                str_at(*json, "url"@)
            } else {
                None
            }),
            None => r is Err && is_unknown_error(r->Err_0, missing_id_message(json_text@)),
        },
{
    let id = match json.str_field("id") {
        Some(s) => s,
        None => return Err(ProviderError::Unknown(join2("Missing id in response: ", json_text))),
    };
    let scheduled = match json.get("scheduled_at") {
        Some(v) => !v.is_null(),
        None => false,
    };
    let url = if scheduled {
        None
    } else {
        match json.str_field("url") {
            Some(u) => Some(to_owned_string(u)),
            None => None,
        }
    };
    Ok(PostScheduleResult { scheduler_id: to_owned_string(id), platform_url: url })
}

/// The character limit an instance reports at
/// `configuration.statuses.max_characters`, cut to 32 bits; 500 when absent.
pub open spec fn char_limit_spec(json: JsonValue) -> u32 {
    match u64_at(field(field(json, "configuration"@), "statuses"@), "max_characters"@) {
        Some(v) => v as u32,
        None => 500,
    }
}

/// Reads `GET /instance`.
pub fn instance_char_limit(json: &JsonValue) -> (r: u32)
    ensures
        r == char_limit_spec(*json),
{
    let v = match json.get("configuration") {
        Some(c) => match c.get("statuses") {
            Some(s) => s.u64_field("max_characters"),
            None => None,
        },
        None => None,
    };
    match v {
        Some(n) => {
            #[verifier::truncate]
            (n as u32)
        },
        None => 500,
    }
}

pub open spec fn no_addresses_message(instance: Seq<char>) -> Seq<char> {
    "Instance "@ + instance + " resolved to no addresses"@
}

pub open spec fn private_address_message(instance: Seq<char>, shown: Seq<char>) -> Seq<char> {
    "Instance "@ + instance + " resolves to a private IP address ("@ + shown + ")"@
}

/// Index of the first address in `addrs` that is private, if any.
pub open spec fn first_private(addrs: Seq<(IpAddress, String)>) -> Option<int> {
    if exists|i: int| 0 <= i < addrs.len() && private_ip(#[trigger] addrs[i].0) {
        Some(
            choose|i: int|
                0 <= i < addrs.len() && private_ip(addrs[i].0) && forall|j: int|
                    0 <= j < i ==> !private_ip(#[trigger] addrs[j].0),
        )
    } else {
        None
    }
}

/// Checks the addresses an instance name resolved to (each with its text
/// form): there must be some, and none may be private.
pub fn check_instance_addresses(instance: &str, addrs: &[(IpAddress, String)]) -> (r: Result<(), ProviderError>)
    ensures
        addrs@.len() == 0 ==> r is Err && is_invalid_instance(r->Err_0, no_addresses_message(instance@)),
        addrs@.len() > 0 ==> match first_private(addrs@) {
            None => r is Ok,
            Some(i) => r is Err && is_invalid_instance(
                r->Err_0,
                private_address_message(instance@, addrs@[i].1@),
            ),
        },
{
    if addrs.len() == 0 {
        return Err(ProviderError::InvalidInstance(join3("Instance ", instance, " resolved to no addresses")));
    }
    let mut i: usize = 0;
    while i < addrs.len()
        invariant
            0 <= i <= addrs@.len(),
            forall|j: int| 0 <= j < i ==> !private_ip(#[trigger] addrs@[j].0),
        decreases addrs@.len() - i,
    {
        if is_private_ip(addrs[i].0) {
            proof {
                let k = choose|k: int|
                    0 <= k < addrs@.len() && private_ip(addrs@[k].0) && forall|j: int|
                        0 <= j < k ==> !private_ip(#[trigger] addrs@[j].0);
                assert(private_ip(addrs@[i as int].0));
                if k < i {
                    assert(!private_ip(addrs@[k].0));
                } else if k > i {
                    assert(!private_ip(addrs@[i as int].0));
                }
            }
            let msg = join4("Instance ", instance, " resolves to a private IP address (", addrs[i].1.as_str());
            return Err(ProviderError::InvalidInstance(join2(msg.as_str(), ")")));
        }
        i += 1;
    }
    Ok(())
}

pub open spec fn unresolved_message(instance: Seq<char>, err: Seq<char>) -> Seq<char> {
    "Cannot resolve "@ + instance + ": "@ + err
}

/// The error when an instance name does not resolve.
pub fn unresolved_instance_error(instance: &str, err: &str) -> (r: ProviderError)
    ensures
        is_invalid_instance(r, unresolved_message(instance@, err@)),
{
    ProviderError::InvalidInstance(join4("Cannot resolve ", instance, ": ", err))
}

/// The one profile of the token's account: its `id` (empty when missing) and
/// its `display_name`, or its `acct` when the display name is empty or
/// missing.
pub open spec fn profile_spec(json: JsonValue) -> ProfileView {
    (
        text_or(str_at(json, "id"@), ""@),
        match str_at(json, "display_name"@) {
            Some(n) => if n.len() > 0 {
                n
            } else {
                text_or(str_at(json, "acct"@), ""@)
            },
            None => text_or(str_at(json, "acct"@), ""@),
        },
        seq!["mastodon"@],
    )
}

/// A Mastodon account is shown by its display name when that is a
/// non-empty string, else by its `acct`; its ID is `id` (empty when
/// missing); its one platform is `mastodon`.
pub proof fn lemma_profile_named_by_display_name(json: JsonValue)
    ensures
        profile_spec(json).0 == (if str_at(json, "id"@) is Some { str_at(json, "id"@)->0 } else { ""@ }),
        str_at(json, "display_name"@) is Some && str_at(json, "display_name"@)->0.len() > 0 ==> profile_spec(json).1
            == str_at(json, "display_name"@)->0,
        !(str_at(json, "display_name"@) is Some && str_at(json, "display_name"@)->0.len() > 0) ==> profile_spec(json).1
            == (if str_at(json, "acct"@) is Some { str_at(json, "acct"@)->0 } else { ""@ }),
        profile_spec(json).2 == seq!["mastodon"@],
{
}

/// Reads `GET /accounts/verify_credentials`.
pub fn profile(json: &JsonValue) -> (r: SchedulerProfile)
    ensures
        profile_view(r) == profile_spec(*json),
{
    proof {
        reveal_strlit("");
    }
    let id = match json.str_field("id") {
        Some(s) => s,
        None => "",
    };
    let acct = match json.str_field("acct") {
        Some(s) => s,
        None => "",
    };
    let name = match json.str_field("display_name") {
        Some(n) => if n.is_empty() {
            acct
        } else {
            n
        },
        None => acct,
    };
    let mut platforms: Vec<String> = Vec::new();
    platforms.push(to_owned_string("mastodon"));
    let p = SchedulerProfile { id: to_owned_string(id), name: to_owned_string(name), platforms };
    proof {
        assert(strings_view(p.platforms@) =~= seq!["mastodon"@]);
    }
    p
}

/// A scheduled status: it needs `id` and an RFC 3339 `scheduled_at` chrono
/// accepts; its text is `params.text` (empty when missing).
pub open spec fn scheduled_item(item: JsonValue) -> Option<QueuedView> {
    match (str_at(item, "id"@), str_at(item, "scheduled_at"@)) {
        (Some(id), Some(when)) => match utc_of(rfc3339_utc(when)) {
            Some(t) => Some(
                (id, "mastodon"@, t, preview_text(text_or(str_at(field(item, "params"@), "text"@), ""@))),
            ),
            None => None,
        },
        _ => None,
    }
}

/// Reads one scheduled status as a queued post.
pub fn map_scheduled_status(item: &JsonValue) -> (r: Option<QueuedPost>)
    ensures
        match r {
            Some(q) => scheduled_item(*item) == Some(queued_view(q)),
            None => scheduled_item(*item) is None,
        },
{
    proof {
        reveal_strlit("");
    }
    let id = match item.str_field("id") {
        Some(s) => s,
        None => return None,
    };
    let when = match item.str_field("scheduled_at") {
        Some(s) => s,
        None => return None,
    };
    let t = match parse_rfc3339(when) {
        Some(t) => t,
        None => return None,
    };
    let text = match item.get("params") {
        Some(p) => match p.str_field("text") {
            Some(s) => s,
            None => "",
        },
        None => "",
    };
    Some(
        QueuedPost {
            post_id: to_owned_string(id),
            platform: to_owned_string("mastodon"),
            scheduled_for: t,
            content_preview: content_preview(text),
        },
    )
}

/// Reads one page of `GET /scheduled_statuses`, a JSON array.
pub fn queue_page(items: &Vec<JsonValue>) -> (r: Vec<QueuedPost>)
    ensures
        queued_views(r@) == filter_map_json(items@, |i: JsonValue| scheduled_item(i)),
{
    let ghost f = |i: JsonValue| scheduled_item(i);
    let mut out: Vec<QueuedPost> = Vec::new();
    let mut i: usize = 0;
    while i < items.len()
        invariant
            0 <= i <= items@.len(),
            f == (|i: JsonValue| scheduled_item(i)),
            queued_views(out@) == filter_map_json(items@.take(i as int), f),
        decreases items@.len() - i,
    {
        proof {
            lemma_filter_map_step(items@, f, i as int);
        }
        match map_scheduled_status(&items[i]) {
            Some(q) => {
                let ghost before = out@;
                out.push(q);
                proof {
                    assert(queued_views(out@) =~= queued_views(before).push(queued_view(q)));
                }
            },
            None => {},
        }
        i += 1;
    }
    proof {
        assert(items@.take(items@.len() as int) =~= items@);
    }
    out
}

/// The URL a `Link` header part points at: the text before `;`, trimmed and
/// stripped of its angle brackets.
pub open spec fn link_target(part: Seq<char>) -> Seq<char> {
    trim_end_char(trim_start_char(trimmed(before_char(part, ';')), '<'), '>')
}

/// Part `i` of a `Link` header is taken for the next page: it names
/// `rel="next"` and its target is not empty.
pub open spec fn is_next_part(parts: Seq<Seq<char>>, i: int) -> bool {
    contains_text(trimmed(parts[i]), "rel=\"next\""@) && link_target(trimmed(parts[i])).len() > 0
}

/// The next page's URL in a `Link` header: the target of the first part, in
/// the comma-separated list, that is taken for the next page.
pub open spec fn next_link_spec(link: Seq<char>) -> Option<Seq<char>> {
    let parts = split_at_char(link, ',');
    if exists|i: int| 0 <= i < parts.len() && #[trigger] is_next_part(parts, i) {
        let i = choose|i: int|
            0 <= i < parts.len() && is_next_part(parts, i) && forall|j: int|
                0 <= j < i ==> !#[trigger] is_next_part(parts, j);
        Some(link_target(trimmed(parts[i])))
    } else {
        None
    }
}

/// Reads the URL of the next page from a `Link` header
/// (`<https://host/path?max_id=123>; rel="next"`); none without a header.
pub fn parse_link_next(header: Option<&str>) -> (r: Option<String>)
    ensures
        match header {
            Some(l) => opt_string_view_of(r) == next_link_spec(l@),
            None => r is None,
        },
{
    let link: &str = match header {
        Some(l) => l,
        None => return None,
    };
    let parts = split_str(link, ',');
    let ghost pv = parts@.map_values(|x: String| x@);
    let mut i: usize = 0;
    while i < parts.len()
        invariant
            0 <= i <= parts@.len(),
            pv == parts@.map_values(|x: String| x@),
            pv == split_at_char(link@, ','),
            header == Some(link),
            forall|j: int| 0 <= j < i ==> !#[trigger] is_next_part(pv, j),
        decreases parts@.len() - i,
    {
        let part = trim(parts[i].as_str());
        proof {
            assert(pv[i as int] == parts@[i as int]@);
        }
        if contains_str(part, "rel=\"next\"") {
            let head = before_char_str(part, ';');
            let url = trim_char_ends(trim(head.as_str()), '<', '>');
            if !url.as_str().is_empty() {
                proof {
                    assert(part@ == trimmed(pv[i as int]));
                    assert(contains_text(part@, "rel=\"next\""@));
                    assert(url@ == link_target(part@));
                    assert(url@.len() > 0);
                    assert(is_next_part(pv, i as int));
                    let k = choose|k: int|
                        0 <= k < pv.len() && is_next_part(pv, k) && forall|j: int|
                            0 <= j < k ==> !#[trigger] is_next_part(pv, j);
                    if k < i {
                        assert(!is_next_part(pv, k));
                    } else if k > i {
                        assert(!is_next_part(pv, i as int));
                    }
                    assert(k == i);
                    assert(next_link_spec(link@) == Some(link_target(trimmed(pv[i as int]))));
                }
                return Some(url);
            }
        }
        proof {
            assert(!is_next_part(pv, i as int));
        }
        i += 1;
    }
    None
}

pub open spec fn opt_string_view_of(o: Option<String>) -> Option<Seq<char>> {
    match o {
        Some(s) => Some(s@),
        None => None,
    }
}

/// Reads `GET /statuses/{id}`: favourites, reblogs and replies counts, and
/// the status URL; Mastodon reports no impressions.
pub fn engagement(json: &JsonValue) -> (r: Engagement)
    ensures
        r.likes == text_count(u64_at(*json, "favourites_count"@)),
        r.reposts == text_count(u64_at(*json, "reblogs_count"@)),
        r.replies == text_count(u64_at(*json, "replies_count"@)),
        r.impressions is None,
        opt_string_view_of(r.platform_url) == str_at(*json, "url"@),
{
    let likes = match json.u64_field("favourites_count") {
        Some(n) => n,
        None => 0,
    };
    let reposts = match json.u64_field("reblogs_count") {
        Some(n) => n,
        None => 0,
    };
    let replies = match json.u64_field("replies_count") {
        Some(n) => n,
        None => 0,
    };
    let url = match json.str_field("url") {
        Some(u) => Some(to_owned_string(u)),
        None => None,
    };
    Engagement { likes, reposts, replies, impressions: None, platform_url: url }
}

/// A counter read from a reply: 0 when absent.
pub open spec fn text_count(o: Option<u64>) -> u64 {
    match o {
        Some(n) => n,
        None => 0,
    }
}

/// `s` without the copies of `p` at its start, as `s.trim_start_matches(p)`.
pub open spec fn trim_start_text(s: Seq<char>, p: Seq<char>) -> Seq<char>
    decreases s.len(),
{
    if p.len() > 0 && starts_with_text(s, p) {
        trim_start_text(s.skip(p.len() as int), p)
    } else {
        s
    }
}

fn trim_start_https(s: &str) -> (r: String)
    ensures
        r@ == trim_start_text(s@, "https://"@),
{
    proof {
        reveal_strlit("https://");
    }
    let v = chars_of(s);
    let p = chars_of("https://");
    let mut start: usize = 0;
    proof {
        assert(v@.skip(0) =~= v@);
    }
    while start <= v.len() && v.len() - start >= 8 && occurs_at_exec(&v, &p, start)
        invariant
            0 <= start <= v@.len(),
            p@ == "https://"@,
            p@.len() == 8,
            trim_start_text(v@, "https://"@) == trim_start_text(v@.skip(start as int), "https://"@),
        decreases v@.len() - start,
    {
        proof {
            let rest = v@.skip(start as int);
            assert(rest.subrange(0, 8) =~= v@.subrange(start as int, start + 8));
            assert(starts_with_text(rest, "https://"@));
            assert(rest.skip(8) =~= v@.skip(start + 8));
            assert(trim_start_text(rest, "https://"@) == trim_start_text(rest.skip(8), "https://"@));
        }
        start = start + 8;
    }
    proof {
        let rest = v@.skip(start as int);
        if v@.len() - start >= 8 {
            assert(rest.subrange(0, 8) =~= v@.subrange(start as int, start + 8));
        }
        assert(!starts_with_text(rest, "https://"@));
    }
    let mut out: Vec<char> = Vec::new();
    let mut k: usize = start;
    while k < v.len()
        invariant
            start <= k <= v@.len(),
            out@ == v@.subrange(start as int, k as int),
        decreases v@.len() - k,
    {
        out.push(v[k]);
        proof {
            assert(out@ =~= v@.subrange(start as int, k + 1));
        }
        k += 1;
    }
    proof {
        assert(out@ =~= v@.skip(start as int));
    }
    string_of_chars(out.as_slice())
}

pub open spec fn image_host_spec(url: Seq<char>) -> Seq<char> {
    before_char(before_char(trim_start_text(url, "https://"@), '/'), ':')
}

pub open spec fn image_https_message(url: Seq<char>) -> Seq<char> {
    "Image URL must use HTTPS: "@ + url
}

/// The host name of an image URL, checked before the image is fetched: the
/// URL must use HTTPS and name a host.
pub fn image_url_host(url: &str) -> (r: Result<String, ProviderError>)
    ensures
        !starts_with_text(url@, "https://"@) ==> r is Err && is_unknown_error(r->Err_0, image_https_message(url@)),
        starts_with_text(url@, "https://"@) ==> if image_host_spec(url@).len() == 0 {
            r is Err && is_unknown_error(r->Err_0, "Image URL has no hostname"@)
        } else {
            r is Ok && r->Ok_0@ == image_host_spec(url@)
        },
{
    if !starts_with_str(url, "https://") {
        return Err(ProviderError::Unknown(join2("Image URL must use HTTPS: ", url)));
    }
    let rest = trim_start_https(url);
    let path_head = before_char_str(rest.as_str(), '/');
    let host = before_char_str(path_head.as_str(), ':');
    if host.as_str().is_empty() {
        return Err(ProviderError::Unknown(to_owned_string("Image URL has no hostname")));
    }
    Ok(host)
}

pub open spec fn image_private_message(shown: Seq<char>) -> Seq<char> {
    "Image URL resolves to a private IP address ("@ + shown + ")"@
}

/// Checks the addresses an image host resolved to: none may be private.
pub fn check_image_addresses(addrs: &[(IpAddress, String)]) -> (r: Result<(), ProviderError>)
    ensures
        match first_private(addrs@) {
            None => r is Ok,
            Some(i) => r is Err && is_unknown_error(r->Err_0, image_private_message(addrs@[i].1@)),
        },
{
    let mut i: usize = 0;
    while i < addrs.len()
        invariant
            0 <= i <= addrs@.len(),
            forall|j: int| 0 <= j < i ==> !private_ip(#[trigger] addrs@[j].0),
        decreases addrs@.len() - i,
    {
        if is_private_ip(addrs[i].0) {
            proof {
                let k = choose|k: int|
                    0 <= k < addrs@.len() && private_ip(addrs@[k].0) && forall|j: int|
                        0 <= j < k ==> !private_ip(#[trigger] addrs@[j].0);
                assert(private_ip(addrs@[i as int].0));
                if k < i {
                    assert(!private_ip(addrs@[k].0));
                } else if k > i {
                    assert(!private_ip(addrs@[i as int].0));
                }
            }
            return Err(
                ProviderError::Unknown(join3("Image URL resolves to a private IP address (", addrs[i].1.as_str(), ")")),
            );
        }
        i += 1;
    }
    Ok(())
}

pub open spec fn missing_media_id_message(json_text: Seq<char>) -> Seq<char> {
    "Missing id in media upload response: "@ + json_text
}

/// Reads the reply to a media upload: the media ID to attach to a status.
pub fn media_id(json: &JsonValue, json_text: &str) -> (r: Result<String, ProviderError>)
    ensures
        match str_at(*json, "id"@) {
            Some(id) => r is Ok && r->Ok_0@ == id,
            None => r is Err && is_unknown_error(r->Err_0, missing_media_id_message(json_text@)),
        },
{
    match json.str_field("id") {
        Some(id) => Ok(to_owned_string(id)),
        None => Err(ProviderError::Unknown(join2("Missing id in media upload response: ", json_text))),
    }
}

} // verus!

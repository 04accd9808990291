//! Zernio: the request to schedule a post and how its replies are read.
use vstd::prelude::*;
use crate::json::{
    entry_value, array_of, element, entry_keys, field, filter_map_json, json_str, keys_of, lemma_filter_map_step, push_entry,
    str_at, str_of, JsonValue,
};
use crate::providers::common::{
    check_response_status, chrono_accepts, http_error, UtcTime, content_preview, engagement_counts, engagement_from, engagement_spec, is_unknown_error, parse_rfc3339,
    preview_text, profile_views, queued_views, rfc3339_utc, scheduled_view, strings_view, utc_of, ProfileView,
    QueuedPost, QueuedView,
};
use crate::provider_policy::{auth_failure, zernio_platform, zernio_platform_spec};
use crate::schedule_time::{instant_text, utc_rfc3339};
use crate::scheduling::{opt_str_view, Engagement, PostScheduleResult, ProviderError, ProviderKind, SchedulerProfile};
use std::time::Duration;
use crate::text::{join2, str_eq, to_owned_string};

verus! {

broadcast use vstd::string::group_string_axioms;

/// A connected account is named: `profile_id` is given and not empty.
pub open spec fn account_given(profile_id: Option<Seq<char>>) -> bool {
    profile_id matches Some(a) && a.len() > 0
}

/// Members of the `platforms[0]` entry of a schedule request.
pub open spec fn platform_entry_keys(profile_id: Option<Seq<char>>) -> Seq<Seq<char>> {
    if account_given(profile_id) {
        seq!["platform"@, "accountId"@]
    } else {
        seq!["platform"@]
    }
}

/// Members of a schedule request: the content and target, then either the
/// schedule time with its zone or `publishNow`, then the image, as a media
/// item, when given.
pub open spec fn body_keys(scheduled: bool, image: bool) -> Seq<Seq<char>> {
    let base = seq!["content"@, "platforms"@];
    let timed = if scheduled {
        base + seq!["scheduledFor"@, "timezone"@]
    } else {
        base.push("publishNow"@)
    };
    if image {
        timed.push("mediaItems"@)
    } else {
        timed
    }
}

/// The body of `POST /api/v1/posts`. `scheduled_for` is the instant
/// to publish at, sent as RFC 3339 text; without
/// it the post is published at once.
pub fn build_schedule_body(
    content: &str,
    platform: &str,
    scheduled_for: Option<UtcTime>,
    image_url: Option<&str>,
    profile_id: Option<&str>,
) -> (r: JsonValue)
    requires
        scheduled_for matches Some(t) ==> chrono_accepts(t),
    ensures
        keys_of(r) == body_keys(scheduled_for is Some, image_url is Some),
        str_at(r, "content"@) == Some(content@),
        array_of(field(r, "platforms"@)) matches Some(ps) && ps.len() == 1,
        keys_of(element(field(r, "platforms"@), 0)) == platform_entry_keys(opt_str_view(profile_id)),
        str_at(element(field(r, "platforms"@), 0), "platform"@) == Some(zernio_platform_spec(platform@)),
        account_given(opt_str_view(profile_id)) ==> str_at(element(field(r, "platforms"@), 0), "accountId"@)
            == opt_str_view(profile_id),
        match scheduled_for {
            Some(t) => str_at(r, "scheduledFor"@) == utc_rfc3339(t.secs, t.nanos) && str_at(r, "timezone"@) == Some("UTC"@),
            None => field(r, "publishNow"@) == JsonValue::Bool(true),
        },
        match image_url {
            Some(u) => array_of(field(r, "mediaItems"@)) matches Some(items) && items.len() == 1 && keys_of(
                items[0],
            ) == seq!["type"@, "url"@] && str_at(items[0], "type"@) == Some("image"@) && str_at(items[0], "url"@)
                == Some(u@),
            None => true,
        },
{
    proof {
        reveal_strlit("platform");
        reveal_strlit("accountId");
        reveal_strlit("content");
        reveal_strlit("platforms");
        reveal_strlit("scheduledFor");
        reveal_strlit("timezone");
        reveal_strlit("publishNow");
        reveal_strlit("mediaItems");
        reveal_strlit("type");
        reveal_strlit("url");
        assert("platform"@.len() == 8 && "accountId"@.len() == 9);
        assert("content"@.len() == 7 && "platforms"@.len() == 9 && "scheduledFor"@.len() == 12);
        assert("timezone"@.len() == 8 && "publishNow"@.len() == 10 && "mediaItems"@.len() == 10);
        assert("publishNow"@[0] != "mediaItems"@[0]);
        assert("type"@.len() == 4 && "url"@.len() == 3);
    }
    let mut entry: Vec<(String, JsonValue)> = Vec::new();
    let name = zernio_platform(platform);
    push_entry(&mut entry, "platform", json_str(name.as_str()));
    match profile_id {
        Some(account) => {
            if !account.is_empty() {
                push_entry(&mut entry, "accountId", json_str(account));
            }
        },
        None => {},
    }
    let ghost entry_seq = entry@;
    let entry_obj = JsonValue::Object(entry);
    let ghost ev = entry_obj;
    let mut platforms: Vec<JsonValue> = Vec::new();
    platforms.push(entry_obj);
    let platforms_value = JsonValue::Array(platforms);
    let ghost pv = platforms_value;
    proof {
        assert(array_of(pv) matches Some(ps) && ps.len() == 1);
        assert(element(pv, 0) == ev);
        assert(keys_of(ev) == entry_keys(entry_seq));
    }
    let mut body: Vec<(String, JsonValue)> = Vec::new();
    push_entry(&mut body, "content", json_str(content));
    push_entry(&mut body, "platforms", platforms_value);
    assert(entry_value(body@, "platforms"@) == Some(pv));
    match scheduled_for {
        Some(t) => {
            let text = instant_text(t);
            push_entry(&mut body, "scheduledFor", json_str(text.as_str()));
            assert(entry_value(body@, "platforms"@) == Some(pv));
            push_entry(&mut body, "timezone", json_str("UTC"));
            assert(entry_value(body@, "platforms"@) == Some(pv));
            assert(str_at(JsonValue::Object(body), "scheduledFor"@) == Some(text@));
            assert(str_at(JsonValue::Object(body), "timezone"@) == Some("UTC"@));
        },
        None => {
            push_entry(&mut body, "publishNow", JsonValue::Bool(true));
            assert(entry_value(body@, "platforms"@) == Some(pv));
        },
    }
    match image_url {
        Some(u) => {
            let mut item: Vec<(String, JsonValue)> = Vec::new();
            push_entry(&mut item, "type", json_str("image"));
            let ghost first = item@;
            push_entry(&mut item, "url", json_str(u));
            proof {
                assert(entry_value(first, "type"@) is Some);
                assert(entry_value(item@, "type"@) == entry_value(first, "type"@));
                assert(entry_value(first, "url"@) is None);
                assert(entry_keys(item@) =~= seq!["type"@, "url"@]);
            }
            let item_value = JsonValue::Object(item);
            let mut items: Vec<JsonValue> = Vec::new();
            items.push(item_value);
            let media = JsonValue::Array(items);
            let ghost mv = media;
            push_entry(&mut body, "mediaItems", media);
            assert(entry_value(body@, "platforms"@) == Some(pv));
            assert(entry_value(body@, "mediaItems"@) == Some(mv));
        },
        None => {},
    }
    proof {
        assert(entry_keys(body@) =~= body_keys(scheduled_for is Some, image_url is Some));
        assert(entry_keys(entry_seq) =~= platform_entry_keys(opt_str_view(profile_id)));
    }
    JsonValue::Object(body)
}

/// The post's ID at `post._id`.
pub open spec fn post_id_of(json: JsonValue) -> Option<Seq<char>> {
    str_at(field(json, "post"@), "_id"@)
}

/// The public URL Zernio gives at once for a post published now:
/// `post.platforms[0].platformPostUrl`.
pub open spec fn post_url_of(json: JsonValue) -> Option<Seq<char>> {
    str_at(element(field(field(json, "post"@), "platforms"@), 0), "platformPostUrl"@)
}

pub open spec fn missing_post_id_message(json_text: Seq<char>) -> Seq<char> {
    "Missing post._id in response. Full response: "@ + json_text
}

/// What reading a successful schedule reply gives.
pub open spec fn schedule_result_matches(r: Result<PostScheduleResult, ProviderError>, json: JsonValue, json_text: Seq<char>) -> bool {
    match post_id_of(json) {
        Some(id) => r is Ok && scheduled_view(r->Ok_0) == (id, post_url_of(json)),
        None => r is Err && is_unknown_error(r->Err_0, missing_post_id_message(json_text)),
    }
}

/// Reads the reply to a schedule request. `json_text` is the reply as text,
/// quoted in the error when the post ID is missing.
pub fn schedule_result(json: &JsonValue, json_text: &str) -> (r: Result<PostScheduleResult, ProviderError>)
    ensures
        schedule_result_matches(r, *json, json_text@),
{
    let post = json.get("post");
    let id = match post {
        Some(p) => p.str_field("_id"),
        None => None,
    };
    match id {
        Some(id) => {
            let url = match post {
                Some(p) => match p.get("platforms") {
                    Some(ps) => match ps.at(0) {
                        Some(first) => first.str_field("platformPostUrl"),
                        None => None,
                    },
                    None => None,
                },
                None => None,
            };
            let platform_url = match url {
                Some(u) => Some(to_owned_string(u)),
                None => None,
            };
            Ok(PostScheduleResult { scheduler_id: to_owned_string(id), platform_url })
        },
        None => Err(ProviderError::Unknown(join2("Missing post._id in response. Full response: ", json_text))),
    }
}

/// The status Zernio answers when the same content was already scheduled or
/// posted to the account: the request then counts as done.
pub open spec fn already_posted_status() -> u16 {
    409
}

/// Whether a reply status says the content was already posted.
pub fn is_already_posted(status: u16) -> (r: bool)
    ensures
        r == (status == already_posted_status()),
{
    status == 409
}

/// The existing post's ID in a 409 reply, at `details.existingPostId`.
pub open spec fn existing_post_id_of(json: JsonValue) -> Option<Seq<char>> {
    str_at(field(json, "details"@), "existingPostId"@)
}

pub open spec fn missing_existing_id_message(json_text: Seq<char>) -> Seq<char> {
    "Missing details.existingPostId in 409 response: "@ + json_text
}

/// What reading a 409 reply gives.
pub open spec fn conflict_result_matches(r: Result<PostScheduleResult, ProviderError>, json: JsonValue, json_text: Seq<char>) -> bool {
    match existing_post_id_of(json) {
        Some(id) => r is Ok && scheduled_view(r->Ok_0) == (id, None::<Seq<char>>),
        None => r is Err && is_unknown_error(r->Err_0, missing_existing_id_message(json_text)),
    }
}

/// Reads a 409 reply to a schedule request: the post already exists, and
/// its ID is the result. `json_text` is the reply as text, quoted in the
/// error when the ID is missing.
pub fn conflict_result(json: &JsonValue, json_text: &str) -> (r: Result<PostScheduleResult, ProviderError>)
    ensures
        conflict_result_matches(r, *json, json_text@),
{
    let id = match json.get("details") {
        Some(d) => d.str_field("existingPostId"),
        None => None,
    };
    match id {
        Some(id) => Ok(PostScheduleResult { scheduler_id: to_owned_string(id), platform_url: None }),
        None => Err(
            ProviderError::Unknown(join2("Missing details.existingPostId in 409 response: ", json_text)),
        ),
    }
}

pub open spec fn parse_failed_message(e: Seq<char>) -> Seq<char> {
    "Failed to parse response: "@ + e
}

/// The outcome of reading a reply body as JSON: the parse error when it is
/// not JSON, else what reading the value and its text as a 409 reply
/// (`conflict`) or as a successful reply gives.
pub open spec fn body_read_matches(
    r: Result<PostScheduleResult, ProviderError>,
    reply: Result<(JsonValue, String), String>,
    conflict: bool,
) -> bool {
    match reply {
        Err(e) => r is Err && is_unknown_error(r->Err_0, parse_failed_message(e@)),
        Ok((j, t)) => if conflict {
            conflict_result_matches(r, j, t@)
        } else {
            schedule_result_matches(r, j, t@)
        },
    }
}

/// Reads the reply to `POST /api/v1/posts` from its status, the wait its
/// rate-limit headers ask for, its body as text, and that body read as JSON
/// (with the value's text), or the reason it is not JSON. A refused key or
/// a rate limit comes first; then a 409 means the content was already
/// posted; any other failure status is an HTTP error carrying the body.
pub fn schedule_reply(
    status: u16,
    wait: Duration,
    body: String,
    reply: Result<(JsonValue, String), String>,
) -> (r: Result<PostScheduleResult, ProviderError>)
    ensures
        match auth_failure(ProviderKind::Zernio, status) {
            Some(m) => r matches Err(ProviderError::AuthError(msg)) && msg@ == m,
            None => if status == 429 {
                r == Err::<PostScheduleResult, ProviderError>(ProviderError::RateLimit(wait))
            } else if status == already_posted_status() {
                body_read_matches(r, reply, true)
            } else if !(200 <= status < 300) {
                r == Err::<PostScheduleResult, ProviderError>(ProviderError::HttpError { status: status, body: body })
            } else {
                body_read_matches(r, reply, false)
            },
        },
{
    match check_response_status(ProviderKind::Zernio, status, wait) {
        Err(e) => return Err(e),
        Ok(()) => {},
    }
    let conflict = is_already_posted(status);
    if !conflict && !(200 <= status && status < 300) {
        return Err(http_error(status, body));
    }
    match reply {
        Err(e) => Err(ProviderError::Unknown(join2("Failed to parse response: ", e.as_str()))),
        Ok((j, t)) => if conflict {
            conflict_result(&j, t.as_str())
        } else {
            schedule_result(&j, t.as_str())
        },
    }
}

/// Zernio's platform name as Postlane spells it: `twitter` is `x`.
pub open spec fn postlane_platform(p: Seq<char>) -> Seq<char> {
    if p == "twitter"@ {
        "x"@
    } else {
        p
    }
}

/// The profile an account entry gives: it needs `_id`, a name (`username`,
/// else `name`) and `platform`.
pub open spec fn account_profile(a: JsonValue) -> Option<ProfileView> {
    match (str_at(a, "_id"@), if str_at(a, "username"@) is Some {
        str_at(a, "username"@)
    } else {
        str_at(a, "name"@)
    }, str_at(a, "platform"@)) {
        (Some(id), Some(name), Some(p)) => Some((id, name, seq![postlane_platform(p)])),
        _ => None,
    }
}

/// A Zernio account is shown by its username: an entry with `_id`,
/// `username` and `platform` becomes that profile whatever its `name`; only
/// without a `username` is the `name` used; `twitter` is shown as `x`.
pub proof fn lemma_account_named_by_username(a: JsonValue)
    ensures
        str_at(a, "_id"@) is Some && str_at(a, "username"@) is Some && str_at(a, "platform"@) is Some ==> account_profile(
            a,
        ) == Some((str_at(a, "_id"@)->0, str_at(a, "username"@)->0, seq![postlane_platform(str_at(a, "platform"@)->0)])),
        str_at(a, "_id"@) is Some && str_at(a, "username"@) is None && str_at(a, "name"@) is Some && str_at(a, "platform"@)
            is Some ==> account_profile(a) == Some(
            (str_at(a, "_id"@)->0, str_at(a, "name"@)->0, seq![postlane_platform(str_at(a, "platform"@)->0)]),
        ),
        str_at(a, "_id"@) is None || str_at(a, "platform"@) is None || (str_at(a, "username"@) is None && str_at(a, "name"@)
            is None) ==> account_profile(a) is None,
        postlane_platform("twitter"@) == "x"@,
        forall|p: Seq<char>| p != "twitter"@ ==> postlane_platform(p) == p,
{
}

pub open spec fn missing_accounts_message(json_text: Seq<char>) -> Seq<char> {
    "Missing accounts array in response. Full response: "@ + json_text
}

fn profile_of_account(a: &JsonValue) -> (r: Option<SchedulerProfile>)
    ensures
        match r {
            Some(p) => account_profile(*a) == Some(crate::providers::common::profile_view(p)),
            None => account_profile(*a) is None,
        },
{
    proof {
        reveal_strlit("twitter");
        reveal_strlit("x");
    }
    let id = match a.str_field("_id") {
        Some(s) => s,
        None => return None,
    };
    let name = match a.str_field("username") {
        Some(s) => s,
        None => match a.str_field("name") {
            Some(s) => s,
            None => return None,
        },
    };
    let platform = match a.str_field("platform") {
        Some(s) => s,
        None => return None,
    };
    let shown = if str_eq(platform, "twitter") {
        to_owned_string("x")
    } else {
        to_owned_string(platform)
    };
    let mut platforms: Vec<String> = Vec::new();
    platforms.push(shown);
    let p = SchedulerProfile { id: to_owned_string(id), name: to_owned_string(name), platforms };
    proof {
        assert(strings_view(p.platforms@) =~= seq![postlane_platform(platform@)]);
    }
    Some(p)
}

/// Reads the connected accounts from `GET /api/v1/accounts`: one profile per
/// complete account entry, in order.
pub fn profiles(json: &JsonValue, json_text: &str) -> (r: Result<Vec<SchedulerProfile>, ProviderError>)
    ensures
        match array_of(field(*json, "accounts"@)) {
            Some(items) => r is Ok && profile_views(r->Ok_0@) == filter_map_json(items, |a: JsonValue| account_profile(a)),
            None => r is Err && is_unknown_error(r->Err_0, missing_accounts_message(json_text@)),
        },
{
    let items = match json.array_field("accounts") {
        Some(v) => v,
        None => {
            return Err(
                ProviderError::Unknown(join2("Missing accounts array in response. Full response: ", json_text)),
            )
        },
    };
    let ghost f = |a: JsonValue| account_profile(a);
    let mut out: Vec<SchedulerProfile> = Vec::new();
    let mut i: usize = 0;
    while i < items.len()
        invariant
            0 <= i <= items@.len(),
            f == (|a: JsonValue| account_profile(a)),
            profile_views(out@) == filter_map_json(items@.take(i as int), f),
        decreases items@.len() - i,
    {
        proof {
            lemma_filter_map_step(items@, f, i as int);
        }
        match profile_of_account(&items[i]) {
            Some(p) => {
                let ghost before = out@;
                out.push(p);
                proof {
                    assert(profile_views(out@) =~= profile_views(before).push(
                        crate::providers::common::profile_view(p),
                    ));
                }
            },
            None => {},
        }
        i += 1;
    }
    proof {
        assert(items@.take(items@.len() as int) =~= items@);
    }
    Ok(out)
}

/// A queue entry: it needs an RFC 3339 `scheduled_for` chrono accepts,
/// `content`, `post_id` and `platform`.
pub open spec fn queue_item(p: JsonValue) -> Option<QueuedView> {
    match (str_at(p, "scheduled_for"@), str_at(p, "content"@), str_at(p, "post_id"@), str_at(p, "platform"@)) {
        (Some(when), Some(content), Some(id), Some(platform)) => match utc_of(rfc3339_utc(when)) {
            Some(t) => Some((id, platform, t, preview_text(content))),
            None => None,
        },
        _ => None,
    }
}

fn queued_of(p: &JsonValue) -> (r: Option<QueuedPost>)
    ensures
        match r {
            Some(q) => queue_item(*p) == Some(crate::providers::common::queued_view(q)),
            None => queue_item(*p) is None,
        },
{
    let when = match p.str_field("scheduled_for") {
        Some(s) => s,
        None => return None,
    };
    let t = match parse_rfc3339(when) {
        Some(t) => t,
        None => return None,
    };
    let content = match p.str_field("content") {
        Some(s) => s,
        None => return None,
    };
    let id = match p.str_field("post_id") {
        Some(s) => s,
        None => return None,
    };
    let platform = match p.str_field("platform") {
        Some(s) => s,
        None => return None,
    };
    Some(
        QueuedPost {
            post_id: to_owned_string(id),
            platform: to_owned_string(platform),
            scheduled_for: t,
            content_preview: content_preview(content),
        },
    )
}

/// Reads the queue from `GET /api/v1/queue`: one queued post per complete
/// entry of `posts`, in order.
pub fn queue(json: &JsonValue) -> (r: Result<Vec<QueuedPost>, ProviderError>)
    ensures
        match array_of(field(*json, "posts"@)) {
            Some(items) => r is Ok && queued_views(r->Ok_0@) == filter_map_json(items, |p: JsonValue| queue_item(p)),
            None => r is Err && is_unknown_error(r->Err_0, "Missing posts array"@),
        },
{
    let items = match json.array_field("posts") {
        Some(v) => v,
        None => return Err(ProviderError::Unknown(to_owned_string("Missing posts array"))),
    };
    let ghost f = |p: JsonValue| queue_item(p);
    let mut out: Vec<QueuedPost> = Vec::new();
    let mut i: usize = 0;
    while i < items.len()
        invariant
            0 <= i <= items@.len(),
            f == (|p: JsonValue| queue_item(p)),
            queued_views(out@) == filter_map_json(items@.take(i as int), f),
        decreases items@.len() - i,
    {
        proof {
            lemma_filter_map_step(items@, f, i as int);
        }
        match queued_of(&items[i]) {
            Some(q) => {
                let ghost before = out@;
                out.push(q);
                proof {
                    assert(queued_views(out@) =~= queued_views(before).push(
                        crate::providers::common::queued_view(q),
                    ));
                }
            },
            None => {},
        }
        i += 1;
    }
    proof {
        assert(items@.take(items@.len() as int) =~= items@);
    }
    Ok(out)
}

/// Reads `GET /api/v1/posts/{id}/engagement`: `likes`, `reposts`, `replies`
/// and `impressions` at the top level.
pub fn engagement(json: &JsonValue) -> (r: Engagement)
    ensures
        engagement_counts(r) == engagement_spec(*json, "likes"@, "reposts"@, "replies"@, Some("impressions"@)),
        r.platform_url is None,
{
    engagement_from(json, "likes", "reposts", "replies", Some("impressions"))
}

/// The body of the cancel request: the platform to cancel on.
pub fn cancel_body(platform: &str) -> (r: JsonValue)
    ensures
        keys_of(r) == seq!["platform"@],
        str_at(r, "platform"@) == Some(platform@),
{
    let mut body: Vec<(String, JsonValue)> = Vec::new();
    push_entry(&mut body, "platform", json_str(platform));
    proof {
        assert(entry_keys(body@) =~= seq!["platform"@]);
    }
    JsonValue::Object(body)
}

} // verus!

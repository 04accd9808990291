//! Outstand: the request to schedule a post and how its replies are read.
use vstd::prelude::*;
use std::time::Duration;
use crate::json::{
    array_of, element, entry_keys, field, filter_map_json, json_str, keys_of, lemma_filter_map_step, push_entry,
    str_at, str_of, JsonValue,
};
use crate::providers::common::{
    chrono_accepts, UtcTime,
    check_matches, check_response_status, content_preview, engagement_counts, engagement_from, engagement_spec,
    is_not_supported, is_unknown_error, parse_rfc3339, preview_text, profile_view, profile_views, queued_view, queued_views,
    rfc3339_utc, scheduled_view, strings_view, utc_of, ProfileView, QueuedPost, QueuedView,
};
use crate::scheduling::{opt_str_view, Engagement, PostScheduleResult, ProviderError, ProviderKind, SchedulerProfile};
use crate::text::{join2, to_owned_string};

use crate::schedule_time::{instant_text, utc_rfc3339};

verus! {

broadcast use vstd::string::group_string_axioms;

pub open spec fn text_or(o: Option<Seq<char>>, d: Seq<char>) -> Seq<char> {
    match o {
        Some(s) => s,
        None => d,
    }
}

fn str_or<'a>(s: Option<&'a str>, d: &'a str) -> (r: &'a str)
    ensures
        r@ == text_or(opt_str_view(s), d@),
{
    match s {
        Some(t) => t,
        None => d,
    }
}

/// The body of `POST /posts`: one container with the text, the account IDs
/// (the one given, or none), and when scheduled the instant as RFC 3339
/// text.
pub fn build_schedule_body(content: &str, scheduled_for: Option<UtcTime>, profile_id: Option<&str>) -> (r: JsonValue)
    requires
        scheduled_for matches Some(t) ==> chrono_accepts(t),
    ensures
        keys_of(r) == (if scheduled_for is Some {
            seq!["containers"@, "socialAccountIds"@, "scheduledAt"@]
        } else {
            seq!["containers"@, "socialAccountIds"@]
        }),
        array_of(field(r, "containers"@)) matches Some(cs) && cs.len() == 1,
        keys_of(element(field(r, "containers"@), 0)) == seq!["content"@],
        str_at(element(field(r, "containers"@), 0), "content"@) == Some(content@),
        array_of(field(r, "socialAccountIds"@)) matches Some(ids) && ids.len() == (if profile_id is Some {
            1int
        } else {
            0
        }),
        match profile_id {
            Some(p) => str_of(element(field(r, "socialAccountIds"@), 0)) == Some(p@),
            None => true,
        },
        match scheduled_for {
            Some(t) => str_at(r, "scheduledAt"@) == utc_rfc3339(t.secs, t.nanos),
            None => true,
        },
{
    proof {
        reveal_strlit("containers");
        reveal_strlit("socialAccountIds");
        reveal_strlit("scheduledAt");
        reveal_strlit("content");
        assert("containers"@.len() == 10 && "socialAccountIds"@.len() == 16 && "scheduledAt"@.len() == 11);
    }
    let mut container: Vec<(String, JsonValue)> = Vec::new();
    push_entry(&mut container, "content", json_str(content));
    let ghost container_seq = container@;
    let container_obj = JsonValue::Object(container);
    let ghost co = container_obj;
    let mut containers: Vec<JsonValue> = Vec::new();
    containers.push(container_obj);
    let containers_value = JsonValue::Array(containers);
    let ghost cv = containers_value;
    let mut ids: Vec<JsonValue> = Vec::new();
    match profile_id {
        Some(p) => {
            ids.push(json_str(p));
        },
        None => {},
    }
    let ids_value = JsonValue::Array(ids);
    let ghost iv = ids_value;
    proof {
        assert(element(cv, 0) == co);
        assert(keys_of(co) == entry_keys(container_seq));
        assert(entry_keys(container_seq) =~= seq!["content"@]);
    }
    let mut body: Vec<(String, JsonValue)> = Vec::new();
    push_entry(&mut body, "containers", containers_value);
    push_entry(&mut body, "socialAccountIds", ids_value);
    assert(crate::json::entry_value(body@, "containers"@) == Some(cv));
    assert(crate::json::entry_value(body@, "socialAccountIds"@) == Some(iv));
    match scheduled_for {
        Some(t) => {
            let text = instant_text(t);
            push_entry(&mut body, "scheduledAt", json_str(text.as_str()));
            assert(crate::json::entry_value(body@, "containers"@) == Some(cv));
            assert(crate::json::entry_value(body@, "socialAccountIds"@) == Some(iv));
        },
        None => {},
    }
    proof {
        assert(entry_keys(body@) =~= (if scheduled_for is Some {
            seq!["containers"@, "socialAccountIds"@, "scheduledAt"@]
        } else {
            seq!["containers"@, "socialAccountIds"@]
        }));
    }
    JsonValue::Object(body)
}

pub open spec fn missing_id_message(json_text: Seq<char>) -> Seq<char> {
    "Missing data.id in response: "@ + json_text
}

/// Reads the reply to a schedule request: `data.id`, and `data.postUrl` when
/// present.
pub fn schedule_result(json: &JsonValue, json_text: &str) -> (r: Result<PostScheduleResult, ProviderError>)
    ensures
        match str_at(field(*json, "data"@), "id"@) {
            Some(id) => r is Ok && scheduled_view(r->Ok_0) == (id, str_at(field(*json, "data"@), "postUrl"@)),
            None => r is Err && is_unknown_error(r->Err_0, missing_id_message(json_text@)),
        },
{
    let data = json.get("data");
    let id = match data {
        Some(d) => d.str_field("id"),
        None => None,
    };
    match id {
        Some(id) => {
            let url = match data {
                Some(d) => match d.str_field("postUrl") {
                    Some(u) => Some(to_owned_string(u)),
                    None => None,
                },
                None => None,
            };
            Ok(PostScheduleResult { scheduler_id: to_owned_string(id), platform_url: url })
        },
        None => Err(ProviderError::Unknown(join2("Missing data.id in response: ", json_text))),
    }
}

/// A social account entry: it needs `id`; a missing name reads as empty and
/// a missing platform as `unknown`.
pub open spec fn account_profile(a: JsonValue) -> Option<ProfileView> {
    match str_at(a, "id"@) {
        Some(id) => Some((id, text_or(str_at(a, "name"@), ""@), seq![text_or(str_at(a, "platform"@), "unknown"@)])),
        None => None,
    }
}

/// An Outstand account needs only its `id`: its name is `name` (empty when
/// missing) and its one platform is `platform` (`unknown` when missing).
pub proof fn lemma_account_needs_only_id(a: JsonValue)
    ensures
        str_at(a, "id"@) is None ==> account_profile(a) is None,
        str_at(a, "id"@) is Some ==> account_profile(a) is Some && account_profile(a)->0 == (
            str_at(a, "id"@)->0,
            if str_at(a, "name"@) is Some { str_at(a, "name"@)->0 } else { ""@ },
            seq![if str_at(a, "platform"@) is Some { str_at(a, "platform"@)->0 } else { "unknown"@ }],
        ),
{
}

fn profile_of_account(a: &JsonValue) -> (r: Option<SchedulerProfile>)
    ensures
        match r {
            Some(p) => account_profile(*a) == Some(profile_view(p)),
            None => account_profile(*a) is None,
        },
{
    let id = match a.str_field("id") {
        Some(s) => s,
        None => return None,
    };
    let name = str_or(a.str_field("name"), "");
    let platform = str_or(a.str_field("platform"), "unknown");
    let mut platforms: Vec<String> = Vec::new();
    platforms.push(to_owned_string(platform));
    let p = SchedulerProfile { id: to_owned_string(id), name: to_owned_string(name), platforms };
    proof {
        assert(strings_view(p.platforms@) =~= seq![platform@]);
    }
    Some(p)
}

pub open spec fn items_or_empty(o: Option<Seq<JsonValue>>) -> Seq<JsonValue> {
    match o {
        Some(items) => items,
        None => Seq::empty(),
    }
}

/// Reads `GET /social-accounts`: one profile per account in `data` with an
/// ID; no `data` array means no accounts.
pub fn profiles(json: &JsonValue) -> (r: Vec<SchedulerProfile>)
    ensures
        profile_views(r@) == filter_map_json(
            items_or_empty(array_of(field(*json, "data"@))),
            |a: JsonValue| account_profile(a),
        ),
{
    let mut out: Vec<SchedulerProfile> = Vec::new();
    let items = match json.array_field("data") {
        Some(v) => v,
        None => {
            proof {
                assert(profile_views(out@) =~= Seq::<ProfileView>::empty());
            }
            return out;
        },
    };
    let ghost f = |a: JsonValue| account_profile(a);
    let mut i: usize = 0;
    while i < items.len()
        invariant
            0 <= i <= items@.len(),
            f == (|a: JsonValue| account_profile(a)),
            profile_views(out@) == filter_map_json(items@.take(i as int), f),
        decreases items@.len() - i,
    {
        proof {
            lemma_filter_map_step(items@, f, i as int);
        }
        match profile_of_account(&items[i]) {
            Some(p) => {
                let ghost before = out@;
                out.push(p);
                proof {
                    assert(profile_views(out@) =~= profile_views(before).push(profile_view(p)));
                }
            },
            None => {},
        }
        i += 1;
    }
    proof {
        assert(items@.take(items@.len() as int) =~= items@);
    }
    out
}

/// A scheduled post entry: it needs an RFC 3339 `scheduledAt` chrono accepts
/// and an `id`; its text is `containers[0].content` (empty when missing), its
/// platform `unknown` when missing.
pub open spec fn post_item(p: JsonValue) -> Option<QueuedView> {
    match (str_at(p, "scheduledAt"@), str_at(p, "id"@)) {
        (Some(when), Some(id)) => match utc_of(rfc3339_utc(when)) {
            Some(t) => Some(
                (
                    id,
                    text_or(str_at(p, "platform"@), "unknown"@),
                    t,
                    preview_text(text_or(str_at(element(field(p, "containers"@), 0), "content"@), ""@)),
                ),
            ),
            None => None,
        },
        _ => None,
    }
}

fn queued_of(p: &JsonValue) -> (r: Option<QueuedPost>)
    ensures
        match r {
            Some(q) => post_item(*p) == Some(queued_view(q)),
            None => post_item(*p) is None,
        },
{
    let when = match p.str_field("scheduledAt") {
        Some(s) => s,
        None => return None,
    };
    let t = match parse_rfc3339(when) {
        Some(t) => t,
        None => return None,
    };
    let first_content = match p.get("containers") {
        Some(cs) => match cs.at(0) {
            Some(c) => c.str_field("content"),
            None => None,
        },
        None => None,
    };
    let content = str_or(first_content, "");
    let id = match p.str_field("id") {
        Some(s) => s,
        None => return None,
    };
    let platform = str_or(p.str_field("platform"), "unknown");
    Some(
        QueuedPost {
            post_id: to_owned_string(id),
            platform: to_owned_string(platform),
            scheduled_for: t,
            content_preview: content_preview(content),
        },
    )
}

/// Reads `GET /posts?status=scheduled`: one queued post per usable entry of
/// `data`; no `data` array means an empty queue.
pub fn queue(json: &JsonValue) -> (r: Vec<QueuedPost>)
    ensures
        queued_views(r@) == filter_map_json(
            items_or_empty(array_of(field(*json, "data"@))),
            |p: JsonValue| post_item(p),
        ),
{
    let mut out: Vec<QueuedPost> = Vec::new();
    let items = match json.array_field("data") {
        Some(v) => v,
        None => {
            proof {
                assert(queued_views(out@) =~= Seq::<QueuedView>::empty());
            }
            return out;
        },
    };
    let ghost f = |p: JsonValue| post_item(p);
    let mut i: usize = 0;
    while i < items.len()
        invariant
            0 <= i <= items@.len(),
            f == (|p: JsonValue| post_item(p)),
            queued_views(out@) == filter_map_json(items@.take(i as int), f),
        decreases items@.len() - i,
    {
        proof {
            lemma_filter_map_step(items@, f, i as int);
        }
        match queued_of(&items[i]) {
            Some(q) => {
                let ghost before = out@;
                out.push(q);
                proof {
                    assert(queued_views(out@) =~= queued_views(before).push(queued_view(q)));
                }
            },
            None => {},
        }
        i += 1;
    }
    proof {
        assert(items@.take(items@.len() as int) =~= items@);
    }
    out
}

/// Reads `GET /posts/{id}/analytics`: counters under `data` (`likes`,
/// `shares`, `comments`, `reach`).
pub fn engagement(json: &JsonValue) -> (r: Engagement)
    ensures
        engagement_counts(r) == engagement_spec(field(*json, "data"@), "likes"@, "shares"@, "comments"@, Some("reach"@)),
        r.platform_url is None,
{
    match json.get("data") {
        Some(d) => engagement_from(d, "likes", "shares", "comments", Some("reach")),
        None => engagement_from(&JsonValue::Null, "likes", "shares", "comments", Some("reach")),
    }
}

pub open spec fn cancel_unsupported_message() -> Seq<char> {
    "Outstand does not support cancelling this post."@
}

/// Reads the status of a cancel request: 405 means the post cannot be
/// cancelled; otherwise the usual status check applies.
pub fn check_cancel_status(status: u16, wait: Duration) -> (r: Result<(), ProviderError>)
    ensures
        status == 405 ==> r is Err && is_not_supported(r->Err_0, cancel_unsupported_message()),
        status != 405 ==> check_matches(r, ProviderKind::Outstand, status, wait),
{
    if status == 405 {
        return Err(ProviderError::NotSupported(to_owned_string("Outstand does not support cancelling this post.")));
    }
    check_response_status(ProviderKind::Outstand, status, wait)
}

} // verus!

//! Publer: the bulk schedule request, the job it starts, and how the replies
//! are read. Publer schedules asynchronously: the post ID comes from polling
//! the job until it completes.
use vstd::prelude::*;
use std::time::Duration;
use crate::json::{
    array_of, element, entry_keys, field, filter_map_json, json_str, keys_of, lemma_filter_map_step, push_entry,
    str_at, JsonValue,
};
use crate::providers::common::{
    chrono_accepts, UtcTime,
    check_matches, check_response_status, content_preview, engagement_counts, engagement_from, engagement_spec,
    is_not_supported, is_unknown_error, parse_rfc3339, preview_text, profile_view, profile_views, queued_view,
    queued_views, rfc3339_utc, strings_view, utc_of, ProfileView, QueuedPost, QueuedView,
};
use crate::providers::outstand::{items_or_empty, text_or};
use crate::scheduling::{opt_str_view, Engagement, ProviderError, ProviderKind, SchedulerProfile};
use crate::text::{join2, join3, str_eq, to_owned_string};

use crate::schedule_time::{instant_text, utc_rfc3339};

verus! {

broadcast use vstd::string::group_string_axioms;

/// Most times the job status is asked for before giving up.
pub const MAX_POLLS: u32 = 5;

/// The `Authorization` header value: `Bearer-API {api_key}`.
pub fn auth_header(api_key: &str) -> (r: String)
    ensures
        r@ == "Bearer-API "@ + api_key@,
{
    join2("Bearer-API ", api_key)
}

fn str_or<'a>(s: Option<&'a str>, d: &'a str) -> (r: &'a str)
    ensures
        r@ == text_or(opt_str_view(s), d@),
{
    match s {
        Some(t) => t,
        None => d,
    }
}

/// The `accounts[0]` entry of a schedule request: the account ID and, when
/// scheduled, its time; empty when no account is given.
pub open spec fn account_keys(profile: bool, scheduled: bool) -> Seq<Seq<char>> {
    if !profile {
        Seq::empty()
    } else if scheduled {
        seq!["id"@, "scheduled_at"@]
    } else {
        seq!["id"@]
    }
}

/// `r.bulk.posts[0]`.
pub open spec fn first_post(r: JsonValue) -> JsonValue {
    element(field(field(r, "bulk"@), "posts"@), 0)
}

/// The body of `POST /posts/schedule`: one scheduled post whose `networks`
/// entry for `platform` is a feed post with the text, and one account entry
/// carrying the schedule time (sent as RFC 3339 text).
pub fn build_schedule_body(
    content: &str,
    platform: &str,
    scheduled_for: Option<UtcTime>,
    profile_id: Option<&str>,
) -> (r: JsonValue)
    requires
        scheduled_for matches Some(t) ==> chrono_accepts(t),
    ensures
        keys_of(r) == seq!["bulk"@],
        keys_of(field(r, "bulk"@)) == seq!["state"@, "posts"@],
        str_at(field(r, "bulk"@), "state"@) == Some("scheduled"@),
        array_of(field(field(r, "bulk"@), "posts"@)) matches Some(ps) && ps.len() == 1,
        keys_of(first_post(r)) == seq!["networks"@, "accounts"@],
        keys_of(field(first_post(r), "networks"@)) == seq![platform@],
        keys_of(field(field(first_post(r), "networks"@), platform@)) == seq!["type"@, "text"@],
        str_at(field(field(first_post(r), "networks"@), platform@), "type"@) == Some("feed"@),
        str_at(field(field(first_post(r), "networks"@), platform@), "text"@) == Some(content@),
        array_of(field(first_post(r), "accounts"@)) matches Some(accs) && accs.len() == 1,
        keys_of(element(field(first_post(r), "accounts"@), 0)) == account_keys(
            profile_id is Some,
            scheduled_for is Some,
        ),
        match profile_id {
            Some(p) => str_at(element(field(first_post(r), "accounts"@), 0), "id"@) == Some(p@) && match scheduled_for {
                Some(t) => str_at(element(field(first_post(r), "accounts"@), 0), "scheduled_at"@) == utc_rfc3339(t.secs, t.nanos),
                None => true,
            },
            None => true,
        },
{
    proof {
        reveal_strlit("bulk");
        reveal_strlit("state");
        reveal_strlit("posts");
        reveal_strlit("networks");
        reveal_strlit("accounts");
        reveal_strlit("type");
        reveal_strlit("text");
        reveal_strlit("id");
        reveal_strlit("scheduled_at");
        reveal_strlit("scheduled");
        reveal_strlit("feed");
        assert("state"@.len() == 5 && "posts"@.len() == 5 && "state"@[0] != "posts"@[0]);
        assert("networks"@.len() == 8 && "accounts"@.len() == 8 && "networks"@[0] != "accounts"@[0]);
        assert("type"@.len() == 4 && "text"@.len() == 4 && "type"@[1] != "text"@[1]);
        assert("id"@.len() == 2 && "scheduled_at"@.len() == 12);
    }
    let mut account: Vec<(String, JsonValue)> = Vec::new();
    match profile_id {
        Some(id) => {
            push_entry(&mut account, "id", json_str(id));
            match scheduled_for {
                Some(t) => {
                    let text = instant_text(t);
                    push_entry(&mut account, "scheduled_at", json_str(text.as_str()));
                },
                None => {},
            }
        },
        None => {},
    }
    proof {
        assert(entry_keys(account@) =~= account_keys(profile_id is Some, scheduled_for is Some));
    }
    let ghost account_seq = account@;
    let account_obj = JsonValue::Object(account);
    let ghost ao = account_obj;
    let mut accounts: Vec<JsonValue> = Vec::new();
    accounts.push(account_obj);
    let accounts_value = JsonValue::Array(accounts);
    let ghost av = accounts_value;

    let mut network: Vec<(String, JsonValue)> = Vec::new();
    push_entry(&mut network, "type", json_str("feed"));
    push_entry(&mut network, "text", json_str(content));
    proof {
        assert(entry_keys(network@) =~= seq!["type"@, "text"@]);
    }
    let network_obj = JsonValue::Object(network);
    let ghost no = network_obj;
    let mut networks: Vec<(String, JsonValue)> = Vec::new();
    push_entry(&mut networks, platform, network_obj);
    proof {
        assert(entry_keys(networks@) =~= seq![platform@]);
    }
    let networks_obj = JsonValue::Object(networks);
    let ghost nso = networks_obj;

    let mut post: Vec<(String, JsonValue)> = Vec::new();
    push_entry(&mut post, "networks", networks_obj);
    push_entry(&mut post, "accounts", accounts_value);
    proof {
        assert(entry_keys(post@) =~= seq!["networks"@, "accounts"@]);
        assert(crate::json::entry_value(post@, "networks"@) == Some(nso));
        assert(crate::json::entry_value(post@, "accounts"@) == Some(av));
    }
    let post_obj = JsonValue::Object(post);
    let ghost po = post_obj;
    let mut posts: Vec<JsonValue> = Vec::new();
    posts.push(post_obj);
    let posts_value = JsonValue::Array(posts);
    let ghost psv = posts_value;

    let mut bulk: Vec<(String, JsonValue)> = Vec::new();
    push_entry(&mut bulk, "state", json_str("scheduled"));
    push_entry(&mut bulk, "posts", posts_value);
    proof {
        assert(entry_keys(bulk@) =~= seq!["state"@, "posts"@]);
        assert(crate::json::entry_value(bulk@, "posts"@) == Some(psv));
    }
    let bulk_obj = JsonValue::Object(bulk);
    let ghost bo = bulk_obj;
    let mut body: Vec<(String, JsonValue)> = Vec::new();
    push_entry(&mut body, "bulk", bulk_obj);
    proof {
        assert(entry_keys(body@) =~= seq!["bulk"@]);
        assert(element(psv, 0) == po);
        assert(element(av, 0) == ao);
        assert(keys_of(ao) == entry_keys(account_seq));
    }
    JsonValue::Object(body)
}

/// A post entry: it needs `id` and an RFC 3339 `scheduled_at` chrono
/// accepts; its platform is `account_id` (`unknown` when missing) and its
/// text `text` (empty when missing).
pub open spec fn post_item(p: JsonValue) -> Option<QueuedView> {
    match (str_at(p, "id"@), str_at(p, "scheduled_at"@)) {
        (Some(id), Some(when)) => match utc_of(rfc3339_utc(when)) {
            Some(t) => Some(
                (id, text_or(str_at(p, "account_id"@), "unknown"@), t, preview_text(text_or(str_at(p, "text"@), ""@))),
            ),
            None => None,
        },
        _ => None,
    }
}

/// Reads one Publer post object as a queued post.
pub fn parse_queued_post(p: &JsonValue) -> (r: Option<QueuedPost>)
    ensures
        match r {
            Some(q) => post_item(*p) == Some(queued_view(q)),
            None => post_item(*p) is None,
        },
{
    let id = match p.str_field("id") {
        Some(s) => s,
        None => return None,
    };
    let platform = str_or(p.str_field("account_id"), "unknown");
    let when = match p.str_field("scheduled_at") {
        Some(s) => s,
        None => return None,
    };
    let t = match parse_rfc3339(when) {
        Some(t) => t,
        None => return None,
    };
    let text = str_or(p.str_field("text"), "");
    Some(
        QueuedPost {
            post_id: to_owned_string(id),
            platform: to_owned_string(platform),
            scheduled_for: t,
            content_preview: content_preview(text),
        },
    )
}

/// Reads `GET /posts?state=scheduled`: one queued post per usable entry of
/// `posts`; no `posts` array means an empty queue.
pub fn queue(json: &JsonValue) -> (r: Vec<QueuedPost>)
    ensures
        queued_views(r@) == filter_map_json(
            items_or_empty(array_of(field(*json, "posts"@))),
            |p: JsonValue| post_item(p),
        ),
{
    let mut out: Vec<QueuedPost> = Vec::new();
    let items = match json.array_field("posts") {
        Some(v) => v,
        None => {
            proof {
                assert(queued_views(out@) =~= Seq::<QueuedView>::empty());
            }
            return out;
        },
    };
    let ghost f = |p: JsonValue| post_item(p);
    let mut i: usize = 0;
    while i < items.len()
        invariant
            0 <= i <= items@.len(),
            f == (|p: JsonValue| post_item(p)),
            queued_views(out@) == filter_map_json(items@.take(i as int), f),
        decreases items@.len() - i,
    {
        proof {
            lemma_filter_map_step(items@, f, i as int);
        }
        match parse_queued_post(&items[i]) {
            Some(q) => {
                let ghost before = out@;
                out.push(q);
                proof {
                    assert(queued_views(out@) =~= queued_views(before).push(queued_view(q)));
                }
            },
            None => {},
        }
        i += 1;
    }
    proof {
        assert(items@.take(items@.len() as int) =~= items@);
    }
    out
}

/// An account entry: it needs `id` and a name (`name`, else `username`); its
/// platform is `type`, `unknown` when missing.
pub open spec fn account_profile(a: JsonValue) -> Option<ProfileView> {
    match (str_at(a, "id"@), if str_at(a, "name"@) is Some {
        str_at(a, "name"@)
    } else {
        str_at(a, "username"@)
    }) {
        (Some(id), Some(name)) => Some((id, name, seq![text_or(str_at(a, "type"@), "unknown"@)])),
        _ => None,
    }
}

/// A Publer account is shown by its display name: an entry with a string
/// `id` and `name` becomes a profile with that ID and that name, whatever
/// its `username`; only without a `name` is the `username` used; without an
/// `id` there is no profile.
pub proof fn lemma_account_named_by_name(a: JsonValue)
    ensures
        str_at(a, "id"@) is Some && str_at(a, "name"@) is Some ==> account_profile(a) == Some(
            (str_at(a, "id"@)->0, str_at(a, "name"@)->0, seq![text_or(str_at(a, "type"@), "unknown"@)]),
        ),
        str_at(a, "id"@) is Some && str_at(a, "name"@) is None && str_at(a, "username"@) is Some ==> account_profile(a)
            == Some((str_at(a, "id"@)->0, str_at(a, "username"@)->0, seq![text_or(str_at(a, "type"@), "unknown"@)])),
        str_at(a, "id"@) is None ==> account_profile(a) is None,
{
}

/// An account entry with a string `id` gives a profile with that ID, named
/// by its `name` when it has one and by its `username` otherwise; one with
/// neither, or without an `id`, gives none.
pub open spec fn named_account(a: JsonValue, p: SchedulerProfile) -> bool {
    &&& str_at(a, "id"@) == Some(p.id@)
    &&& (str_at(a, "name"@) matches Some(n) ==> p.name@ == n)
    &&& (str_at(a, "name"@) is None ==> str_at(a, "username"@) == Some(p.name@))
}

fn profile_of_account(a: &JsonValue) -> (r: Option<SchedulerProfile>)
    ensures
        match r {
            Some(p) => account_profile(*a) == Some(profile_view(p)),
            None => account_profile(*a) is None,
        },
        match r {
            Some(p) => named_account(*a, p),
            None => str_at(*a, "id"@) is None || (str_at(*a, "name"@) is None && str_at(*a, "username"@) is None),
        },
{
    let id = match a.str_field("id") {
        Some(s) => s,
        None => return None,
    };
    let name = match a.str_field("name") {
        Some(s) => s,
        None => match a.str_field("username") {
            Some(s) => s,
            None => return None,
        },
    };
    let platform = str_or(a.str_field("type"), "unknown");
    let mut platforms: Vec<String> = Vec::new();
    platforms.push(to_owned_string(platform));
    let p = SchedulerProfile { id: to_owned_string(id), name: to_owned_string(name), platforms };
    proof {
        assert(strings_view(p.platforms@) =~= seq![platform@]);
    }
    Some(p)
}

/// Reads `GET /accounts`, a JSON array: one profile per complete account; a
/// reply that is not an array lists none.
pub fn profiles(json: &JsonValue) -> (r: Vec<SchedulerProfile>)
    ensures
        profile_views(r@) == filter_map_json(items_or_empty(array_of(*json)), |a: JsonValue| account_profile(a)),
        forall|j: int| #![trigger r@[j]] 0 <= j < r@.len() ==> exists|t: int|
            0 <= t < items_or_empty(array_of(*json)).len() && named_account(
                #[trigger] items_or_empty(array_of(*json))[t],
                r@[j],
            ),
        forall|t: int|
            0 <= t < items_or_empty(array_of(*json)).len() && #[trigger] str_at(items_or_empty(array_of(*json))[t], "id"@)
                is Some && (str_at(items_or_empty(array_of(*json))[t], "name"@) is Some || str_at(
                items_or_empty(array_of(*json))[t],
                "username"@,
            ) is Some) ==> exists|j: int| 0 <= j < r@.len() && named_account(items_or_empty(array_of(*json))[t], #[trigger] r@[j]),
{
    let mut out: Vec<SchedulerProfile> = Vec::new();
    let items = match json.as_array() {
        Some(v) => v,
        None => {
            proof {
                assert(profile_views(out@) =~= Seq::<ProfileView>::empty());
            }
            return out;
        },
    };
    let ghost f = |a: JsonValue| account_profile(a);
    let mut i: usize = 0;
    while i < items.len()
        invariant
            0 <= i <= items@.len(),
            f == (|a: JsonValue| account_profile(a)),
            profile_views(out@) == filter_map_json(items@.take(i as int), f),
            array_of(*json) == Some(items@),
            forall|j: int| #![trigger out@[j]] 0 <= j < out@.len() ==> exists|t: int|
                0 <= t < i && named_account(#[trigger] items@[t], out@[j]),
            forall|t: int|
                0 <= t < i && #[trigger] str_at(items@[t], "id"@) is Some && (str_at(items@[t], "name"@) is Some
                    || str_at(items@[t], "username"@) is Some) ==> exists|j: int|
                    0 <= j < out@.len() && named_account(items@[t], #[trigger] out@[j]),
        decreases items@.len() - i,
    {
        proof {
            lemma_filter_map_step(items@, f, i as int);
        }
        match profile_of_account(&items[i]) {
            Some(p) => {
                let ghost before = out@;
                let ghost pg = p;
                out.push(p);
                proof {
                    assert(profile_views(out@) =~= profile_views(before).push(profile_view(pg)));
                    assert forall|j: int| #![trigger out@[j]] 0 <= j < out@.len() implies exists|t: int|
                        0 <= t < i + 1 && named_account(#[trigger] items@[t], out@[j]) by {
                        if j < before.len() {
                            assert(out@[j] == before[j]);
                        } else {
                            assert(named_account(items@[i as int], out@[j]));
                        }
                    }
                    assert forall|t: int|
                        0 <= t < i + 1 && #[trigger] str_at(items@[t], "id"@) is Some && (str_at(items@[t], "name"@)
                            is Some || str_at(items@[t], "username"@) is Some) implies exists|j: int|
                        0 <= j < out@.len() && named_account(items@[t], #[trigger] out@[j]) by {
                        if t < i {
                            let j = choose|j: int| 0 <= j < before.len() && named_account(items@[t], #[trigger] before[j]);
                            assert(out@[j] == before[j]);
                        } else {
                            assert(out@[before.len() as int] == pg);
                        }
                    }
                }
            },
            None => {
                proof {
                    assert forall|t: int|
                        0 <= t < i + 1 && #[trigger] str_at(items@[t], "id"@) is Some && (str_at(items@[t], "name"@)
                            is Some || str_at(items@[t], "username"@) is Some) implies exists|j: int|
                        0 <= j < out@.len() && named_account(items@[t], #[trigger] out@[j]) by {
                        if t < i {
                        } else {
                            assert(t == i);
                        }
                    }
                }
            },
        }
        i += 1;
    }
    proof {
        assert(items@.take(items@.len() as int) =~= items@);
    }
    out
}

/// Reads `GET /posts/{id}`: counters under `analytics` (`likes`, `shares`,
/// `comments`, `reach`).
pub fn engagement(json: &JsonValue) -> (r: Engagement)
    ensures
        engagement_counts(r) == engagement_spec(
            field(*json, "analytics"@),
            "likes"@,
            "shares"@,
            "comments"@,
            Some("reach"@),
        ),
        r.platform_url is None,
{
    match json.get("analytics") {
        Some(a) => engagement_from(a, "likes", "shares", "comments", Some("reach")),
        None => engagement_from(&JsonValue::Null, "likes", "shares", "comments", Some("reach")),
    }
}

/// The workspace of an API key: the `id` of the first entry of the
/// `GET /workspaces` array.
pub fn workspace_id(json: &JsonValue) -> (r: Result<String, ProviderError>)
    ensures
        match str_at(element(*json, 0), "id"@) {
            Some(id) => r is Ok && r->Ok_0@ == id,
            None => r is Err && is_unknown_error(r->Err_0, "No workspaces found for this Publer API key"@),
        },
{
    let id = match json.as_array() {
        Some(_) => match json.at(0) {
            Some(first) => first.str_field("id"),
            None => None,
        },
        None => None,
    };
    match id {
        Some(id) => Ok(to_owned_string(id)),
        None => Err(ProviderError::Unknown(to_owned_string("No workspaces found for this Publer API key"))),
    }
}

pub open spec fn missing_job_message(json_text: Seq<char>) -> Seq<char> {
    "Missing job_id in response: "@ + json_text
}

/// The job started by a schedule request: `job_id`.
pub fn job_id(json: &JsonValue, json_text: &str) -> (r: Result<String, ProviderError>)
    ensures
        match str_at(*json, "job_id"@) {
            Some(id) => r is Ok && r->Ok_0@ == id,
            None => r is Err && is_unknown_error(r->Err_0, missing_job_message(json_text@)),
        },
{
    match json.str_field("job_id") {
        Some(id) => Ok(to_owned_string(id)),
        None => Err(ProviderError::Unknown(join2("Missing job_id in response: ", json_text))),
    }
}

pub open spec fn missing_post_message(json_text: Seq<char>) -> Seq<char> {
    "Missing post.id in completed job. Response: "@ + json_text
}

/// Reads one job status reply: `None` while the job has not completed;
/// once `status` is `completed`, the post ID at `post.id`.
pub fn job_status(json: &JsonValue, json_text: &str) -> (r: Option<Result<String, ProviderError>>)
    ensures
        str_at(*json, "status"@) != Some("completed"@) ==> r is None,
        str_at(*json, "status"@) == Some("completed"@) ==> match str_at(field(*json, "post"@), "id"@) {
            Some(id) => r matches Some(Ok(found)) && found@ == id,
            None => r matches Some(Err(e)) && is_unknown_error(e, missing_post_message(json_text@)),
        },
{
    let completed = match json.str_field("status") {
        Some(s) => str_eq(s, "completed"),
        None => false,
    };
    if !completed {
        return None;
    }
    let id = match json.get("post") {
        Some(p) => p.str_field("id"),
        None => None,
    };
    match id {
        Some(id) => Some(Ok(to_owned_string(id))),
        None => Some(Err(ProviderError::Unknown(join2("Missing post.id in completed job. Response: ", json_text)))),
    }
}

pub open spec fn job_timeout_message(job_id: Seq<char>) -> Seq<char> {
    "Publer job "@ + job_id + " did not complete after 5 polls. Check your Publer dashboard for post status."@
}

/// The error when a job has not completed after `MAX_POLLS` status polls.
pub fn job_timeout_error(job_id: &str) -> (r: ProviderError)
    ensures
        is_unknown_error(r, job_timeout_message(job_id@)),
{
    ProviderError::Unknown(
        join3(
            "Publer job ",
            job_id,
            " did not complete after 5 polls. Check your Publer dashboard for post status.",
        ),
    )
}

pub open spec fn cancel_unsupported_message() -> Seq<char> {
    "Publer does not support cancelling this post."@
}

/// Reads the status of a cancel request: 404 and 405 mean the post cannot be
/// cancelled; otherwise the usual status check applies.
pub fn check_cancel_status(status: u16, wait: Duration) -> (r: Result<(), ProviderError>)
    ensures
        (status == 404 || status == 405) ==> r is Err && is_not_supported(r->Err_0, cancel_unsupported_message()),
        !(status == 404 || status == 405) ==> check_matches(r, ProviderKind::Publer, status, wait),
{
    if status == 404 || status == 405 {
        return Err(ProviderError::NotSupported(to_owned_string("Publer does not support cancelling this post.")));
    }
    check_response_status(ProviderKind::Publer, status, wait)
}

} // verus!

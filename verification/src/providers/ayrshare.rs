//! Ayrshare: the request to schedule a post and how its replies are read.
use vstd::prelude::*;
use crate::json::{
    array_of, element, entry_keys, field, filter_map_json, json_str, keys_of, lemma_filter_map_step, push_entry,
    str_at, JsonValue,
};
use crate::providers::common::{
    chrono_accepts, UtcTime,
    content_preview, engagement_counts, engagement_from, engagement_spec, is_unknown_error, parse_rfc3339,
    preview_text, profile_view, profile_views, queued_view, queued_views, rfc3339_utc, scheduled_view,
    string_items, string_items_spec, utc_of, ProfileView, QueuedPost, QueuedView,
};
use crate::scheduling::{Engagement, PostScheduleResult, ProviderError, SchedulerProfile};
use crate::text::to_owned_string;

use crate::schedule_time::{instant_text, utc_rfc3339};

verus! {

broadcast use vstd::string::group_string_axioms;

pub open spec fn body_keys(profile: bool, scheduled: bool, image: bool) -> Seq<Seq<char>> {
    let base = seq!["post"@, "platforms"@];
    let with_profile = if profile {
        base.push("profileKey"@)
    } else {
        base
    };
    let timed = if scheduled {
        with_profile.push("scheduleDate"@)
    } else {
        with_profile
    };
    if image {
        timed.push("mediaUrls"@)
    } else {
        timed
    }
}

/// The body of `POST /api/post`: the text, the one platform, and when given
/// the profile key, the schedule date (an instant, sent as RFC 3339
/// text) and the image URL.
pub fn build_schedule_body(
    content: &str,
    platform: &str,
    scheduled_for: Option<UtcTime>,
    image_url: Option<&str>,
    profile_id: Option<&str>,
) -> (r: JsonValue)
    requires
        scheduled_for matches Some(t) ==> chrono_accepts(t),
    ensures
        keys_of(r) == body_keys(profile_id is Some, scheduled_for is Some, image_url is Some),
        str_at(r, "post"@) == Some(content@),
        array_of(field(r, "platforms"@)) matches Some(ps) && ps.len() == 1,
        crate::json::str_of(element(field(r, "platforms"@), 0)) == Some(platform@),
        match profile_id {
            Some(p) => str_at(r, "profileKey"@) == Some(p@),
            None => true,
        },
        match scheduled_for {
            Some(t) => str_at(r, "scheduleDate"@) == utc_rfc3339(t.secs, t.nanos),
            None => true,
        },
        match image_url {
            Some(u) => array_of(field(r, "mediaUrls"@)) matches Some(us) && us.len() == 1 && crate::json::str_of(
                us[0],
            ) == Some(u@),
            None => true,
        },
{
    proof {
        reveal_strlit("post");
        reveal_strlit("platforms");
        reveal_strlit("profileKey");
        reveal_strlit("scheduleDate");
        reveal_strlit("mediaUrls");
        assert("post"@.len() == 4 && "platforms"@.len() == 9 && "profileKey"@.len() == 10);
        assert("scheduleDate"@.len() == 12 && "mediaUrls"@.len() == 9);
        assert("platforms"@[0] != "mediaUrls"@[0]);
    }
    let mut platforms: Vec<JsonValue> = Vec::new();
    platforms.push(json_str(platform));
    let platforms_value = JsonValue::Array(platforms);
    let ghost pv = platforms_value;
    let mut body: Vec<(String, JsonValue)> = Vec::new();
    push_entry(&mut body, "post", json_str(content));
    push_entry(&mut body, "platforms", platforms_value);
    assert(crate::json::entry_value(body@, "platforms"@) == Some(pv));
    match profile_id {
        Some(p) => {
            push_entry(&mut body, "profileKey", json_str(p));
            assert(crate::json::entry_value(body@, "platforms"@) == Some(pv));
        },
        None => {},
    }
    match scheduled_for {
        Some(t) => {
            let text = instant_text(t);
            push_entry(&mut body, "scheduleDate", json_str(text.as_str()));
            assert(crate::json::entry_value(body@, "platforms"@) == Some(pv));
        },
        None => {},
    }
    match image_url {
        Some(u) => {
            let mut urls: Vec<JsonValue> = Vec::new();
            urls.push(json_str(u));
            push_entry(&mut body, "mediaUrls", JsonValue::Array(urls));
            assert(crate::json::entry_value(body@, "platforms"@) == Some(pv));
        },
        None => {},
    }
    proof {
        assert(entry_keys(body@) =~= body_keys(profile_id is Some, scheduled_for is Some, image_url is Some));
    }
    JsonValue::Object(body)
}

/// Reads the reply to a schedule request: the post ID at `id`; Ayrshare
/// gives no public URL.
pub fn schedule_result(json: &JsonValue) -> (r: Result<PostScheduleResult, ProviderError>)
    ensures
        match str_at(*json, "id"@) {
            Some(id) => r is Ok && scheduled_view(r->Ok_0) == (id, None::<Seq<char>>),
            None => r is Err && is_unknown_error(r->Err_0, "Missing id in response"@),
        },
{
    match json.str_field("id") {
        Some(id) => Ok(PostScheduleResult { scheduler_id: to_owned_string(id), platform_url: None }),
        None => Err(ProviderError::Unknown(to_owned_string("Missing id in response"))),
    }
}

/// A profile entry: it needs `profileKey`, `title` and a `platforms` array,
/// whose string elements are its platforms.
pub open spec fn profile_entry(p: JsonValue) -> Option<ProfileView> {
    match (str_at(p, "profileKey"@), str_at(p, "title"@), array_of(field(p, "platforms"@))) {
        (Some(key), Some(title), Some(ps)) => Some((key, title, string_items_spec(ps))),
        _ => None,
    }
}

/// An Ayrshare profile is keyed by its `profileKey`, named by its `title`,
/// and lists the string entries of its `platforms`; an entry missing any of
/// the three gives none.
pub proof fn lemma_profile_keyed_by_profile_key(p: JsonValue)
    ensures
        str_at(p, "profileKey"@) is Some && str_at(p, "title"@) is Some && array_of(field(p, "platforms"@)) is Some
            ==> profile_entry(p) == Some(
            (str_at(p, "profileKey"@)->0, str_at(p, "title"@)->0, string_items_spec(array_of(field(p, "platforms"@))->0)),
        ),
        str_at(p, "profileKey"@) is None || str_at(p, "title"@) is None || array_of(field(p, "platforms"@)) is None
            ==> profile_entry(p) is None,
{
}

fn profile_of_entry(p: &JsonValue) -> (r: Option<SchedulerProfile>)
    ensures
        match r {
            Some(x) => profile_entry(*p) == Some(profile_view(x)),
            None => profile_entry(*p) is None,
        },
{
    let key = match p.str_field("profileKey") {
        Some(s) => s,
        None => return None,
    };
    let title = match p.str_field("title") {
        Some(s) => s,
        None => return None,
    };
    let ps = match p.array_field("platforms") {
        Some(v) => v,
        None => return None,
    };
    let platforms = string_items(ps);
    Some(SchedulerProfile { id: to_owned_string(key), name: to_owned_string(title), platforms })
}

/// Reads `GET /api/profiles`: one profile per complete entry of `profiles`.
pub fn profiles(json: &JsonValue) -> (r: Result<Vec<SchedulerProfile>, ProviderError>)
    ensures
        match array_of(field(*json, "profiles"@)) {
            Some(items) => r is Ok && profile_views(r->Ok_0@) == filter_map_json(
                items,
                |p: JsonValue| profile_entry(p),
            ),
            None => r is Err && is_unknown_error(r->Err_0, "Missing profiles array"@),
        },
{
    let items = match json.array_field("profiles") {
        Some(v) => v,
        None => return Err(ProviderError::Unknown(to_owned_string("Missing profiles array"))),
    };
    let ghost f = |p: JsonValue| profile_entry(p);
    let mut out: Vec<SchedulerProfile> = Vec::new();
    let mut i: usize = 0;
    while i < items.len()
        invariant
            0 <= i <= items@.len(),
            f == (|p: JsonValue| profile_entry(p)),
            profile_views(out@) == filter_map_json(items@.take(i as int), f),
        decreases items@.len() - i,
    {
        proof {
            lemma_filter_map_step(items@, f, i as int);
        }
        match profile_of_entry(&items[i]) {
            Some(p) => {
                let ghost before = out@;
                out.push(p);
                proof {
                    assert(profile_views(out@) =~= profile_views(before).push(profile_view(p)));
                }
            },
            None => {},
        }
        i += 1;
    }
    proof {
        assert(items@.take(items@.len() as int) =~= items@);
    }
    Ok(out)
}

/// A history entry: it needs an RFC 3339 `scheduleDate` chrono accepts,
/// `post`, `id` and `platform`.
pub open spec fn history_item(p: JsonValue) -> Option<QueuedView> {
    match (str_at(p, "scheduleDate"@), str_at(p, "post"@), str_at(p, "id"@), str_at(p, "platform"@)) {
        (Some(when), Some(content), Some(id), Some(platform)) => match utc_of(rfc3339_utc(when)) {
            Some(t) => Some((id, platform, t, preview_text(content))),
            None => None,
        },
        _ => None,
    }
}

fn queued_of(p: &JsonValue) -> (r: Option<QueuedPost>)
    ensures
        match r {
            Some(q) => history_item(*p) == Some(queued_view(q)),
            None => history_item(*p) is None,
        },
{
    let when = match p.str_field("scheduleDate") {
        Some(s) => s,
        None => return None,
    };
    let t = match parse_rfc3339(when) {
        Some(t) => t,
        None => return None,
    };
    let content = match p.str_field("post") {
        Some(s) => s,
        None => return None,
    };
    let id = match p.str_field("id") {
        Some(s) => s,
        None => return None,
    };
    let platform = match p.str_field("platform") {
        Some(s) => s,
        None => return None,
    };
    Some(
        QueuedPost {
            post_id: to_owned_string(id),
            platform: to_owned_string(platform),
            scheduled_for: t,
            content_preview: content_preview(content),
        },
    )
}

/// Reads `GET /api/history`: one queued post per complete entry of `posts`.
pub fn queue(json: &JsonValue) -> (r: Result<Vec<QueuedPost>, ProviderError>)
    ensures
        match array_of(field(*json, "posts"@)) {
            Some(items) => r is Ok && queued_views(r->Ok_0@) == filter_map_json(
                items,
                |p: JsonValue| history_item(p),
            ),
            None => r is Err && is_unknown_error(r->Err_0, "Missing posts array"@),
        },
{
    let items = match json.array_field("posts") {
        Some(v) => v,
        None => return Err(ProviderError::Unknown(to_owned_string("Missing posts array"))),
    };
    let ghost f = |p: JsonValue| history_item(p);
    let mut out: Vec<QueuedPost> = Vec::new();
    let mut i: usize = 0;
    while i < items.len()
        invariant
            0 <= i <= items@.len(),
            f == (|p: JsonValue| history_item(p)),
            queued_views(out@) == filter_map_json(items@.take(i as int), f),
        decreases items@.len() - i,
    {
        proof {
            lemma_filter_map_step(items@, f, i as int);
        }
        match queued_of(&items[i]) {
            Some(q) => {
                let ghost before = out@;
                out.push(q);
                proof {
                    assert(queued_views(out@) =~= queued_views(before).push(queued_view(q)));
                }
            },
            None => {},
        }
        i += 1;
    }
    proof {
        assert(items@.take(items@.len() as int) =~= items@);
    }
    Ok(out)
}

/// Reads `GET /api/analytics/post/{id}`: `likes`, `retweets`, `comments` and
/// `impressions` at the top level.
pub fn engagement(json: &JsonValue) -> (r: Engagement)
    ensures
        engagement_counts(r) == engagement_spec(*json, "likes"@, "retweets"@, "comments"@, Some("impressions"@)),
        r.platform_url is None,
{
    engagement_from(json, "likes", "retweets", "comments", Some("impressions"))
}

} // verus!

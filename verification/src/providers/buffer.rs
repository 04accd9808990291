//! Buffer: the request to schedule an update and how its replies are read.
use vstd::prelude::*;
use crate::json::{
    element, entry_keys, field, filter_map_json, i64_of, json_str, keys_of, lemma_filter_map_step, push_entry,
    str_at, str_of, array_of, JsonValue,
};
use crate::providers::common::{
    chrono_accepts_secs, content_preview, engagement_counts, engagement_from, engagement_spec, is_unknown_error,
    json_i64, preview_text, profile_view, profile_views, queued_view, queued_views, scheduled_view, strings_view,
    utc_from_secs, ProfileView, QueuedPost, QueuedView, UtcTime,
};
use crate::scheduling::{opt_str_view, Engagement, PostScheduleResult, ProviderError, SchedulerProfile};
use crate::text::to_owned_string;

verus! {

broadcast use vstd::string::group_string_axioms;

pub open spec fn body_keys(scheduled: bool, image: bool) -> Seq<Seq<char>> {
    let base = seq!["text"@, "profile_ids[]"@];
    let timed = if scheduled {
        base.push("scheduled_at"@)
    } else {
        base
    };
    if image {
        timed.push("media[photo]"@)
    } else {
        timed
    }
}

/// The body of `POST /1/updates/create.json`. `scheduled_at` is the Unix
/// time to publish at; the profile is sent as `""` when none is given.
pub fn build_schedule_body(
    content: &str,
    scheduled_at: Option<i64>,
    image_url: Option<&str>,
    profile_id: Option<&str>,
) -> (r: JsonValue)
    ensures
        keys_of(r) == body_keys(scheduled_at is Some, image_url is Some),
        str_at(r, "text"@) == Some(content@),
        str_at(r, "profile_ids[]"@) == Some(
            match profile_id {
                Some(p) => p@,
                None => ""@,
            },
        ),
        match scheduled_at {
            Some(t) => i64_of(field(r, "scheduled_at"@)) == Some(t),
            None => true,
        },
        match image_url {
            Some(u) => str_at(r, "media[photo]"@) == Some(u@),
            None => true,
        },
{
    proof {
        reveal_strlit("text");
        reveal_strlit("profile_ids[]");
        reveal_strlit("scheduled_at");
        reveal_strlit("media[photo]");
        reveal_strlit("");
        assert("text"@.len() == 4 && "profile_ids[]"@.len() == 13);
        assert("scheduled_at"@.len() == 12 && "media[photo]"@.len() == 12);
        assert("scheduled_at"@[0] != "media[photo]"@[0]);
    }
    let mut body: Vec<(String, JsonValue)> = Vec::new();
    push_entry(&mut body, "text", json_str(content));
    let profile = match profile_id {
        Some(p) => p,
        None => "",
    };
    push_entry(&mut body, "profile_ids[]", json_str(profile));
    match scheduled_at {
        Some(t) => {
            push_entry(&mut body, "scheduled_at", json_i64(t));
        },
        None => {},
    }
    match image_url {
        Some(u) => {
            push_entry(&mut body, "media[photo]", json_str(u));
        },
        None => {},
    }
    proof {
        assert(entry_keys(body@) =~= body_keys(scheduled_at is Some, image_url is Some));
    }
    JsonValue::Object(body)
}

/// The ID of the created update: `updates[0].id`.
pub open spec fn update_id_of(json: JsonValue) -> Option<Seq<char>> {
    str_at(element(field(json, "updates"@), 0), "id"@)
}

/// Reads the reply to a schedule request; Buffer gives no public URL.
pub fn schedule_result(json: &JsonValue) -> (r: Result<PostScheduleResult, ProviderError>)
    ensures
        match update_id_of(*json) {
            Some(id) => r is Ok && scheduled_view(r->Ok_0) == (id, None::<Seq<char>>),
            None => r is Err && is_unknown_error(r->Err_0, "Missing update id in response"@),
        },
{
    let id = match json.get("updates") {
        Some(u) => match u.at(0) {
            Some(first) => first.str_field("id"),
            None => None,
        },
        None => None,
    };
    match id {
        Some(id) => Ok(PostScheduleResult { scheduler_id: to_owned_string(id), platform_url: None }),
        None => Err(ProviderError::Unknown(to_owned_string("Missing update id in response"))),
    }
}

/// The profile a channel gives: it needs `id`, a name (`formatted_username`,
/// else `service_username`) and `service`, its platform.
pub open spec fn channel_profile(c: JsonValue) -> Option<ProfileView> {
    match (str_at(c, "id"@), if str_at(c, "formatted_username"@) is Some {
        str_at(c, "formatted_username"@)
    } else {
        str_at(c, "service_username"@)
    }, str_at(c, "service"@)) {
        (Some(id), Some(name), Some(service)) => Some((id, name, seq![service])),
        _ => None,
    }
}

/// A Buffer channel is shown by its formatted username, else its service
/// username; its one platform is its `service`; a channel without an `id`,
/// a `service` or either name gives no profile.
pub proof fn lemma_channel_named_by_formatted_username(c: JsonValue)
    ensures
        str_at(c, "id"@) is Some && str_at(c, "formatted_username"@) is Some && str_at(c, "service"@) is Some
            ==> channel_profile(c) == Some(
            (str_at(c, "id"@)->0, str_at(c, "formatted_username"@)->0, seq![str_at(c, "service"@)->0]),
        ),
        str_at(c, "id"@) is Some && str_at(c, "formatted_username"@) is None && str_at(c, "service_username"@) is Some
            && str_at(c, "service"@) is Some ==> channel_profile(c) == Some(
            (str_at(c, "id"@)->0, str_at(c, "service_username"@)->0, seq![str_at(c, "service"@)->0]),
        ),
        str_at(c, "id"@) is None || str_at(c, "service"@) is None || (str_at(c, "formatted_username"@) is None && str_at(
            c,
            "service_username"@,
        ) is None) ==> channel_profile(c) is None,
{
}

fn profile_of_channel(c: &JsonValue) -> (r: Option<SchedulerProfile>)
    ensures
        match r {
            Some(p) => channel_profile(*c) == Some(profile_view(p)),
            None => channel_profile(*c) is None,
        },
{
    let id = match c.str_field("id") {
        Some(s) => s,
        None => return None,
    };
    let name = match c.str_field("formatted_username") {
        Some(s) => s,
        None => match c.str_field("service_username") {
            Some(s) => s,
            None => return None,
        },
    };
    let service = match c.str_field("service") {
        Some(s) => s,
        None => return None,
    };
    let mut platforms: Vec<String> = Vec::new();
    platforms.push(to_owned_string(service));
    let p = SchedulerProfile { id: to_owned_string(id), name: to_owned_string(name), platforms };
    proof {
        assert(strings_view(p.platforms@) =~= seq![service@]);
    }
    Some(p)
}

/// Reads the channels listed by `GET /1/profiles.json`: one profile per
/// complete channel, in order.
pub fn profiles(channels: &Vec<JsonValue>) -> (r: Vec<SchedulerProfile>)
    ensures
        profile_views(r@) == filter_map_json(channels@, |c: JsonValue| channel_profile(c)),
{
    let ghost f = |c: JsonValue| channel_profile(c);
    let mut out: Vec<SchedulerProfile> = Vec::new();
    let mut i: usize = 0;
    while i < channels.len()
        invariant
            0 <= i <= channels@.len(),
            f == (|c: JsonValue| channel_profile(c)),
            profile_views(out@) == filter_map_json(channels@.take(i as int), f),
        decreases channels@.len() - i,
    {
        proof {
            lemma_filter_map_step(channels@, f, i as int);
        }
        match profile_of_channel(&channels[i]) {
            Some(p) => {
                let ghost before = out@;
                out.push(p);
                proof {
                    assert(profile_views(out@) =~= profile_views(before).push(profile_view(p)));
                }
            },
            None => {},
        }
        i += 1;
    }
    proof {
        assert(channels@.take(channels@.len() as int) =~= channels@);
    }
    out
}

pub open spec fn text_or_empty(o: Option<Seq<char>>) -> Seq<char> {
    match o {
        Some(s) => s,
        None => ""@,
    }
}

/// A pending update of channel `channel`: it needs an integer `scheduled_at`
/// that chrono accepts; a missing ID, text or service reads as empty.
pub open spec fn pending_item(channel: JsonValue, u: JsonValue) -> Option<QueuedView> {
    match i64_of(field(u, "scheduled_at"@)) {
        Some(secs) => if chrono_accepts_secs(secs) {
            Some(
                (
                    text_or_empty(str_at(u, "id"@)),
                    text_or_empty(str_at(channel, "service"@)),
                    UtcTime { secs: secs, nanos: 0 },
                    preview_text(text_or_empty(str_at(u, "text"@))),
                ),
            )
        } else {
            None
        },
        None => None,
    }
}

fn str_or_empty(s: Option<&str>) -> (r: &str)
    ensures
        r@ == text_or_empty(opt_str_view(s)),
{
    proof {
        reveal_strlit("");
    }
    match s {
        Some(t) => t,
        None => "",
    }
}

fn pending_of(channel: &JsonValue, u: &JsonValue) -> (r: Option<QueuedPost>)
    ensures
        match r {
            Some(q) => pending_item(*channel, *u) == Some(queued_view(q)),
            None => pending_item(*channel, *u) is None,
        },
{
    let secs = match u.get("scheduled_at") {
        Some(v) => match v.as_i64() {
            Some(n) => n,
            None => return None,
        },
        None => return None,
    };
    let t = match utc_from_secs(secs) {
        Some(t) => t,
        None => return None,
    };
    let text = str_or_empty(u.str_field("text"));
    let id = str_or_empty(u.str_field("id"));
    let service = str_or_empty(channel.str_field("service"));
    Some(
        QueuedPost {
            post_id: to_owned_string(id),
            platform: to_owned_string(service),
            scheduled_for: t,
            content_preview: content_preview(text),
        },
    )
}

/// The channels whose queue is read, as (position, ID) pairs in order: those
/// with a string `id`; the others are skipped.
pub open spec fn queue_channels(cs: Seq<JsonValue>) -> Seq<(int, Seq<char>)>
    decreases cs.len(),
{
    if cs.len() == 0 {
        Seq::empty()
    } else {
        let rest = queue_channels(cs.drop_last());
        match str_at(cs.last(), "id"@) {
            Some(id) => rest.push((cs.len() - 1, id)),
            None => rest,
        }
    }
}

pub open spec fn channel_ids_view(v: Seq<(usize, String)>) -> Seq<(int, Seq<char>)> {
    v.map_values(|p: (usize, String)| (p.0 as int, p.1@))
}

/// The channels whose pending updates are fetched for the queue, with their
/// IDs.
pub fn channel_ids(channels: &Vec<JsonValue>) -> (r: Vec<(usize, String)>)
    ensures
        channel_ids_view(r@) == queue_channels(channels@),
{
    let mut out: Vec<(usize, String)> = Vec::new();
    let mut i: usize = 0;
    while i < channels.len()
        invariant
            0 <= i <= channels@.len(),
            channel_ids_view(out@) == queue_channels(channels@.take(i as int)),
        decreases channels@.len() - i,
    {
        proof {
            assert(channels@.take(i + 1).drop_last() =~= channels@.take(i as int));
            assert(channels@.take(i + 1).last() == channels@[i as int]);
        }
        match channels[i].str_field("id") {
            Some(id) => {
                let ghost before = out@;
                out.push((i, to_owned_string(id)));
                proof {
                    assert(channel_ids_view(out@) =~= channel_ids_view(before).push((i as int, id@)));
                }
            },
            None => {},
        }
        i += 1;
    }
    proof {
        assert(channels@.take(channels@.len() as int) =~= channels@);
    }
    out
}

/// The queued posts of one channel, read from its
/// `GET /1/profiles/{id}/updates/pending.json` reply: one per pending update
/// with a usable time, in order; nothing when `updates` is not an array.
pub fn channel_queue(channel: &JsonValue, pending: &JsonValue) -> (r: Vec<QueuedPost>)
    ensures
        queued_views(r@) == match array_of(field(*pending, "updates"@)) {
            Some(items) => filter_map_json(items, |u: JsonValue| pending_item(*channel, u)),
            None => Seq::empty(),
        },
{
    let items = match pending.array_field("updates") {
        Some(v) => v,
        None => {
            let none: Vec<QueuedPost> = Vec::new();
            proof {
                assert(queued_views(none@) =~= Seq::<QueuedView>::empty());
            }
            return none;
        },
    };
    let ghost f = |u: JsonValue| pending_item(*channel, u);
    let mut out: Vec<QueuedPost> = Vec::new();
    let mut i: usize = 0;
    while i < items.len()
        invariant
            0 <= i <= items@.len(),
            f == (|u: JsonValue| pending_item(*channel, u)),
            queued_views(out@) == filter_map_json(items@.take(i as int), f),
        decreases items@.len() - i,
    {
        proof {
            lemma_filter_map_step(items@, f, i as int);
        }
        match pending_of(channel, &items[i]) {
            Some(q) => {
                let ghost before = out@;
                out.push(q);
                proof {
                    assert(queued_views(out@) =~= queued_views(before).push(queued_view(q)));
                }
            },
            None => {},
        }
        i += 1;
    }
    proof {
        assert(items@.take(items@.len() as int) =~= items@);
    }
    out
}

/// Reads `GET /1/updates/{id}.json`: counters under `statistics` (`likes`,
/// `shares`, `comments`, `reach`).
pub fn engagement(json: &JsonValue) -> (r: Engagement)
    ensures
        engagement_counts(r) == engagement_spec(
            field(*json, "statistics"@),
            "likes"@,
            "shares"@,
            "comments"@,
            Some("reach"@),
        ),
        r.platform_url is None,
{
    match json.get("statistics") {
        Some(stats) => engagement_from(stats, "likes", "shares", "comments", Some("reach")),
        None => engagement_from(&JsonValue::Null, "likes", "shares", "comments", Some("reach")),
    }
}

} // verus!

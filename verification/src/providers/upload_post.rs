//! Upload-Post: posts go out as multipart forms naming the connected
//! account's username; replies carry a job or request ID.
use vstd::prelude::*;
use crate::json::{array_of, field, filter_map_json, lemma_filter_map_step, str_at, JsonValue};
use crate::providers::common::{
    engagement_counts, engagement_from, engagement_spec, is_auth_error, is_not_supported, is_unknown_error,
    profile_view, profile_views, string_items, string_items_spec, strings_view, ProfileView,
};
use crate::providers::outstand::items_or_empty;
use crate::scheduling::{Engagement, ProviderError, SchedulerProfile};
use crate::text::{chars_of, join2, join3, string_of_chars, to_owned_string};

use crate::providers::common::{chrono_accepts, UtcTime};
use crate::schedule_time::{instant_text, utc_rfc3339};

verus! {

broadcast use vstd::string::group_string_axioms;

/// The `Authorization` header value: `Apikey {api_key}`.
pub fn auth_header(api_key: &str) -> (r: String)
    ensures
        r@ == "Apikey "@ + api_key@,
{
    join2("Apikey ", api_key)
}

pub open spec fn missing_user_message() -> Seq<char> {
    "Upload Post requires a connected account username. Set one in Settings \u{2192} Accounts."@
}

/// The username posts are made as: the profile ID, which must be given and
/// not empty.
pub fn require_user(profile_id: Option<&str>) -> (r: Result<String, ProviderError>)
    ensures
        match profile_id {
            Some(u) => if u@.len() > 0 {
                r is Ok && r->Ok_0@ == u@
            } else {
                r is Err && is_auth_error(r->Err_0, missing_user_message())
            },
            None => r is Err && is_auth_error(r->Err_0, missing_user_message()),
        },
{
    match profile_id {
        Some(u) => {
            if !u.is_empty() {
                return Ok(to_owned_string(u));
            }
        },
        None => {},
    }
    Err(
        ProviderError::AuthError(
            to_owned_string(
                "Upload Post requires a connected account username. Set one in Settings \u{2192} Accounts.",
            ),
        ),
    )
}

pub open spec fn missing_id_message(json_text: Seq<char>) -> Seq<char> {
    "Missing job_id or request_id in response: "@ + json_text
}

/// The ID of a post request: `job_id` when it was scheduled, else
/// `request_id` when it went out at once.
pub fn parse_scheduler_id(json: &JsonValue, json_text: &str) -> (r: Result<String, ProviderError>)
    ensures
        match (str_at(*json, "job_id"@), str_at(*json, "request_id"@)) {
            (Some(id), _) => r is Ok && r->Ok_0@ == id,
            (None, Some(id)) => r is Ok && r->Ok_0@ == id,
            (None, None) => r is Err && is_unknown_error(r->Err_0, missing_id_message(json_text@)),
        },
{
    match json.str_field("job_id") {
        Some(id) => Ok(to_owned_string(id)),
        None => match json.str_field("request_id") {
            Some(id) => Ok(to_owned_string(id)),
            None => Err(ProviderError::Unknown(join2("Missing job_id or request_id in response: ", json_text))),
        },
    }
}

/// The `platform` of each social account entry, in order.
pub open spec fn account_platforms(items: Seq<JsonValue>) -> Seq<Seq<char>> {
    filter_map_json(items, |a: JsonValue| str_at(a, "platform"@))
}

/// The platforms of a user: from `social_accounts` when it is an array,
/// else the strings of `platforms`, else none.
pub open spec fn platform_list_spec(json: JsonValue) -> Seq<Seq<char>> {
    match array_of(field(json, "social_accounts"@)) {
        Some(items) => account_platforms(items),
        None => string_items_spec(items_or_empty(array_of(field(json, "platforms"@)))),
    }
}

/// Reads the platforms connected for a username.
pub fn parse_platform_list(json: &JsonValue) -> (r: Vec<String>)
    ensures
        strings_view(r@) == platform_list_spec(*json),
{
    match json.array_field("social_accounts") {
        Some(items) => {
            let ghost f = |a: JsonValue| str_at(a, "platform"@);
            let mut out: Vec<String> = Vec::new();
            let mut i: usize = 0;
            while i < items.len()
                invariant
                    0 <= i <= items@.len(),
                    f == (|a: JsonValue| str_at(a, "platform"@)),
                    strings_view(out@) == filter_map_json(items@.take(i as int), f),
                decreases items@.len() - i,
            {
                proof {
                    lemma_filter_map_step(items@, f, i as int);
                }
                match items[i].str_field("platform") {
                    Some(p) => {
                        let ghost before = out@;
                        out.push(to_owned_string(p));
                        proof {
                            assert(strings_view(out@) =~= strings_view(before).push(p@));
                        }
                    },
                    None => {},
                }
                i += 1;
            }
            proof {
                assert(items@.take(items@.len() as int) =~= items@);
            }
            out
        },
        None => match json.array_field("platforms") {
            Some(items) => string_items(items),
            None => {
                let out: Vec<String> = Vec::new();
                proof {
                    assert(strings_view(out@) =~= Seq::<Seq<char>>::empty());
                    assert(string_items_spec(Seq::empty()) =~= Seq::<Seq<char>>::empty());
                }
                out
            },
        },
    }
}

/// A user entry: its ID is `username`, else `id`, and is also its name; its
/// platforms are the strings of `platforms`.
pub open spec fn user_profile(p: JsonValue) -> Option<ProfileView> {
    match (if str_at(p, "username"@) is Some {
        str_at(p, "username"@)
    } else {
        str_at(p, "id"@)
    }) {
        Some(id) => Some((id, id, string_items_spec(items_or_empty(array_of(field(p, "platforms"@)))))),
        None => None,
    }
}

/// An Upload-Post user is identified, and named, by its `username`, else
/// its `id`; without either it gives no profile.
pub proof fn lemma_user_named_by_username(p: JsonValue)
    ensures
        str_at(p, "username"@) is Some ==> user_profile(p) == Some(
            (
                str_at(p, "username"@)->0,
                str_at(p, "username"@)->0,
                string_items_spec(items_or_empty(array_of(field(p, "platforms"@)))),
            ),
        ),
        str_at(p, "username"@) is None && str_at(p, "id"@) is Some ==> user_profile(p) == Some(
            (str_at(p, "id"@)->0, str_at(p, "id"@)->0, string_items_spec(items_or_empty(array_of(field(p, "platforms"@))))),
        ),
        str_at(p, "username"@) is None && str_at(p, "id"@) is None ==> user_profile(p) is None,
{
}

fn profile_of_user(p: &JsonValue) -> (r: Option<SchedulerProfile>)
    ensures
        match r {
            Some(x) => user_profile(*p) == Some(profile_view(x)),
            None => user_profile(*p) is None,
        },
{
    let id = match p.str_field("username") {
        Some(s) => s,
        None => match p.str_field("id") {
            Some(s) => s,
            None => return None,
        },
    };
    let platforms = match p.array_field("platforms") {
        Some(items) => string_items(items),
        None => {
            let none: Vec<String> = Vec::new();
            proof {
                assert(strings_view(none@) =~= Seq::<Seq<char>>::empty());
                assert(string_items_spec(Seq::empty()) =~= Seq::<Seq<char>>::empty());
            }
            none
        },
    };
    Some(SchedulerProfile { id: to_owned_string(id), name: to_owned_string(id), platforms })
}

pub open spec fn missing_profiles_message(json_text: Seq<char>) -> Seq<char> {
    "Missing profiles array in response: "@ + json_text
}

/// Reads `GET /uploadposts/users`: one profile per entry of `profiles` with a
/// username or ID.
pub fn parse_profiles(json: &JsonValue, json_text: &str) -> (r: Result<Vec<SchedulerProfile>, ProviderError>)
    ensures
        match array_of(field(*json, "profiles"@)) {
            Some(items) => r is Ok && profile_views(r->Ok_0@) == filter_map_json(
                items,
                |p: JsonValue| user_profile(p),
            ),
            None => r is Err && is_unknown_error(r->Err_0, missing_profiles_message(json_text@)),
        },
{
    let items = match json.array_field("profiles") {
        Some(v) => v,
        None => return Err(ProviderError::Unknown(join2("Missing profiles array in response: ", json_text))),
    };
    let ghost f = |p: JsonValue| user_profile(p);
    let mut out: Vec<SchedulerProfile> = Vec::new();
    let mut i: usize = 0;
    while i < items.len()
        invariant
            0 <= i <= items@.len(),
            f == (|p: JsonValue| user_profile(p)),
            profile_views(out@) == filter_map_json(items@.take(i as int), f),
        decreases items@.len() - i,
    {
        proof {
            lemma_filter_map_step(items@, f, i as int);
        }
        match profile_of_user(&items[i]) {
            Some(p) => {
                let ghost before = out@;
                out.push(p);
                proof {
                    assert(profile_views(out@) =~= profile_views(before).push(profile_view(p)));
                }
            },
            None => {},
        }
        i += 1;
    }
    proof {
        assert(items@.take(items@.len() as int) =~= items@);
    }
    Ok(out)
}

pub open spec fn user_not_found_message(username: Seq<char>) -> Seq<char> {
    "Username '"@ + username + "' not found. Usernames are case-sensitive."@
}

/// The error for a username Upload-Post does not know (a 404).
pub fn user_not_found_error(username: &str) -> (r: ProviderError)
    ensures
        r matches ProviderError::HttpError { status, body } && status == 404 && body@ == user_not_found_message(
            username@,
        ),
{
    ProviderError::HttpError {
        status: 404,
        body: join3("Username '", username, "' not found. Usernames are case-sensitive."),
    }
}

/// Reads `GET /uploadposts/post-analytics/{id}`: counters under
/// `post_metrics` (`likes`, `shares`, `comments`, `views`).
pub fn engagement(json: &JsonValue) -> (r: Engagement)
    ensures
        engagement_counts(r) == engagement_spec(
            field(*json, "post_metrics"@),
            "likes"@,
            "shares"@,
            "comments"@,
            Some("views"@),
        ),
        r.platform_url is None,
{
    match json.get("post_metrics") {
        Some(m) => engagement_from(m, "likes", "shares", "comments", Some("views")),
        None => engagement_from(&JsonValue::Null, "likes", "shares", "comments", Some("views")),
    }
}

pub type FieldView = (Seq<char>, Seq<char>);

pub open spec fn fields_view(v: Seq<(String, String)>) -> Seq<FieldView> {
    v.map_values(|f: (String, String)| (f.0@, f.1@))
}

/// The text fields of a post form: `user`, `platform[]`, `title` (the text),
/// then `scheduled_date` when scheduled.
pub open spec fn form_fields_spec(user: Seq<char>, platform: Seq<char>, content: Seq<char>, scheduled_date: Option<
    Seq<char>,
>) -> Seq<FieldView> {
    let base = seq![("user"@, user), ("platform[]"@, platform), ("title"@, content)];
    match scheduled_date {
        Some(d) => base.push(("scheduled_date"@, d)),
        None => base,
    }
}

/// The schedule time as sent: the RFC 3339 text of the instant, if any.
pub open spec fn schedule_text(s: Option<UtcTime>) -> Option<Seq<char>> {
    match s {
        Some(t) => utc_rfc3339(t.secs, t.nanos),
        None => None,
    }
}

/// The text fields sent with a post, with or without an image. The schedule
/// date is sent as RFC 3339 text.
pub fn form_fields(user: &str, platform: &str, content: &str, scheduled_date: Option<UtcTime>) -> (r: Vec<
    (String, String),
>)
    requires
        scheduled_date matches Some(t) ==> chrono_accepts(t),
    ensures
        fields_view(r@) == form_fields_spec(user@, platform@, content@, schedule_text(scheduled_date)),
{
    let mut out: Vec<(String, String)> = Vec::new();
    out.push((to_owned_string("user"), to_owned_string(user)));
    out.push((to_owned_string("platform[]"), to_owned_string(platform)));
    out.push((to_owned_string("title"), to_owned_string(content)));
    match scheduled_date {
        Some(d) => {
            out.push((to_owned_string("scheduled_date"), instant_text(d)));
        },
        None => {},
    }
    proof {
        assert(fields_view(out@) =~= form_fields_spec(user@, platform@, content@, schedule_text(scheduled_date)));
    }
    out
}

/// What follows the last `/` of `s` (all of `s` when it has none).
pub open spec fn last_segment(s: Seq<char>) -> Seq<char>
    decreases s.len(),
{
    if s.len() == 0 {
        Seq::empty()
    } else if s.last() == '/' {
        Seq::empty()
    } else {
        last_segment(s.drop_last()).push(s.last())
    }
}

/// The file name an image is uploaded under: the last path segment of its URL.
pub fn image_file_name(url: &str) -> (r: String)
    ensures
        r@ == last_segment(url@),
{
    let chars = chars_of(url);
    let mut out: Vec<char> = Vec::new();
    let mut i: usize = 0;
    while i < chars.len()
        invariant
            0 <= i <= chars@.len(),
            out@ == last_segment(chars@.take(i as int)),
        decreases chars@.len() - i,
    {
        proof {
            assert(chars@.take(i + 1).drop_last() =~= chars@.take(i as int));
        }
        if chars[i] == '/' {
            out = Vec::new();
        } else {
            out.push(chars[i]);
        }
        proof {
            assert(out@ =~= last_segment(chars@.take(i + 1)));
        }
        i += 1;
    }
    proof {
        assert(chars@.take(chars@.len() as int) =~= chars@);
    }
    string_of_chars(out.as_slice())
}

pub open spec fn queue_unsupported_message() -> Seq<char> {
    "Upload Post does not expose a queue listing endpoint"@
}

/// Upload-Post has no queue listing.
pub fn queue_error() -> (r: ProviderError)
    ensures
        is_not_supported(r, queue_unsupported_message()),
{
    ProviderError::NotSupported(to_owned_string("Upload Post does not expose a queue listing endpoint"))
}

} // verus!

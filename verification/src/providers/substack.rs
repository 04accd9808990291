//! Substack Notes: notes are posted at once through the session cookie of the
//! user's browser; the note's public URL needs the account's handle.
use vstd::prelude::*;
use crate::json::{entry_keys, field, json_str, keys_of, push_entry, str_at, u64_at, JsonValue};
use crate::providers::common::{is_not_supported, is_unknown_error, profile_view, scheduled_view, strings_view,
    ProfileView};
use crate::providers::outstand::text_or;
use crate::provider_policy::{post_url, post_url_spec};
use crate::scheduling::{opt_str_view, Engagement, PostScheduleResult, ProviderError, ProviderKind, SchedulerProfile};
use crate::text::{chars_of, join2, string_of_chars, to_owned_string};

verus! {

broadcast use vstd::string::group_string_axioms;

/// An ASCII control character: U+0000 to U+001F, or U+007F.
pub open spec fn is_ascii_control(c: char) -> bool {
    (c as u32) < 32 || (c as u32) == 127
}

/// `s` without its ASCII control characters.
pub open spec fn without_controls(s: Seq<char>) -> Seq<char>
    decreases s.len(),
{
    if s.len() == 0 {
        Seq::empty()
    } else if is_ascii_control(s.last()) {
        without_controls(s.drop_last())
    } else {
        without_controls(s.drop_last()).push(s.last())
    }
}

/// The `Cookie` header: `connect.sid={cookie}`, with control characters
/// removed so the cookie cannot inject further headers.
pub fn cookie_header(cookie: &str) -> (r: String)
    ensures
        r@ == "connect.sid="@ + without_controls(cookie@),
{
    let chars = chars_of(cookie);
    let mut out: Vec<char> = Vec::new();
    let mut i: usize = 0;
    while i < chars.len()
        invariant
            0 <= i <= chars@.len(),
            out@ == without_controls(chars@.take(i as int)),
        decreases chars@.len() - i,
    {
        let c = chars[i];
        proof {
            assert(chars@.take(i + 1).drop_last() =~= chars@.take(i as int));
        }
        if !((c as u32) < 32 || (c as u32) == 127) {
            out.push(c);
        }
        i += 1;
    }
    proof {
        assert(chars@.take(chars@.len() as int) =~= chars@);
    }
    let safe = string_of_chars(out.as_slice());
    join2("connect.sid=", safe.as_str())
}

/// The body of `POST /api/v1/comment/feed`.
pub fn build_note_body(content: &str) -> (r: JsonValue)
    ensures
        keys_of(r) == seq!["body"@, "type"@],
        str_at(r, "body"@) == Some(content@),
        str_at(r, "type"@) == Some("publication"@),
{
    proof {
        reveal_strlit("body");
        reveal_strlit("type");
        assert("body"@[0] != "type"@[0]);
    }
    let mut body: Vec<(String, JsonValue)> = Vec::new();
    push_entry(&mut body, "body", json_str(content));
    push_entry(&mut body, "type", json_str("publication"));
    proof {
        assert(entry_keys(body@) =~= seq!["body"@, "type"@]);
    }
    JsonValue::Object(body)
}

pub open spec fn missing_id_message(json_text: Seq<char>) -> Seq<char> {
    "Missing id in response: "@ + json_text
}

/// Reads the reply to a note: its `id`, and its public URL when the
/// account's handle (`username`) is known.
pub fn schedule_result(json: &JsonValue, json_text: &str, username: Option<&str>) -> (r: Result<
    PostScheduleResult,
    ProviderError,
>)
    ensures
        match str_at(*json, "id"@) {
            Some(id) => r is Ok && scheduled_view(r->Ok_0) == (
                id,
                post_url_spec(ProviderKind::SubstackNotes, "substack"@, id, opt_str_view(username)),
            ),
            None => r is Err && is_unknown_error(r->Err_0, missing_id_message(json_text@)),
        },
{
    match json.str_field("id") {
        Some(id) => {
            let url = post_url(ProviderKind::SubstackNotes, "substack", id, username);
            Ok(PostScheduleResult { scheduler_id: to_owned_string(id), platform_url: url })
        },
        None => Err(ProviderError::Unknown(join2("Missing id in response: ", json_text))),
    }
}

/// The account's handle: `handle`, else `username`, else empty.
pub open spec fn handle_of(json: JsonValue) -> Seq<char> {
    text_or(if str_at(json, "handle"@) is Some {
        str_at(json, "handle"@)
    } else {
        str_at(json, "username"@)
    }, ""@)
}

/// The profile `GET /api/v1/profile` describes: its `id` (`substack` when
/// missing), its name (`name`, else `publicationName`, else the handle), and
/// the one platform `substack`.
pub open spec fn profile_spec(json: JsonValue) -> ProfileView {
    (
        text_or(str_at(json, "id"@), "substack"@),
        text_or(if str_at(json, "name"@) is Some {
            str_at(json, "name"@)
        } else {
            str_at(json, "publicationName"@)
        }, handle_of(json)),
        seq!["substack"@],
    )
}

/// The Substack profile: ID `id` (`substack` when missing); name `name`,
/// else `publicationName`, else the handle (`handle`, else `username`, else
/// empty); one platform, `substack`.
pub proof fn lemma_profile_named_by_name(json: JsonValue)
    ensures
        profile_spec(json).0 == (if str_at(json, "id"@) is Some { str_at(json, "id"@)->0 } else { "substack"@ }),
        str_at(json, "name"@) is Some ==> profile_spec(json).1 == str_at(json, "name"@)->0,
        str_at(json, "name"@) is None && str_at(json, "publicationName"@) is Some ==> profile_spec(json).1 == str_at(
            json,
            "publicationName"@,
        )->0,
        str_at(json, "name"@) is None && str_at(json, "publicationName"@) is None && str_at(json, "handle"@) is Some
            ==> profile_spec(json).1 == str_at(json, "handle"@)->0,
        str_at(json, "name"@) is None && str_at(json, "publicationName"@) is None && str_at(json, "handle"@) is None
            && str_at(json, "username"@) is Some ==> profile_spec(json).1 == str_at(json, "username"@)->0,
        profile_spec(json).2 == seq!["substack"@],
{
}

/// Reads the account profile, and the handle to remember for note URLs
/// (none when it is empty).
pub fn profile(json: &JsonValue) -> (r: (SchedulerProfile, Option<String>))
    ensures
        profile_view(r.0) == profile_spec(*json),
        match r.1 {
            Some(h) => h@ == handle_of(*json) && h@.len() > 0,
            None => handle_of(*json).len() == 0,
        },
{
    proof {
        reveal_strlit("");
    }
    let handle = match json.str_field("handle") {
        Some(s) => s,
        None => match json.str_field("username") {
            Some(s) => s,
            None => "",
        },
    };
    let name = match json.str_field("name") {
        Some(s) => s,
        None => match json.str_field("publicationName") {
            Some(s) => s,
            None => handle,
        },
    };
    let id = match json.str_field("id") {
        Some(s) => s,
        None => "substack",
    };
    let mut platforms: Vec<String> = Vec::new();
    platforms.push(to_owned_string("substack"));
    let p = SchedulerProfile { id: to_owned_string(id), name: to_owned_string(name), platforms };
    proof {
        assert(strings_view(p.platforms@) =~= seq!["substack"@]);
    }
    let cached = if handle.is_empty() {
        None
    } else {
        Some(to_owned_string(handle))
    };
    (p, cached)
}

/// Reads `GET /api/v1/comment/{id}`: likes are `reactions_count`, replies
/// `children_count`; notes have no reposts or impressions.
pub fn engagement(json: &JsonValue) -> (r: Engagement)
    ensures
        r.likes == (match u64_at(*json, "reactions_count"@) {
            Some(n) => n,
            None => 0,
        }),
        r.reposts == 0,
        r.replies == (match u64_at(*json, "children_count"@) {
            Some(n) => n,
            None => 0,
        }),
        r.impressions is None,
        r.platform_url is None,
{
    let likes = match json.u64_field("reactions_count") {
        Some(n) => n,
        None => 0,
    };
    let replies = match json.u64_field("children_count") {
        Some(n) => n,
        None => 0,
    };
    Engagement { likes, reposts: 0, replies, impressions: None, platform_url: None }
}

pub open spec fn cancel_unsupported_message() -> Seq<char> {
    "Substack Notes cannot be deleted via the API. Delete the note manually at substack.com."@
}

/// Notes cannot be deleted through the API.
pub fn cancel_error() -> (r: ProviderError)
    ensures
        is_not_supported(r, cancel_unsupported_message()),
{
    ProviderError::NotSupported(
        to_owned_string("Substack Notes cannot be deleted via the API. Delete the note manually at substack.com."),
    )
}

} // verus!

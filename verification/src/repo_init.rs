//! The configuration files written when a repo is first connected or
//! discovered: `.postlane/config.json`, which ties the repo to its project,
//! and `.postlane/config.local.json`, which starts with no scheduler chosen.
use vstd::prelude::*;
use crate::json::{entry_keys, entry_value, field, json_str, keys_of, push_entry, str_at, u64_of, JsonNumber, JsonValue};

verus! {

broadcast use vstd::string::group_string_axioms;

/// The web service a new repo talks to.
pub const BASE_URL: &'static str = "https://postlane.dev";

/// The initial `config.json` of a repo in project `project_id` that drafts
/// with the language model `model`:
/// `{"version": 1, "project_id": ..., "base_url": BASE_URL,
/// "llm": {"provider": "anthropic", "model": ...}}`.
pub fn build_initial_config_json(project_id: &str, model: &str) -> (r: JsonValue)
    ensures
        keys_of(r) == seq!["version"@, "project_id"@, "base_url"@, "llm"@],
        u64_of(field(r, "version"@)) == Some(1u64),
        str_at(r, "project_id"@) == Some(project_id@),
        str_at(r, "base_url"@) == Some("https://postlane.dev"@),
        keys_of(field(r, "llm"@)) == seq!["provider"@, "model"@],
        str_at(field(r, "llm"@), "provider"@) == Some("anthropic"@),
        str_at(field(r, "llm"@), "model"@) == Some(model@),
{
    proof {
        reveal_strlit("version");
        reveal_strlit("project_id");
        reveal_strlit("base_url");
        reveal_strlit("llm");
        reveal_strlit("provider");
        reveal_strlit("model");
        assert("version"@.len() == 7 && "project_id"@.len() == 10 && "base_url"@.len() == 8 && "llm"@.len() == 3);
        assert("provider"@.len() == 8 && "model"@.len() == 5);
    }
    let mut llm: Vec<(String, JsonValue)> = Vec::new();
    push_entry(&mut llm, "provider", json_str("anthropic"));
    let ghost llm1 = llm@;
    push_entry(&mut llm, "model", json_str(model));
    proof {
        assert(entry_value(llm1, "provider"@) is Some);
        assert(entry_value(llm@, "provider"@) == entry_value(llm1, "provider"@));
        assert(entry_value(llm1, "model"@) is None);
        assert(entry_keys(llm@) =~= seq!["provider"@, "model"@]);
    }
    let llm_value = JsonValue::Object(llm);
    let ghost lv = llm_value;
    let mut body: Vec<(String, JsonValue)> = Vec::new();
    push_entry(&mut body, "version", JsonValue::Number(JsonNumber::Unsigned(1)));
    let ghost b1 = body@;
    push_entry(&mut body, "project_id", json_str(project_id));
    let ghost b2 = body@;
    push_entry(&mut body, "base_url", json_str(BASE_URL));
    let ghost b3 = body@;
    push_entry(&mut body, "llm", llm_value);
    proof {
        assert(entry_value(b1, "version"@) is Some);
        assert(entry_value(b1, "project_id"@) is None);
        assert(entry_value(b2, "version"@) == entry_value(b1, "version"@));
        assert(entry_value(b2, "base_url"@) is None);
        assert(entry_value(b3, "version"@) == entry_value(b1, "version"@));
        assert(entry_value(b3, "project_id"@) == entry_value(b2, "project_id"@));
        assert(entry_value(b3, "llm"@) is None);
        assert(entry_value(body@, "version"@) == entry_value(b1, "version"@));
        assert(entry_value(body@, "project_id"@) == entry_value(b2, "project_id"@));
        assert(entry_value(body@, "base_url"@) == entry_value(b3, "base_url"@));
        assert(entry_value(body@, "llm"@) == Some(lv));
        assert(entry_keys(body@) =~= seq!["version"@, "project_id"@, "base_url"@, "llm"@]);
    }
    JsonValue::Object(body)
}

/// The initial `config.local.json`: `{"scheduler": {"provider": ""}}`.
pub fn build_initial_config_local_json() -> (r: JsonValue)
    ensures
        keys_of(r) == seq!["scheduler"@],
        keys_of(field(r, "scheduler"@)) == seq!["provider"@],
        str_at(field(r, "scheduler"@), "provider"@) == Some(""@),
{
    let mut scheduler: Vec<(String, JsonValue)> = Vec::new();
    push_entry(&mut scheduler, "provider", json_str(""));
    proof {
        assert(entry_keys(scheduler@) =~= seq!["provider"@]);
    }
    let sv = JsonValue::Object(scheduler);
    let ghost g = sv;
    let mut body: Vec<(String, JsonValue)> = Vec::new();
    push_entry(&mut body, "scheduler", sv);
    proof {
        assert(entry_keys(body@) =~= seq!["scheduler"@]);
        assert(entry_value(body@, "scheduler"@) == Some(g));
    }
    JsonValue::Object(body)
}

} // verus!

//! Per-repo scheduler configuration: the provider a repo schedules through
//! and the order in which the others are tried, kept under `scheduler` in the
//! repo's `.postlane/config.json`.
use vstd::prelude::*;
use crate::credentials::{is_valid_provider, valid_provider};
use crate::json::{entry_value, field, json_str, set_entry, str_of, take_entry, JsonValue};
use crate::repos::{find_repo_index, first_index_of, Repo};
use crate::text::{join2, join3, path_join, path_join_str, to_owned_string};

verus! {

broadcast use vstd::string::group_string_axioms;

/// Index of the first provider in `order` that is not a valid provider.
pub open spec fn first_unknown(order: Seq<String>) -> Option<int> {
    if exists|i: int| 0 <= i < order.len() && !is_valid_provider(#[trigger] order[i]@) {
        Some(
            choose|i: int|
                0 <= i < order.len() && !is_valid_provider(order[i]@) && forall|j: int|
                    0 <= j < i ==> is_valid_provider(#[trigger] order[j]@),
        )
    } else {
        None
    }
}

pub open spec fn empty_order_message() -> Seq<char> {
    "fallback_order must contain at least one provider"@
}

pub open spec fn unknown_provider_message(p: Seq<char>) -> Seq<char> {
    "Unknown provider in fallback_order: '"@ + p + "'"@
}

/// Checks a fallback order: it must name at least one provider, and every
/// provider in it must be valid; the first unknown one is reported.
pub fn check_fallback_order(order: &[String]) -> (r: Result<(), String>)
    ensures
        order@.len() == 0 ==> r is Err && r->Err_0@ == empty_order_message(),
        order@.len() > 0 ==> match first_unknown(order@) {
            None => r is Ok,
            Some(i) => r is Err && r->Err_0@ == unknown_provider_message(order@[i]@),
        },
{
    if order.len() == 0 {
        return Err(to_owned_string("fallback_order must contain at least one provider"));
    }
    let mut i: usize = 0;
    while i < order.len()
        invariant
            0 <= i <= order@.len(),
            forall|j: int| 0 <= j < i ==> is_valid_provider(#[trigger] order@[j]@),
        decreases order@.len() - i,
    {
        if !valid_provider(order[i].as_str()) {
            proof {
                let k = choose|k: int|
                    0 <= k < order@.len() && !is_valid_provider(order@[k]@) && forall|j: int|
                        0 <= j < k ==> is_valid_provider(#[trigger] order@[j]@);
                assert(0 <= i < order@.len() && !is_valid_provider(order@[i as int]@));
                if k < i {
                    assert(is_valid_provider(order@[k]@));
                } else if k > i {
                    assert(is_valid_provider(order@[i as int]@));
                }
            }
            return Err(join3("Unknown provider in fallback_order: '", order[i].as_str(), "'"));
        }
        i += 1;
    }
    Ok(())
}

pub open spec fn repo_missing_message(id: Seq<char>) -> Seq<char> {
    "Repo "@ + id + " not found"@
}

/// Where a repo keeps its configuration: `{repo}/.postlane/config.json`.
pub fn repo_config_path(repo_path: &str) -> (r: String)
    ensures
        r@ == path_join(repo_path@, ".postlane/config.json"@),
{
    path_join_str(repo_path, ".postlane/config.json")
}

/// The checks made before a repo's scheduler order is rewritten: the order
/// must pass `check_fallback_order`, and the repo must be registered. On
/// success, the path of the config file to rewrite.
pub fn scheduler_config_target(repo_id: &str, fallback_order: &[String], repos: &[Repo]) -> (r: Result<
    String,
    String,
>)
    ensures
        fallback_order@.len() == 0 ==> r is Err && r->Err_0@ == empty_order_message(),
        fallback_order@.len() > 0 && first_unknown(fallback_order@) is Some ==> r is Err && r->Err_0@
            == unknown_provider_message(fallback_order@[first_unknown(fallback_order@)->0]@),
        fallback_order@.len() > 0 && first_unknown(fallback_order@) is None ==> match first_index_of(
            repos@,
            repo_id@,
        ) {
            None => r is Err && r->Err_0@ == repo_missing_message(repo_id@),
            Some(i) => r is Ok && r->Ok_0@ == path_join(repos@[i].path@, ".postlane/config.json"@),
        },
{
    match check_fallback_order(fallback_order) {
        Err(e) => return Err(e),
        Ok(()) => {},
    }
    match find_repo_index(repos, repo_id) {
        None => Err(join3("Repo ", repo_id, " not found")),
        Some(i) => Ok(repo_config_path(repos[i].path.as_str())),
    }
}

/// A value that `value[key] = ...` may be applied to: an object, or `null`,
/// which becomes an empty object first.
pub open spec fn indexable(j: JsonValue) -> bool {
    j is Object || j is Null
}

/// The strings of `order` as a JSON array.
pub open spec fn order_json_items(order: Seq<String>, items: Seq<JsonValue>) -> bool {
    items.len() == order.len() && forall|i: int| 0 <= i < order.len() ==> str_of(#[trigger] items[i]) == Some(order[i]@)
}

fn order_array(order: &[String]) -> (r: Vec<JsonValue>)
    ensures
        order_json_items(order@, r@),
{
    let mut out: Vec<JsonValue> = Vec::new();
    let mut i: usize = 0;
    while i < order.len()
        invariant
            0 <= i <= order@.len(),
            out@.len() == i,
            forall|k: int| 0 <= k < i ==> str_of(#[trigger] out@[k]) == Some(order@[k]@),
        decreases order@.len() - i,
    {
        out.push(json_str(order[i].as_str()));
        i += 1;
    }
    out
}

/// `r` is `config` with `scheduler.provider` set to the first entry of
/// `order` and `scheduler.fallback_order` to all of it, every other member
/// as it was.
pub open spec fn fallback_order_written(config: JsonValue, order: Seq<String>, r: JsonValue) -> bool {
    &&& r is Object
    &&& field(r, "scheduler"@) is Object
    &&& str_of(field(field(r, "scheduler"@), "provider"@)) == Some(order[0]@)
    &&& match field(field(r, "scheduler"@), "fallback_order"@) {
        JsonValue::Array(items) => order_json_items(order, items@),
        _ => false,
    }
    &&& forall|q: Seq<char>| q != "scheduler"@ ==> #[trigger] field(r, q) == field(config, q)
    &&& forall|q: Seq<char>|
        q != "provider"@ && q != "fallback_order"@ ==> #[trigger] field(field(r, "scheduler"@), q) == field(
            field(config, "scheduler"@),
            q,
        )
}

/// Writes `scheduler.provider` (the first entry of `order`) and
/// `scheduler.fallback_order` (all of it) into a repo config, leaving every
/// other member as it was.
pub fn with_fallback_order(config: JsonValue, order: &[String]) -> (r: JsonValue)
    requires
        order@.len() > 0,
        indexable(config),
        indexable(field(config, "scheduler"@)),
    ensures
        fallback_order_written(config, order@, r),
{
    let ghost gconfig = config;
    let mut entries = match config {
        JsonValue::Object(es) => es,
        _ => Vec::new(),
    };
    let ghost top = entries@;
    let old_sched = take_entry(&mut entries, "scheduler");
    let mut sched = match old_sched {
        Some(JsonValue::Object(es)) => es,
        _ => Vec::new(),
    };
    let ghost sched0 = sched@;
    let provider = json_str(order[0].as_str());
    let ghost pv = provider;
    set_entry(&mut sched, "provider", provider);
    let ghost sched_mid = sched@;
    let items = order_array(order);
    let ghost iv = items;
    set_entry(&mut sched, "fallback_order", JsonValue::Array(items));
    let ghost sched1 = sched@;
    let new_sched = JsonValue::Object(sched);
    set_entry(&mut entries, "scheduler", new_sched);
    let r = JsonValue::Object(entries);
    proof {
        reveal_strlit("scheduler");
        reveal_strlit("provider");
        reveal_strlit("fallback_order");
        assert(field(r, "scheduler"@) == new_sched);
        assert("provider"@.len() != "fallback_order"@.len());
        assert(entry_value(sched_mid, "provider"@) == Some(pv));
        assert(entry_value(sched1, "provider"@) == entry_value(sched_mid, "provider"@));
        assert(entry_value(sched1, "fallback_order"@) == Some(JsonValue::Array(iv)));
        assert forall|q: Seq<char>| q != "scheduler"@ implies #[trigger] field(r, q) == field(gconfig, q) by {
            assert(entry_value(entries@, q) == entry_value(top, q));
        }
        assert forall|q: Seq<char>| q != "provider"@ && q != "fallback_order"@ implies #[trigger] field(
            field(r, "scheduler"@),
            q,
        ) == field(field(gconfig, "scheduler"@), q) by {
            assert(entry_value(sched1, q) == entry_value(sched0, q));
        }
    }
    r
}

} // verus!

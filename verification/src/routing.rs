//! Choosing the scheduler for a post: the configured fallback order, and the
//! first provider in it that still has capacity and a stored credential.
use vstd::prelude::*;
use crate::scheduling::{kind_of_name, ProviderKind};
use crate::json::{array_of, field, opt_string_view, str_of, JsonValue};
use crate::text::to_owned_string;
use crate::usage::{at_limit, current_month_year, is_at_limit_at, UsageStore};

verus! {

broadcast use vstd::string::group_string_axioms;

/// A resolved scheduler credential selected after applying the fallback chain.
#[derive(Debug, Clone, PartialEq)]
pub struct SchedulerCredential {
    pub provider: String,
    pub api_key: String,
}

/// What the fallback logic reads of the `scheduler` section of a repo's
/// merged config: `fallback_order` when it is an array (each entry `Some` when
/// it is a string), and `provider` when it is a string.
#[derive(Debug, Clone)]
pub struct SchedulerSettings {
    pub fallback_order: Option<Vec<Option<String>>>,
    pub provider: Option<String>,
}

/// The non-empty string entries of a `fallback_order` array, in order.
pub open spec fn usable_entries(entries: Seq<Option<String>>) -> Seq<Seq<char>>
    decreases entries.len(),
{
    if entries.len() == 0 {
        Seq::empty()
    } else {
        let rest = usable_entries(entries.drop_last());
        match entries.last() {
            Some(s) => if s@.len() > 0 {
                rest.push(s@)
            } else {
                rest
            },
            None => rest,
        }
    }
}

/// The provider order configured in `settings`: the usable entries of
/// `fallback_order` when there are any, else `[provider]` when it is a
/// non-empty string, else nothing.
pub open spec fn fallback_order_spec(settings: SchedulerSettings) -> Seq<Seq<char>> {
    let from_order = match settings.fallback_order {
        Some(entries) => usable_entries(entries@),
        None => Seq::empty(),
    };
    if from_order.len() > 0 {
        from_order
    } else {
        match settings.provider {
            Some(p) => if p@.len() > 0 {
                seq![p@]
            } else {
                Seq::empty()
            },
            None => Seq::empty(),
        }
    }
}

pub open spec fn strings_view(v: Seq<String>) -> Seq<Seq<char>> {
    v.map_values(|s: String| s@)
}

/// Reads the provider fallback order from the scheduler settings.
pub fn read_fallback_order(settings: &SchedulerSettings) -> (r: Vec<String>)
    ensures
        strings_view(r@) == fallback_order_spec(*settings),
{
    let mut order: Vec<String> = Vec::new();
    match &settings.fallback_order {
        Some(entries) => {
            let mut i: usize = 0;
            while i < entries.len()
                invariant
                    0 <= i <= entries@.len(),
                    strings_view(order@) == usable_entries(entries@.take(i as int)),
                decreases entries@.len() - i,
            {
                proof {
                    assert(entries@.take(i + 1).drop_last() =~= entries@.take(i as int));
                }
                match &entries[i] {
                    Some(s) => {
                        if !s.as_str().is_empty() {
                            order.push(s.clone());
                            proof {
                                assert(strings_view(order@) =~= usable_entries(entries@.take(i as int)).push(s@));
                            }
                        }
                    },
                    None => {},
                }
                i += 1;
            }
            proof {
                assert(entries@.take(entries@.len() as int) =~= entries@);
            }
        },
        None => {
            proof {
                assert(strings_view(order@) =~= Seq::<Seq<char>>::empty());
            }
        },
    }
    if order.len() > 0 {
        return order;
    }
    match &settings.provider {
        Some(p) => {
            if !p.as_str().is_empty() {
                let mut single: Vec<String> = Vec::new();
                single.push(p.clone());
                proof {
                    assert(strings_view(single@) =~= seq![p@]);
                }
                return single;
            }
        },
        None => {},
    }
    proof {
        assert(strings_view(order@) =~= Seq::<Seq<char>>::empty());
    }
    order
}

/// Provider `p` is passed over: it is at its known limit for the month, it is
/// not a provider that can be built, or it has no stored credential.
pub open spec fn passed_over<F: Fn(&str) -> Option<String>>(
    get_credential: F,
    store: UsageStore,
    month: u32,
    year: u32,
    p: Seq<char>,
) -> bool {
    ||| at_limit(store.records@, p, month, year)
    ||| kind_of_name(p) is None
    ||| exists|k: &str| k@ == p && call_ensures(get_credential, (k,), None::<String>)
}

pub open spec fn no_capacity_message() -> Seq<char> {
    "All configured schedulers have reached their limits or have no credentials. Check Settings \u{2192} Scheduler to add capacity or upgrade a provider."@
}

/// Picks the first provider in `providers` that is below its known limit for
/// `month`/`year`, can be built, and has a credential (asked of
/// `get_credential` only for providers below their limit). Every provider
/// before it was passed over; when all are, the error says so.
pub fn select_provider_with_fallback<F: Fn(&str) -> Option<String>>(
    providers: &[String],
    store: &UsageStore,
    month: u32,
    year: u32,
    get_credential: F,
) -> (r: Result<SchedulerCredential, String>)
    requires
        store.wf(),
        forall|k: &str| call_requires(get_credential, (k,)),
    ensures
        match r {
            Ok(c) => exists|i: int|
                0 <= i < providers@.len() && c.provider@ == providers@[i]@ && !at_limit(
                    store.records@,
                    c.provider@,
                    month,
                    year,
                ) && kind_of_name(c.provider@) is Some && (exists|k: &str|
                    k@ == c.provider@ && call_ensures(get_credential, (k,), Some(c.api_key)))
                    && forall|j: int|
                    0 <= j < i ==> passed_over(get_credential, *store, month, year, #[trigger] providers@[j]@),
            Err(e) => e@ == no_capacity_message() && forall|j: int|
                0 <= j < providers@.len() ==> passed_over(
                    get_credential,
                    *store,
                    month,
                    year,
                    #[trigger] providers@[j]@,
                ),
        },
{
    let mut i: usize = 0;
    while i < providers.len()
        invariant
            0 <= i <= providers@.len(),
            store.wf(),
            forall|k: &str| call_requires(get_credential, (k,)),
            forall|j: int|
                0 <= j < i ==> passed_over(get_credential, *store, month, year, #[trigger] providers@[j]@),
        decreases providers@.len() - i,
    {
        let provider = &providers[i];
        if is_at_limit_at(provider.as_str(), store, month, year) {
            i += 1;
            continue;
        }
        let k = provider.as_str();
        let cred = get_credential(k);
        match cred {
            Some(api_key) => {
                let kind: Option<ProviderKind> = ProviderKind::from_name(k);
                if kind.is_none() {
                    i += 1;
                    continue;
                }
                let c = SchedulerCredential { provider: provider.clone(), api_key };
                proof {
                    assert(call_ensures(get_credential, (k,), Some(c.api_key)));
                    assert(k@ == c.provider@);
                    assert(providers@[i as int]@ == c.provider@);
                }
                return Ok(c);
            },
            None => {
                i += 1;
            },
        }
    }
    Err(
        to_owned_string(
            "All configured schedulers have reached their limits or have no credentials. Check Settings \u{2192} Scheduler to add capacity or upgrade a provider.",
        ),
    )
}


pub open spec fn no_scheduler_message() -> Seq<char> {
    "No scheduler configured. Add one in Settings \u{2192} Scheduler."@
}

/// Picks the scheduler credential for a repo whose merged config holds
/// `settings`, at `month`/`year`: an error when no provider is configured,
/// otherwise `select_provider_with_fallback` over the configured order.
pub fn credential_for_settings_at<F: Fn(&str) -> Option<String>>(
    settings: &SchedulerSettings,
    store: &UsageStore,
    month: u32,
    year: u32,
    get_credential: F,
) -> (r: Result<SchedulerCredential, String>)
    requires
        store.wf(),
        forall|k: &str| call_requires(get_credential, (k,)),
    ensures
        fallback_order_spec(*settings).len() == 0 ==> r is Err && r->Err_0@ == no_scheduler_message(),
        fallback_order_spec(*settings).len() > 0 ==> match r {
            Ok(c) => exists|i: int|
                0 <= i < fallback_order_spec(*settings).len() && c.provider@ == fallback_order_spec(*settings)[i]
                    && !at_limit(store.records@, c.provider@, month, year) && kind_of_name(c.provider@) is Some
                    && (exists|k: &str| k@ == c.provider@ && call_ensures(get_credential, (k,), Some(c.api_key)))
                    && forall|j: int|
                    0 <= j < i ==> passed_over(
                        get_credential,
                        *store,
                        month,
                        year,
                        #[trigger] fallback_order_spec(*settings)[j],
                    ),
            Err(e) => e@ == no_capacity_message() && forall|j: int|
                0 <= j < fallback_order_spec(*settings).len() ==> passed_over(
                    get_credential,
                    *store,
                    month,
                    year,
                    #[trigger] fallback_order_spec(*settings)[j],
                ),
        },
{
    let providers = read_fallback_order(settings);
    if providers.len() == 0 {
        return Err(to_owned_string("No scheduler configured. Add one in Settings \u{2192} Scheduler."));
    }
    let r = select_provider_with_fallback(providers.as_slice(), store, month, year, get_credential);
    proof {
        assert forall|j: int| 0 <= j < providers@.len() implies #[trigger] providers@[j]@
            == fallback_order_spec(*settings)[j] by {
            assert(strings_view(providers@)[j] == providers@[j]@);
        }
    }
    r
}

/// The same choice for the current month, by the system clock.
pub fn get_scheduler_credential_with_fallback<F: Fn(&str) -> Option<String>>(
    settings: &SchedulerSettings,
    store: &UsageStore,
    get_credential: F,
) -> (r: Result<SchedulerCredential, String>)
    requires
        store.wf(),
        forall|k: &str| call_requires(get_credential, (k,)),
    ensures
        fallback_order_spec(*settings).len() == 0 ==> r is Err && r->Err_0@ == no_scheduler_message(),
        fallback_order_spec(*settings).len() > 0 && r is Err ==> r->Err_0@ == no_capacity_message(),
        r matches Ok(c) ==> (exists|i: int|
            0 <= i < fallback_order_spec(*settings).len() && c.provider@ == fallback_order_spec(*settings)[i])
            && kind_of_name(c.provider@) is Some && exists|k: &str|
            k@ == c.provider@ && call_ensures(get_credential, (k,), Some(c.api_key)),
{
    let (month, year) = current_month_year();
    credential_for_settings_at(settings, store, month, year, get_credential)
}


/// What `settings` holds when read from a repo's merged config `config`:
/// `scheduler.fallback_order` when it is an array (each entry's text when it
/// is a string), and `scheduler.provider` when it is a string.
pub open spec fn settings_read(config: JsonValue, settings: SchedulerSettings) -> bool {
    let sched = field(config, "scheduler"@);
    &&& match array_of(field(sched, "fallback_order"@)) {
        Some(items) => settings.fallback_order matches Some(v) && v@.len() == items.len() && forall|i: int|
            0 <= i < items.len() ==> opt_string_view(#[trigger] v@[i]) == str_of(items[i]),
        None => settings.fallback_order is None,
    }
    &&& opt_string_view(settings.provider) == str_of(field(sched, "provider"@))
}

/// Reads the scheduler settings out of a repo's merged config.
pub fn scheduler_settings(config: &JsonValue) -> (r: SchedulerSettings)
    ensures
        settings_read(*config, r),
{
    let sched = config.get("scheduler");
    let (order, provider) = match sched {
        None => (None, None),
        Some(sv) => {
            let order = match sv.get("fallback_order") {
                Some(fo) => match fo.as_array() {
                    Some(items) => {
                        let mut v: Vec<Option<String>> = Vec::new();
                        let mut i: usize = 0;
                        while i < items.len()
                            invariant
                                0 <= i <= items@.len(),
                                v@.len() == i,
                                forall|k: int| 0 <= k < i ==> opt_string_view(#[trigger] v@[k]) == str_of(items@[k]),
                            decreases items@.len() - i,
                        {
                            let e = match items[i].as_str() {
                                Some(t) => Some(to_owned_string(t)),
                                None => None,
                            };
                            v.push(e);
                            i += 1;
                        }
                        Some(v)
                    },
                    None => None,
                },
                None => None,
            };
            let provider = match sv.get("provider") {
                Some(pv) => match pv.as_str() {
                    Some(t) => Some(to_owned_string(t)),
                    None => None,
                },
                None => None,
            };
            (order, provider)
        },
    };
    proof {
        reveal_strlit("scheduler");
        reveal_strlit("fallback_order");
        reveal_strlit("provider");
    }
    SchedulerSettings { fallback_order: order, provider }
}

} // verus!

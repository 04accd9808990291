//! Monthly post counts per scheduler provider, checked against the providers'
//! known free-tier limits. The store holds at most one record per provider;
//! a record from an earlier month counts as zero and is reset on the next post.
use vstd::prelude::*;
use chrono::Datelike;
use crate::text::{str_eq, to_owned_string};

verus! {

broadcast use vstd::string::group_string_axioms;

/// Usage record for a single scheduler provider in one billing month.
#[derive(Clone, Debug)]
pub struct UsageRecord {
    pub provider: String,
    pub count: u32,
    pub month: u32,
    pub year: u32,
}

/// All usage records, at most one per provider.
#[derive(Clone, Debug)]
pub struct UsageStore {
    pub records: Vec<UsageRecord>,
}

/// No two records belong to the same provider.
pub open spec fn distinct_providers(rs: Seq<UsageRecord>) -> bool {
    forall|i: int, j: int|
        0 <= i < rs.len() && 0 <= j < rs.len() && i != j ==> #[trigger] rs[i].provider@
            != #[trigger] rs[j].provider@
}

pub open spec fn has_record(rs: Seq<UsageRecord>, p: Seq<char>) -> bool {
    exists|i: int| 0 <= i < rs.len() && #[trigger] rs[i].provider@ == p
}

/// The record of provider `p` (meaningful when `has_record(rs, p)`).
pub open spec fn record_of(rs: Seq<UsageRecord>, p: Seq<char>) -> UsageRecord {
    rs[choose|i: int| 0 <= i < rs.len() && #[trigger] rs[i].provider@ == p]
}

/// Posts made through provider `p` in month `month` of `year`.
pub open spec fn usage_count(rs: Seq<UsageRecord>, p: Seq<char>, month: u32, year: u32) -> nat {
    if has_record(rs, p) && record_of(rs, p).month == month && record_of(rs, p).year == year {
        record_of(rs, p).count as nat
    } else {
        0
    }
}

impl UsageStore {
    pub open spec fn wf(&self) -> bool {
        distinct_providers(self.records@)
    }

    /// An empty store.
    pub fn new() -> (s: UsageStore)
        ensures
            s.wf(),
            s.records@.len() == 0,
    {
        UsageStore { records: Vec::new() }
    }
}

/// The known monthly free-tier post limit of providers tracked by count.
/// Zernio and Buffer publish no limit and are tracked by 429 responses only;
/// Ayrshare has no free tier; Substack Notes has no scheduler queue.
pub open spec fn known_limit(provider: Seq<char>) -> Option<u32> {
    if provider == "publer"@ {
        Some(10)
    } else if provider == "outstand"@ {
        Some(1000)
    } else if provider == "webhook"@ {
        Some(100)
    } else {
        None
    }
}

/// Returns the known monthly free-tier post limit for `provider`, if any.
pub fn get_known_limit(provider: &str) -> (r: Option<u32>)
    ensures
        r == known_limit(provider@),
{
    if str_eq(provider, "publer") {
        Some(10)
    } else if str_eq(provider, "outstand") {
        Some(1_000)
    } else if str_eq(provider, "webhook") {
        Some(100)
    } else {
        None
    }
}

fn find_record(rs: &Vec<UsageRecord>, provider: &str) -> (r: Option<usize>)
    ensures
        match r {
            Some(i) => i < rs@.len() && rs@[i as int].provider@ == provider@,
            None => !has_record(rs@, provider@),
        },
{
    let mut i: usize = 0;
    while i < rs.len()
        invariant
            0 <= i <= rs@.len(),
            forall|j: int| 0 <= j < i ==> rs@[j].provider@ != provider@,
        decreases rs@.len() - i,
    {
        if str_eq(rs[i].provider.as_str(), provider) {
            return Some(i);
        }
        i += 1;
    }
    None
}

proof fn lemma_record_of_index(rs: Seq<UsageRecord>, p: Seq<char>, i: int)
    requires
        distinct_providers(rs),
        0 <= i < rs.len(),
        rs[i].provider@ == p,
    ensures
        has_record(rs, p),
        record_of(rs, p) == rs[i],
{
    let k = choose|k: int| 0 <= k < rs.len() && #[trigger] rs[k].provider@ == p;
    assert(rs[k].provider@ == p);
    if k != i {
        assert(rs[k].provider@ != rs[i].provider@);
    }
}

/// The usage record of `provider` for `month`/`year`: the stored one when it
/// is from that month, otherwise a zeroed record.
pub fn get_usage_at(provider: &str, store: &UsageStore, month: u32, year: u32) -> (r: UsageRecord)
    requires
        store.wf(),
    ensures
        r.provider@ == provider@,
        r.month == month,
        r.year == year,
        r.count == usage_count(store.records@, provider@, month, year),
{
    match find_record(&store.records, provider) {
        Some(i) => {
            proof {
                lemma_record_of_index(store.records@, provider@, i as int);
            }
            let r = &store.records[i];
            if r.month == month && r.year == year {
                UsageRecord {
                    provider: to_owned_string(provider),
                    count: r.count,
                    month,
                    year,
                }
            } else {
                UsageRecord { provider: to_owned_string(provider), count: 0, month, year }
            }
        },
        None => UsageRecord { provider: to_owned_string(provider), count: 0, month, year },
    }
}

/// `n + 1`, held at `u32::MAX`.
pub open spec fn saturating_inc(n: nat) -> nat {
    if n + 1 > u32::MAX {
        u32::MAX as nat
    } else {
        n + 1
    }
}

/// Records one post through `provider` in `month`/`year`. A record from an
/// earlier month is reset first, so the count restarts at 1.
pub fn record_post_at(provider: &str, store: &mut UsageStore, month: u32, year: u32)
    requires
        old(store).wf(),
    ensures
        final(store).wf(),
        has_record(final(store).records@, provider@),
        usage_count(final(store).records@, provider@, month, year) == saturating_inc(
            usage_count(old(store).records@, provider@, month, year),
        ),
        forall|q: Seq<char>|
            q != provider@ ==> (#[trigger] has_record(final(store).records@, q) == has_record(
                old(store).records@,
                q,
            ) && (has_record(old(store).records@, q) ==> record_of(final(store).records@, q)
                == record_of(old(store).records@, q))),
{
    let ghost old_rs = store.records@;
    match find_record(&store.records, provider) {
        Some(i) => {
            proof {
                lemma_record_of_index(old_rs, provider@, i as int);
            }
            let old_rec = &store.records[i];
            let base: u32 = if old_rec.month != month || old_rec.year != year {
                0
            } else {
                old_rec.count
            };
            let count = if base == u32::MAX {
                base
            } else {
                base + 1
            };
            let rec = UsageRecord { provider: to_owned_string(provider), count, month, year };
            store.records.set(i, rec);
            proof {
                let rs = store.records@;
                assert(distinct_providers(rs)) by {
                    assert forall|a: int, b: int|
                        0 <= a < rs.len() && 0 <= b < rs.len() && a != b implies #[trigger] rs[a].provider@
                        != #[trigger] rs[b].provider@ by {
                        assert(old_rs[a].provider@ != old_rs[b].provider@);
                    }
                }
                lemma_record_of_index(rs, provider@, i as int);
                assert forall|q: Seq<char>| q != provider@ implies #[trigger] has_record(rs, q)
                    == has_record(old_rs, q) && (has_record(old_rs, q) ==> record_of(rs, q) == record_of(old_rs, q)) by {
                    if has_record(old_rs, q) {
                        let k = choose|k: int| 0 <= k < old_rs.len() && #[trigger] old_rs[k].provider@ == q;
                        lemma_record_of_index(old_rs, q, k);
                        assert(rs[k] == old_rs[k]);
                        lemma_record_of_index(rs, q, k);
                    }
                    if has_record(rs, q) {
                        let k = choose|k: int| 0 <= k < rs.len() && #[trigger] rs[k].provider@ == q;
                        assert(rs[k] == old_rs[k]);
                    }
                }
            }
        },
        None => {
            let rec = UsageRecord { provider: to_owned_string(provider), count: 1, month, year };
            store.records.push(rec);
            proof {
                let rs = store.records@;
                let n = old_rs.len() as int;
                assert(distinct_providers(rs)) by {
                    assert forall|a: int, b: int|
                        0 <= a < rs.len() && 0 <= b < rs.len() && a != b implies #[trigger] rs[a].provider@
                        != #[trigger] rs[b].provider@ by {
                        if a < n && b < n {
                            assert(old_rs[a].provider@ != old_rs[b].provider@);
                        } else if a < n {
                            assert(old_rs[a].provider@ != provider@);
                        } else if b < n {
                            assert(old_rs[b].provider@ != provider@);
                        }
                    }
                }
                lemma_record_of_index(rs, provider@, n);
                assert forall|q: Seq<char>| q != provider@ implies #[trigger] has_record(rs, q)
                    == has_record(old_rs, q) && (has_record(old_rs, q) ==> record_of(rs, q) == record_of(old_rs, q)) by {
                    if has_record(old_rs, q) {
                        let k = choose|k: int| 0 <= k < old_rs.len() && #[trigger] old_rs[k].provider@ == q;
                        lemma_record_of_index(old_rs, q, k);
                        assert(rs[k] == old_rs[k]);
                        lemma_record_of_index(rs, q, k);
                    }
                    if has_record(rs, q) {
                        let k = choose|k: int| 0 <= k < rs.len() && #[trigger] rs[k].provider@ == q;
                        if k < n {
                            assert(rs[k] == old_rs[k]);
                        }
                    }
                }
            }
        },
    }
}

/// 80% of `limit`, rounded down, as `limit * 4 / 5`.
pub open spec fn near_threshold(limit: u32) -> nat {
    (limit as nat * 4 / 5) as nat
}

pub open spec fn near_limit(rs: Seq<UsageRecord>, p: Seq<char>, month: u32, year: u32) -> bool {
    match known_limit(p) {
        Some(l) => usage_count(rs, p, month, year) >= near_threshold(l),
        None => false,
    }
}

pub open spec fn at_limit(rs: Seq<UsageRecord>, p: Seq<char>, month: u32, year: u32) -> bool {
    match known_limit(p) {
        Some(l) => usage_count(rs, p, month, year) >= l,
        None => false,
    }
}

/// Near the limit means at least 80% of it used: five times the month's
/// count reaches four times the limit.
pub proof fn lemma_near_limit_is_eighty_percent(rs: Seq<UsageRecord>, p: Seq<char>, month: u32, year: u32)
    ensures
        known_limit(p) matches Some(l) ==> (near_limit(rs, p, month, year) <==> 5 * usage_count(rs, p, month, year)
            >= 4 * l),
        known_limit(p) is None ==> !near_limit(rs, p, month, year),
{
}

/// Whether `provider` has used at least 80% of its known limit this month.
/// Providers without a known limit never are.
pub fn is_near_limit_at(provider: &str, store: &UsageStore, month: u32, year: u32) -> (r: bool)
    requires
        store.wf(),
    ensures
        r == near_limit(store.records@, provider@, month, year),
        known_limit(provider@) matches Some(l) ==> (r <==> 5 * usage_count(store.records@, provider@, month, year)
            >= 4 * l),
{
    proof {
        lemma_near_limit_is_eighty_percent(store.records@, provider@, month, year);
    }
    let limit = match get_known_limit(provider) {
        Some(l) => l,
        None => return false,
    };
    let rec = get_usage_at(provider, store, month, year);
    rec.count >= limit * 4 / 5
}

/// Whether `provider` has used all of its known limit this month.
/// Providers without a known limit never have.
pub fn is_at_limit_at(provider: &str, store: &UsageStore, month: u32, year: u32) -> (r: bool)
    requires
        store.wf(),
    ensures
        r == at_limit(store.records@, provider@, month, year),
        known_limit(provider@) matches Some(l) ==> (r <==> usage_count(store.records@, provider@, month, year) >= l),
{
    let limit = match get_known_limit(provider) {
        Some(l) => l,
        None => return false,
    };
    let rec = get_usage_at(provider, store, month, year);
    rec.count >= limit
}


/// The current calendar month (1 to 12) and year in UTC, by the system clock
/// (`chrono::Utc::now`). Nothing else is promised: it is the time.
#[verifier::external_body]
pub(crate) fn current_month_year() -> (r: (u32, u32))
    ensures
        1 <= r.0 <= 12,
{
    let now = chrono::Utc::now();
    (now.month(), now.year() as u32)
}

/// Records one post through `provider` in the current month, and returns
/// that month and year.
pub fn record_post(provider: &str, store: &mut UsageStore) -> (r: (u32, u32))
    requires
        old(store).wf(),
    ensures
        1 <= r.0 <= 12,
        final(store).wf(),
        has_record(final(store).records@, provider@),
        usage_count(final(store).records@, provider@, r.0, r.1) == saturating_inc(
            usage_count(old(store).records@, provider@, r.0, r.1),
        ),
        forall|q: Seq<char>|
            q != provider@ ==> (#[trigger] has_record(final(store).records@, q) == has_record(
                old(store).records@,
                q,
            ) && (has_record(old(store).records@, q) ==> record_of(final(store).records@, q)
                == record_of(old(store).records@, q))),
{
    let (month, year) = current_month_year();
    record_post_at(provider, store, month, year);
    (month, year)
}

/// The usage record of `provider` for the current month.
pub fn get_usage(provider: &str, store: &UsageStore) -> (r: UsageRecord)
    requires
        store.wf(),
    ensures
        1 <= r.month <= 12,
        r.provider@ == provider@,
        r.count == usage_count(store.records@, provider@, r.month, r.year),
{
    let (month, year) = current_month_year();
    get_usage_at(provider, store, month, year)
}

/// Whether `provider` has used at least 80% of its known limit this month.
pub fn is_near_limit(provider: &str, store: &UsageStore) -> (r: bool)
    requires
        store.wf(),
    ensures
        known_limit(provider@) is None ==> !r,
        exists|m: u32, y: u32| 1 <= m <= 12 && r == near_limit(store.records@, provider@, m, y),
{
    let (month, year) = current_month_year();
    is_near_limit_at(provider, store, month, year)
}

/// Whether `provider` has used all of its known limit this month.
pub fn is_at_limit(provider: &str, store: &UsageStore) -> (r: bool)
    requires
        store.wf(),
    ensures
        known_limit(provider@) is None ==> !r,
        exists|m: u32, y: u32| 1 <= m <= 12 && r == at_limit(store.records@, provider@, m, y),
{
    let (month, year) = current_month_year();
    is_at_limit_at(provider, store, month, year)
}

} // verus!

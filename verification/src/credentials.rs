//! Scheduler credentials: which providers may hold one, where each is kept in
//! the OS keyring, and the checks made before a credential is saved, read,
//! removed or listed.
use vstd::prelude::*;
use crate::text::{decimal_string, decimal_text, join2, join3, join4, str_eq, to_owned_string};

verus! {

broadcast use vstd::string::group_string_axioms;

/// Providers for which a per-project credential can be stored.
pub const VALID_PROVIDERS: [&'static str; 8] = [
    "zernio",
    "upload_post",
    "buffer",
    "ayrshare",
    "publer",
    "outstand",
    "substack_notes",
    "webhook",
];

/// Providers with a workspace-wide credential under the canonical
/// `postlane-scheduler-{provider}` keyring key, in the order they are listed.
pub const KNOWN_SCHEDULER_PROVIDERS: [&'static str; 7] = [
    "zernio",
    "upload_post",
    "ayrshare",
    "publer",
    "outstand",
    "substack_notes",
    "webhook",
];

pub open spec fn is_valid_provider(p: Seq<char>) -> bool {
    exists|i: int| 0 <= i < 8 && #[trigger] VALID_PROVIDERS[i]@ == p
}

pub open spec fn is_known_scheduler_provider(p: Seq<char>) -> bool {
    exists|i: int| 0 <= i < 7 && #[trigger] KNOWN_SCHEDULER_PROVIDERS[i]@ == p
}

/// Whether `provider` is one of `VALID_PROVIDERS`.
pub fn valid_provider(provider: &str) -> (r: bool)
    ensures
        r == is_valid_provider(provider@),
{
    let mut i: usize = 0;
    while i < 8
        invariant
            0 <= i <= 8,
            forall|j: int| 0 <= j < i ==> VALID_PROVIDERS[j]@ != provider@,
        decreases 8 - i,
    {
        if str_eq(VALID_PROVIDERS[i], provider) {
            return true;
        }
        i += 1;
    }
    false
}

/// Whether `provider` is one of `KNOWN_SCHEDULER_PROVIDERS`.
pub fn known_scheduler_provider(provider: &str) -> (r: bool)
    ensures
        r == is_known_scheduler_provider(provider@),
{
    let mut i: usize = 0;
    while i < 7
        invariant
            0 <= i <= 7,
            forall|j: int| 0 <= j < i ==> KNOWN_SCHEDULER_PROVIDERS[j]@ != provider@,
        decreases 7 - i,
    {
        if str_eq(KNOWN_SCHEDULER_PROVIDERS[i], provider) {
            return true;
        }
        i += 1;
    }
    false
}

// ── keyring keys ─────────────────────────────────────────────────────────────
pub open spec fn credential_key(provider: Seq<char>, id: Seq<char>) -> Seq<char> {
    provider + "/"@ + id
}

/// The keyring key of `provider`'s credential for project `id`: `{provider}/{id}`.
pub fn get_credential_keyring_key(provider: &str, id: &str) -> (r: String)
    ensures
        r@ == credential_key(provider@, id@),
{
    join3(provider, "/", id)
}

/// The fixed text shown in place of any stored credential.
pub open spec fn credential_mask() -> Seq<char> {
    "••••••••"@
}

/// The masked form of a credential: always the same eight bullets, so no part
/// of the credential is ever shown.
pub fn mask_credential(_credential: &str) -> (r: String)
    ensures
        r@ == credential_mask(),
{
    to_owned_string("••••••••")
}

pub open spec fn libsecret_missing_message() -> Seq<char> {
    "libsecret not available. See the warning banner. Install with: sudo apt install libsecret-1-dev"@
}

pub open spec fn unit_result_view(r: Result<(), String>) -> Result<(), Seq<char>> {
    match r {
        Ok(()) => Ok(()),
        Err(e) => Err(e@),
    }
}

/// Refuses to save when the keyring backend is known to be unavailable;
/// an unknown availability (`None`) lets the save go ahead.
pub fn check_libsecret_before_save(libsecret_available: Option<bool>) -> (r: Result<(), String>)
    ensures
        unit_result_view(r) == (if libsecret_available == Some(false) {
            Err(libsecret_missing_message())
        } else {
            Ok(())
        }),
{
    match libsecret_available {
        Some(false) => Err(
            to_owned_string(
                "libsecret not available. See the warning banner. Install with: sudo apt install libsecret-1-dev",
            ),
        ),
        Some(true) | None => Ok(()),
    }
}

pub open spec fn unknown_provider_message(provider: Seq<char>) -> Seq<char> {
    "Unknown provider: "@ + provider
}

pub open spec fn provider_check(provider: Seq<char>) -> Result<(), Seq<char>> {
    if is_valid_provider(provider) {
        Ok(())
    } else {
        Err(unknown_provider_message(provider))
    }
}

/// Checks made before a credential is saved: the keyring must be usable, then
/// the provider must be one of `VALID_PROVIDERS`.
pub fn save_scheduler_credential_impl(
    provider: &str,
    _api_key: &str,
    libsecret_available: Option<bool>,
) -> (r: Result<(), String>)
    ensures
        unit_result_view(r) == (if libsecret_available == Some(false) {
            Err(libsecret_missing_message())
        } else {
            provider_check(provider@)
        }),
{
    check_libsecret_before_save(libsecret_available)?;
    if !valid_provider(provider) {
        return Err(join2("Unknown provider: ", provider));
    }
    Ok(())
}

/// The provider of a credential to be read must be one of `VALID_PROVIDERS`.
pub fn get_scheduler_credential_impl(provider: &str) -> (r: Result<(), String>)
    ensures
        unit_result_view(r) == provider_check(provider@),
{
    if !valid_provider(provider) {
        return Err(join2("Unknown provider: ", provider));
    }
    Ok(())
}

/// The provider of a credential to be deleted must be one of `VALID_PROVIDERS`.
pub fn delete_scheduler_credential_impl(provider: &str) -> (r: Result<(), String>)
    ensures
        unit_result_view(r) == provider_check(provider@),
{
    if !valid_provider(provider) {
        return Err(join2("Unknown provider: ", provider));
    }
    Ok(())
}

// ── workspace-wide scheduler credentials ─────────────────────────────────────
/// `KNOWN_SCHEDULER_PROVIDERS` joined with `", "`.
pub open spec fn known_providers_list() -> Seq<char> {
    KNOWN_SCHEDULER_PROVIDERS[0]@ + ", "@ + KNOWN_SCHEDULER_PROVIDERS[1]@ + ", "@
        + KNOWN_SCHEDULER_PROVIDERS[2]@ + ", "@ + KNOWN_SCHEDULER_PROVIDERS[3]@ + ", "@
        + KNOWN_SCHEDULER_PROVIDERS[4]@ + ", "@ + KNOWN_SCHEDULER_PROVIDERS[5]@ + ", "@
        + KNOWN_SCHEDULER_PROVIDERS[6]@
}

pub open spec fn unknown_scheduler_provider_message(provider: Seq<char>) -> Seq<char> {
    "Unknown scheduler provider '"@ + provider + "'. Supported providers: "@
        + known_providers_list()
}

fn known_providers_string() -> (s: String)
    ensures
        s@ == known_providers_list(),
{
    let mut s = to_owned_string(KNOWN_SCHEDULER_PROVIDERS[0]);
    let mut i: usize = 1;
    while i < 7
        invariant
            1 <= i <= 7,
            s@ == known_providers_prefix(i as int),
        decreases 7 - i,
    {
        s.append(", ");
        s.append(KNOWN_SCHEDULER_PROVIDERS[i]);
        i += 1;
    }
    proof {
        reveal_with_fuel(known_providers_prefix, 8);
    }
    s
}

spec fn known_providers_prefix(n: int) -> Seq<char>
    decreases n,
{
    if n <= 1 {
        KNOWN_SCHEDULER_PROVIDERS[0]@
    } else {
        known_providers_prefix(n - 1) + ", "@ + KNOWN_SCHEDULER_PROVIDERS[n - 1]@
    }
}

pub open spec fn scheduler_provider_check(provider: Seq<char>) -> Result<(), Seq<char>> {
    if is_known_scheduler_provider(provider) {
        Ok(())
    } else {
        Err(unknown_scheduler_provider_message(provider))
    }
}

fn unknown_scheduler_provider_error(provider: &str) -> (s: String)
    ensures
        s@ == unknown_scheduler_provider_message(provider@),
{
    let list = known_providers_string();
    join4("Unknown scheduler provider '", provider, "'. Supported providers: ", list.as_str())
}

/// The provider of a workspace credential to be removed must be one of
/// `KNOWN_SCHEDULER_PROVIDERS`; the error lists the known ones.
pub fn remove_scheduler_credential_impl(provider: &str) -> (r: Result<(), String>)
    ensures
        unit_result_view(r) == scheduler_provider_check(provider@),
{
    if !known_scheduler_provider(provider) {
        return Err(unknown_scheduler_provider_error(provider));
    }
    Ok(())
}

/// Longest accepted scheduler API key, in bytes.
pub const MAX_API_KEY_LEN: usize = 512;

pub open spec fn scheduler_key(provider: Seq<char>) -> Seq<char> {
    "postlane-scheduler-"@ + provider
}

pub open spec fn empty_api_key_message() -> Seq<char> {
    "api_key must not be empty"@
}

pub open spec fn long_api_key_message(len: nat) -> Seq<char> {
    "api_key must be 512 characters or fewer (got "@ + decimal_text(len) + ")"@
}

/// The checks on a workspace credential before it is stored; `Ok` when it may be.
pub open spec fn add_credential_check(provider: Seq<char>, api_key: Seq<char>, key_bytes: nat) -> Result<
    (),
    Seq<char>,
> {
    if !is_known_scheduler_provider(provider) {
        Err(unknown_scheduler_provider_message(provider))
    } else if api_key.len() == 0 {
        Err(empty_api_key_message())
    } else if key_bytes > MAX_API_KEY_LEN {
        Err(long_api_key_message(key_bytes))
    } else {
        Ok(())
    }
}

/// The keyring key of a workspace-wide credential: `postlane-scheduler-{provider}`.
pub fn scheduler_credential_key(provider: &str) -> (r: String)
    ensures
        r@ == scheduler_key(provider@),
{
    join2("postlane-scheduler-", provider)
}

/// Validates a workspace credential and stores it with `keyring_set_fn` under
/// `postlane-scheduler-{provider}`. Nothing is stored when a check fails; when
/// all pass, the store's own result is returned.
pub fn add_scheduler_credential_impl<F: FnMut(&str, &str) -> Result<(), String>>(
    provider: &str,
    api_key: &str,
    keyring_set_fn: &mut F,
) -> (r: Result<(), String>)
    requires
        forall|k: &str, v: &str| call_requires(*old(keyring_set_fn), (k, v)),
    ensures
        match add_credential_check(provider@, api_key@, api_key.len() as nat) {
            Err(e) => r is Err && r->Err_0@ == e && *final(keyring_set_fn) == *old(keyring_set_fn),
            Ok(()) => exists|k: &str|
                k@ == scheduler_key(provider@) && call_ensures(
                    *old(keyring_set_fn),
                    (k, api_key),
                    r,
                ),
        },
{
    if !known_scheduler_provider(provider) {
        return Err(unknown_scheduler_provider_error(provider));
    }
    if api_key.is_empty() {
        return Err(to_owned_string("api_key must not be empty"));
    }
    let n = api_key.len();
    if n > MAX_API_KEY_LEN {
        let shown = decimal_string(n as u128);
        return Err(join3("api_key must be 512 characters or fewer (got ", shown.as_str(), ")"));
    }
    let keyring_key = scheduler_credential_key(provider);
    let k = keyring_key.as_str();
    let r = (*keyring_set_fn)(k, api_key);
    r
}

/// Per-provider connection status: one row per known scheduler provider.
#[derive(Clone, Debug)]
pub struct SchedulerProviderStatus {
    pub provider: String,
    pub connected: bool,
}

/// A keyring lookup answered `res`; the provider counts as connected exactly
/// when a non-empty value is stored.
pub open spec fn connected_from(res: Result<Option<String>, String>) -> bool {
    match res {
        Ok(Some(v)) => v@.len() > 0,
        _ => false,
    }
}

pub open spec fn keyring_error_message(provider: Seq<char>, e: Seq<char>) -> Seq<char> {
    "Keyring error for provider '"@ + provider + "': "@ + e
}

/// A lookup of provider `i`'s key could have answered without an error.
pub open spec fn key_lookup_ok<F: Fn(&str) -> Result<Option<String>, String>>(keyring_fn: F, i: int) -> bool {
    exists|k: &str, res: Result<Option<String>, String>|
        k@ == scheduler_key(KNOWN_SCHEDULER_PROVIDERS[i]@) && #[trigger] call_ensures(keyring_fn, (k,), res)
            && !(res is Err)
}

/// Row `i` of the status list was produced by a lookup of provider `i`'s key.
pub open spec fn status_row_ok<F: Fn(&str) -> Result<Option<String>, String>>(
    keyring_fn: F,
    row: SchedulerProviderStatus,
    i: int,
) -> bool {
    &&& row.provider@ == KNOWN_SCHEDULER_PROVIDERS[i]@
    &&& exists|k: &str, res: Result<Option<String>, String>|
        k@ == scheduler_key(KNOWN_SCHEDULER_PROVIDERS[i]@) && call_ensures(keyring_fn, (k,), res)
            && !(res is Err) && row.connected == connected_from(res)
}

/// Looks up each known provider's key with `keyring_fn` and reports, in the
/// order of `KNOWN_SCHEDULER_PROVIDERS`, whether a non-empty credential is
/// stored. The first failed lookup ends the listing with its error.
pub fn list_scheduler_profiles_impl<F: Fn(&str) -> Result<Option<String>, String>>(
    keyring_fn: F,
) -> (r: Result<Vec<SchedulerProviderStatus>, String>)
    requires
        forall|k: &str| call_requires(keyring_fn, (k,)),
    ensures
        match r {
            Ok(rows) => rows@.len() == 7 && forall|i: int|
                0 <= i < 7 ==> status_row_ok(keyring_fn, #[trigger] rows@[i], i),
            Err(e) => exists|i: int, k: &str, e0: String|
                0 <= i < 7 && k@ == scheduler_key(KNOWN_SCHEDULER_PROVIDERS[i]@) && call_ensures(
                    keyring_fn,
                    (k,),
                    Err::<Option<String>, String>(e0),
                ) && e@ == keyring_error_message(KNOWN_SCHEDULER_PROVIDERS[i]@, e0@) && forall|j: int|
                    0 <= j < i ==> #[trigger] key_lookup_ok(keyring_fn, j),
        },
{
    let mut rows: Vec<SchedulerProviderStatus> = Vec::new();
    let mut i: usize = 0;
    while i < 7
        invariant
            0 <= i <= 7,
            rows@.len() == i,
            forall|k: &str| call_requires(keyring_fn, (k,)),
            forall|j: int| 0 <= j < i ==> status_row_ok(keyring_fn, #[trigger] rows@[j], j),
        decreases 7 - i,
    {
        let provider = KNOWN_SCHEDULER_PROVIDERS[i];
        let key = scheduler_credential_key(provider);
        let k = key.as_str();
        let res = keyring_fn(k);
        let connected = match &res {
            Ok(Some(v)) => !v.as_str().is_empty(),
            Ok(None) => false,
            Err(e) => {
                let msg = join4("Keyring error for provider '", provider, "': ", e.as_str());
                proof {
                    assert forall|j: int| 0 <= j < i implies #[trigger] key_lookup_ok(keyring_fn, j) by {
                        assert(status_row_ok(keyring_fn, rows@[j], j));
                    }
                }
                return Err(msg);
            },
        };
        let row = SchedulerProviderStatus { provider: to_owned_string(provider), connected };
        proof {
            assert(status_row_ok(keyring_fn, row, i as int));
        }
        rows.push(row);
        i += 1;
    }
    Ok(rows)
}

// ── saving a per-project credential ───────────────────────────────────────────
/// What saving a credential needs from its surroundings: writing a keyring
/// entry, whether Mastodon is connected for a project, and whether a keyring
/// key is present.
pub struct CredentialEnv<S, M, K> where
    S: Fn(&str, &str) -> Result<(), String>,
    M: Fn(&str) -> bool,
    K: Fn(&str) -> bool,
 {
    pub set_keyring: S,
    pub has_mastodon_active: M,
    pub has_keyring_key: K,
}

/// The outcome of saving a credential: the merged account display names, and
/// the non-fatal problems met while syncing repos (empty when none).
#[derive(Debug)]
pub struct CredentialSaveResult {
    pub account_names: Vec<(String, String)>,
    pub warnings: Vec<String>,
}

/// What the frontend gets after a save: the account names, and a warning
/// when some repos could not be synced.
#[derive(Debug)]
pub struct SaveCredentialResponse {
    pub account_names: Vec<(String, String)>,
    pub sync_warning: Option<String>,
}

pub open spec fn store_failed_message(e: Seq<char>) -> Seq<char> {
    "Failed to store credential: "@ + e
}

/// Stores `api_key` under the credential's keyring key
/// `{provider}/{repo_id}`; a failed write fails the save.
pub fn store_credential<S: Fn(&str, &str) -> Result<(), String>>(
    provider: &str,
    api_key: &str,
    repo_id: &str,
    set_keyring: &S,
) -> (r: Result<(), String>)
    requires
        forall|k: &str, v: &str| call_requires(*set_keyring, (k, v)),
    ensures
        exists|k: &str, res: Result<(), String>|
            k@ == credential_key(provider@, repo_id@) && call_ensures(*set_keyring, (k, api_key), res) && match res {
                Ok(()) => r is Ok,
                Err(e) => r is Err && r->Err_0@ == store_failed_message(e@),
            },
{
    let key = get_credential_keyring_key(provider, repo_id);
    let k = key.as_str();
    let res = set_keyring(k, api_key);
    match res {
        Ok(()) => Ok(()),
        Err(e) => Err(join2("Failed to store credential: ", e.as_str())),
    }
}

pub open spec fn account_sync_warning_text(provider: Seq<char>, e: Seq<char>) -> Seq<char> {
    "account sync for '"@ + provider + "' failed — scheduler may use stale account IDs: "@ + e
}

/// The warning kept when syncing account IDs into repo configs fails.
pub fn account_sync_warning(provider: &str, e: &str) -> (r: String)
    ensures
        r@ == account_sync_warning_text(provider@, e@),
{
    join4("account sync for '", provider, "' failed — scheduler may use stale account IDs: ", e)
}

pub open spec fn platform_sync_warning_text(path: Seq<char>, e: Seq<char>) -> Seq<char> {
    "platform sync for '"@ + path + "' failed — queue badges may be stale: "@ + e
}

/// The warning kept when updating a repo's connected platforms fails.
pub fn platform_sync_warning(path: &str, e: &str) -> (r: String)
    ensures
        r@ == platform_sync_warning_text(path@, e@),
{
    join4("platform sync for '", path, "' failed — queue badges may be stale: ", e)
}

pub open spec fn username_rejected_text(username: Seq<char>, e: Seq<char>) -> Seq<char> {
    "Username '"@ + username + "' not recognised by Upload Post: "@ + e
}

/// The error when Upload-Post does not know the username given with its key.
pub fn username_rejected(username: &str, e: &str) -> (r: String)
    ensures
        r@ == username_rejected_text(username@, e@),
{
    join4("Username '", username, "' not recognised by Upload Post: ", e)
}

pub open spec fn partial_sync_message() -> Seq<char> {
    "Credential saved, but some repos could not be synced. Check logs."@
}

/// The warning shown after a save: none when every repo synced.
pub fn sync_warning(warnings: &[String]) -> (r: Option<String>)
    ensures
        warnings@.len() == 0 ==> r is None,
        warnings@.len() > 0 ==> r is Some && r->0@ == partial_sync_message(),
{
    if warnings.len() == 0 {
        None
    } else {
        Some(to_owned_string("Credential saved, but some repos could not be synced. Check logs."))
    }
}

/// The name map `pairs` stands for: later pairs win over earlier ones with
/// the same key.
pub open spec fn names_map(pairs: Seq<(String, String)>) -> Map<Seq<char>, Seq<char>>
    decreases pairs.len(),
{
    if pairs.len() == 0 {
        Map::empty()
    } else {
        names_map(pairs.drop_last()).insert(pairs.last().0@, pairs.last().1@)
    }
}

/// No key occurs twice.
pub open spec fn distinct_names(pairs: Seq<(String, String)>) -> bool {
    forall|i: int, j: int|
        0 <= i < pairs.len() && 0 <= j < pairs.len() && i != j ==> #[trigger] pairs[i].0@ != #[trigger] pairs[j].0@
}

fn put_name(names: &mut Vec<(String, String)>, key: &str, value: &str)
    requires
        distinct_names(old(names)@),
    ensures
        distinct_names(final(names)@),
        names_map(final(names)@) == names_map(old(names)@).insert(key@, value@),
{
    let ghost before = names@;
    let mut i: usize = 0;
    while i < names.len()
        invariant
            0 <= i <= names@.len(),
            names@ == before,
            before == old(names)@,
            distinct_names(before),
            forall|j: int| 0 <= j < i ==> #[trigger] names@[j].0@ != key@,
        decreases names@.len() - i,
    {
        if str_eq(names[i].0.as_str(), key) {
            let entry = (to_owned_string(key), to_owned_string(value));
            let ghost e = entry;
            names.set(i, entry);
            proof {
                lemma_names_map_update(before, i as int, e);
                assert(names@ =~= before.update(i as int, e));
                assert(e.0@ == key@ && e.1@ == value@);
                assert(distinct_names(names@)) by {
                    assert forall|a: int, b: int|
                        0 <= a < names@.len() && 0 <= b < names@.len() && a != b implies #[trigger] names@[a].0@
                        != #[trigger] names@[b].0@ by {
                        assert(before[a].0@ != before[b].0@);
                    }
                }
            }
            return;
        }
        i += 1;
    }
    names.push((to_owned_string(key), to_owned_string(value)));
    proof {
        assert(names@.drop_last() =~= before);
        assert(distinct_names(names@)) by {
            assert forall|a: int, b: int|
                0 <= a < names@.len() && 0 <= b < names@.len() && a != b implies #[trigger] names@[a].0@
                != #[trigger] names@[b].0@ by {
                if a < before.len() && b < before.len() {
                    assert(before[a].0@ != before[b].0@);
                }
            }
        }
    }
}

proof fn lemma_names_map_update(pairs: Seq<(String, String)>, i: int, e: (String, String))
    requires
        distinct_names(pairs),
        0 <= i < pairs.len(),
        pairs[i].0@ == e.0@,
    ensures
        names_map(pairs.update(i, e)) == names_map(pairs).insert(e.0@, e.1@),
    decreases pairs.len(),
{
    let upd = pairs.update(i, e);
    let short = pairs.drop_last();
    assert(upd.drop_last() =~= if i == pairs.len() - 1 { short } else { short.update(i, e) });
    if i == pairs.len() - 1 {
        assert(names_map(upd) =~= names_map(pairs).insert(e.0@, e.1@));
    } else {
        assert(distinct_names(short)) by {
            assert forall|a: int, b: int|
                0 <= a < short.len() && 0 <= b < short.len() && a != b implies #[trigger] short[a].0@
                != #[trigger] short[b].0@ by {
                assert(pairs[a].0@ != pairs[b].0@);
            }
        }
        lemma_names_map_update(short, i, e);
        assert(upd.last() == pairs.last());
        assert(pairs[pairs.len() - 1].0@ != pairs[i].0@);
        let lk = pairs.last().0@;
        let lv = pairs.last().1@;
        assert(names_map(upd) == names_map(short).insert(e.0@, e.1@).insert(lk, lv));
        assert(names_map(pairs) == names_map(short).insert(lk, lv));
        assert(names_map(upd) =~= names_map(pairs).insert(e.0@, e.1@));
    }
}

/// Merges `more` into `names`, as `HashMap::extend` does: a name already
/// present takes the new value.
pub fn merge_account_names(names: &mut Vec<(String, String)>, more: &[(String, String)])
    requires
        distinct_names(old(names)@),
    ensures
        distinct_names(final(names)@),
        names_map(final(names)@) == names_map(old(names)@).union_prefer_right(names_map(more@)),
{
    let mut i: usize = 0;
    proof {
        assert(more@.take(0) =~= Seq::<(String, String)>::empty());
        assert(names_map(old(names)@).union_prefer_right(Map::empty()) =~= names_map(old(names)@));
    }
    while i < more.len()
        invariant
            0 <= i <= more@.len(),
            distinct_names(names@),
            names_map(names@) == names_map(old(names)@).union_prefer_right(names_map(more@.take(i as int))),
        decreases more@.len() - i,
    {
        proof {
            assert(more@.take(i + 1).drop_last() =~= more@.take(i as int));
        }
        put_name(names, more[i].0.as_str(), more[i].1.as_str());
        proof {
            assert(names_map(names@) =~= names_map(old(names)@).union_prefer_right(names_map(more@.take(i + 1))));
        }
        i += 1;
    }
    proof {
        assert(more@.take(more@.len() as int) =~= more@);
    }
}


/// How the connected accounts of a new credential reach the repo configs:
/// Upload-Post with a username checks that user and writes its platforms;
/// Upload-Post without one writes nothing; every other provider lists its
/// accounts through its API.
#[derive(Debug, PartialEq, Eq)]
pub enum AccountSyncPlan {
    CheckUsername(String),
    Skip,
    SyncAccounts,
}

/// Decides how accounts are synced after saving a credential of `provider`.
pub fn account_sync_plan(provider: &str, username: Option<&str>) -> (r: AccountSyncPlan)
    ensures
        provider@ == "upload_post"@ ==> match username {
            Some(u) => r matches AccountSyncPlan::CheckUsername(n) && n@ == u@,
            None => r is Skip,
        },
        provider@ != "upload_post"@ ==> r is SyncAccounts,
{
    if str_eq(provider, "upload_post") {
        match username {
            Some(u) => AccountSyncPlan::CheckUsername(to_owned_string(u)),
            None => AccountSyncPlan::Skip,
        }
    } else {
        AccountSyncPlan::SyncAccounts
    }
}

/// The platforms Upload-Post reports for `username`; a rejected username
/// fails the save.
pub fn checked_username(username: &str, outcome: Result<Vec<String>, String>) -> (r: Result<Vec<String>, String>)
    ensures
        match outcome {
            Ok(platforms) => r == Ok::<Vec<String>, String>(platforms),
            Err(e) => r is Err && r->Err_0@ == username_rejected_text(username@, e@),
        },
{
    match outcome {
        Ok(platforms) => Ok(platforms),
        Err(e) => Err(username_rejected(username, e.as_str())),
    }
}

impl CredentialSaveResult {
    /// Nothing merged and nothing to warn about yet.
    pub fn new() -> (r: CredentialSaveResult)
        ensures
            r.account_names@.len() == 0,
            r.warnings@.len() == 0,
    {
        CredentialSaveResult { account_names: Vec::new(), warnings: Vec::new() }
    }

    /// Records how listing the provider's accounts into the repo configs
    /// went: a failure is kept as a warning, not an error.
    pub fn note_account_sync(&mut self, provider: &str, outcome: Result<(), String>)
        ensures
            final(self).account_names@ == old(self).account_names@,
            match outcome {
                Ok(()) => final(self).warnings@ == old(self).warnings@,
                Err(e) => final(self).warnings@.len() == old(self).warnings@.len() + 1 && final(self).warnings@.drop_last()
                    == old(self).warnings@ && final(self).warnings@.last()@ == account_sync_warning_text(provider@, e@),
            },
    {
        match outcome {
            Ok(()) => {},
            Err(e) => {
                self.warnings.push(account_sync_warning(provider, e.as_str()));
                proof {
                    assert(self.warnings@.drop_last() =~= old(self).warnings@);
                }
            },
        }
    }

    /// Keeps the warnings met while writing Upload-Post's accounts into one
    /// repo config.
    pub fn note_path_warnings(&mut self, more: Vec<String>)
        ensures
            final(self).account_names@ == old(self).account_names@,
            final(self).warnings@ == old(self).warnings@ + more@,
    {
        let mut more = more;
        self.warnings.append(&mut more);
    }

    /// Records how syncing a repo's connected platforms went: a failure is
    /// kept as a warning naming the repo path.
    pub fn note_platform_sync(&mut self, path: &str, outcome: Result<(), String>)
        ensures
            final(self).account_names@ == old(self).account_names@,
            match outcome {
                Ok(()) => final(self).warnings@ == old(self).warnings@,
                Err(e) => final(self).warnings@.len() == old(self).warnings@.len() + 1 && final(self).warnings@.drop_last()
                    == old(self).warnings@ && final(self).warnings@.last()@ == platform_sync_warning_text(path@, e@),
            },
    {
        match outcome {
            Ok(()) => {},
            Err(e) => {
                self.warnings.push(platform_sync_warning(path, e.as_str()));
                proof {
                    assert(self.warnings@.drop_last() =~= old(self).warnings@);
                }
            },
        }
    }

    /// Merges the account names read from one repo config; a config that
    /// could not be read adds nothing.
    pub fn note_account_names(&mut self, names: Result<Vec<(String, String)>, String>)
        requires
            distinct_names(old(self).account_names@),
        ensures
            distinct_names(final(self).account_names@),
            final(self).warnings@ == old(self).warnings@,
            match names {
                Ok(v) => names_map(final(self).account_names@) == names_map(old(self).account_names@).union_prefer_right(
                    names_map(v@),
                ),
                Err(_) => final(self).account_names@ == old(self).account_names@,
            },
    {
        match names {
            Ok(v) => merge_account_names(&mut self.account_names, v.as_slice()),
            Err(_) => {},
        }
    }

    /// The reply to the frontend: the names, and a warning when anything
    /// could not be synced.
    pub fn into_response(self) -> (r: SaveCredentialResponse)
        ensures
            r.account_names@ == self.account_names@,
            self.warnings@.len() == 0 ==> r.sync_warning is None,
            self.warnings@.len() > 0 ==> r.sync_warning is Some && r.sync_warning->0@ == partial_sync_message(),
    {
        let sync = sync_warning(self.warnings.as_slice());
        SaveCredentialResponse { account_names: self.account_names, sync_warning: sync }
    }
}

} // verus!

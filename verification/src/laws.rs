//! Properties that hold across the library's operations.
use vstd::prelude::*;
use crate::credentials::{credential_key, is_valid_provider, names_map, VALID_PROVIDERS};
use crate::connection::{app_rows, cli_state_spec, local_rows, matched_path, CliConfig, GitHubAppRepo, LocalRepoFacts, RepoConnectionStatus};
use crate::discovery::in_registered;
use crate::json::{str_of, JsonValue};
use crate::routing::{passed_over, fallback_order_spec, settings_read, strings_view, usable_entries, SchedulerSettings};
use crate::scheduler_config::{fallback_order_written, first_unknown};
use crate::scheduling::{lemma_pow2_62, lemma_pow2_mono, pow2, retry_step_spec, retryable, ProviderError, RetryStep};
use crate::published::{lemma_arrangement_chain, lemma_chains_equal, page_of, posts_sorted, stable_arrangement, Post, PostOrder};
use crate::repos::{lemma_first_index_of, project_workspace_paths, WorkspaceEntry, first_index_of, is_first_index, migration_spec, ReposConfig, Repo, REPOS_CONFIG_VERSION};
use crate::scheduling::{kind_name, kind_of_name, ProviderKind};
use crate::usage::{at_limit, known_limit, near_limit, usage_count, UsageRecord, UsageStore};
use crate::text::{contains_text, parse_u64_spec};
use crate::validation::{hostname_check, project_id_check};
use crate::ip_ranges::{private_ip, IpAddress};
use crate::provider_policy::{post_url_spec, publer_wait_spec, zernio_platform_spec};
use crate::providers::common::{engagement_spec, preview_text, rfc3339_utc, utc_of};
use crate::json::{str_at, u64_at};
use crate::sync::{error_lines, repo_entries};
use crate::scheduling::retry_after_secs;

verus! {

/// A provider that has used all of its monthly limit has also used 80% of it.
pub proof fn law_at_limit_implies_near_limit(rs: Seq<UsageRecord>, p: Seq<char>, month: u32, year: u32)
    ensures
        at_limit(rs, p, month, year) ==> near_limit(rs, p, month, year),
{
}

/// A provider without a known limit is never near or at it, however many
/// posts it has recorded.
pub proof fn law_unlimited_providers_never_limited(rs: Seq<UsageRecord>, p: Seq<char>, month: u32, year: u32)
    requires
        known_limit(p) is None,
    ensures
        !near_limit(rs, p, month, year),
        !at_limit(rs, p, month, year),
{
}

/// Credentials of one provider for two different projects are kept under
/// different keyring keys.
pub proof fn law_credential_keys_scoped_per_project(provider: Seq<char>, a: Seq<char>, b: Seq<char>)
    requires
        a != b,
    ensures
        credential_key(provider, a) != credential_key(provider, b),
{
    reveal_strlit("/");
    let ka = credential_key(provider, a);
    let kb = credential_key(provider, b);
    let n = provider.len() + 1;
    assert(ka.skip(n as int) =~= a);
    assert(kb.skip(n as int) =~= b);
}

/// Every provider's name leads back to that provider.
pub proof fn law_provider_name_round_trip(k: ProviderKind)
    ensures
        kind_of_name(kind_name(k)) == Some(k),
{
    reveal_strlit("zernio");
    reveal_strlit("buffer");
    reveal_strlit("ayrshare");
    reveal_strlit("publer");
    reveal_strlit("outstand");
    reveal_strlit("substack_notes");
    reveal_strlit("upload_post");
    reveal_strlit("webhook");
    assert("zernio"@[0] == 'z');
    assert("buffer"@[0] == 'b');
    assert("ayrshare"@[0] == 'a');
    assert("publer"@[0] == 'p');
    assert("outstand"@[0] == 'o');
    assert("substack_notes"@[0] == 's');
    assert("upload_post"@[0] == 'u');
    assert("webhook"@[0] == 'w');
}

/// Migration runs once: its output is already current, so migrating it again
/// rewrites nothing.
pub proof fn law_migration_idempotent(config: ReposConfig, migrated: ReposConfig)
    requires
        migration_spec(config) is Some,
        migrated.version == (migration_spec(config)->0).0,
    ensures
        migration_spec(migrated) is None,
{
}

/// Migration keeps every repo, in order.
pub proof fn law_migration_keeps_repos(config: ReposConfig)
    requires
        migration_spec(config) is Some,
    ensures
        (migration_spec(config)->0).2 == config.repos@,
        (migration_spec(config)->0).0 == REPOS_CONFIG_VERSION,
{
}

/// When repo IDs are unique, removing a repo by ID leaves no repo with it.
pub proof fn law_removed_repo_is_gone(repos: Seq<Repo>, id: Seq<char>)
    requires
        forall|i: int, j: int| 0 <= i < j < repos.len() ==> #[trigger] repos[i].id@ != #[trigger] repos[j].id@,
        first_index_of(repos, id) is Some,
    ensures
        forall|k: int| 0 <= k < repos.len() - 1 ==> #[trigger] repos.remove(first_index_of(repos, id)->0)[k].id@ != id,
{
    let i = first_index_of(repos, id)->0;
    assert(is_first_index(repos, id, i));
    assert forall|k: int| 0 <= k < repos.len() - 1 implies #[trigger] repos.remove(i)[k].id@ != id by {
        if k < i {
        } else {
            assert(repos.remove(i)[k] == repos[k + 1]);
            assert(repos[i].id@ != repos[k + 1].id@);
        }
    }
}

/// Consecutive pages follow each other: a page of `limit` posts at `offset`
/// followed by the next page is the double-size page at `offset`, so pages
/// never overlap and none is skipped.
pub proof fn law_pages_are_consecutive(posts: Seq<Post>, offset: nat, limit: nat)
    ensures
        page_of(posts, offset, limit) + page_of(posts, offset + limit, limit) =~= page_of(
            posts,
            offset,
            2 * limit,
        ),
{
}


/// An error that cannot be retried is returned at once, after any number of
/// failures.
pub proof fn law_non_retryable_errors_are_not_retried(err: ProviderError, failures: nat, max_retries: nat)
    requires
        !retryable(err),
    ensures
        retry_step_spec(err, failures, max_retries) == RetryStep::GiveUp,
{
}

/// No call is retried more than `max_retries` times.
pub proof fn law_retries_are_bounded(err: ProviderError, failures: nat, max_retries: nat)
    requires
        failures >= max_retries,
    ensures
        retry_step_spec(err, failures, max_retries) == RetryStep::GiveUp,
{
}

/// Backoff starts at one second and doubles with each further failure
/// (1 s, 2 s, 4 s, ...), for retryable errors other than rate limits.
pub proof fn law_backoff_doubles(err: ProviderError, failures: nat, max_retries: nat)
    requires
        retryable(err),
        !(err is RateLimit),
        failures + 2 <= max_retries,
        failures < 63,
    ensures
        retry_step_spec(err, 0, max_retries) == RetryStep::WaitSecs(1),
        retry_step_spec(err, failures, max_retries) matches RetryStep::WaitSecs(a) && retry_step_spec(
            err,
            failures + 1,
            max_retries,
        ) matches RetryStep::WaitSecs(b) && b == 2 * a,
{
    lemma_pow2_mono(failures + 1, 63);
    lemma_pow2_mono(failures, 63);
    lemma_pow2_62();
    assert(pow2(63) == 2 * pow2(62));
    assert(pow2(failures + 1) == 2 * pow2(failures));
    assert(pow2(0) == 1);
}

/// A clone registered during a discovery pass counts as registered for the
/// rest of the pass, so it is never registered twice.
pub proof fn law_registered_clone_not_registered_again(before: Seq<String>, after: Seq<String>, path: Seq<char>)
    requires
        crate::discovery::strings_view(after) == crate::discovery::strings_view(before).push(path),
    ensures
        in_registered(after, path),
{
    assert(crate::discovery::strings_view(after).len() == after.len());
    assert(crate::discovery::strings_view(before).len() == before.len());
    assert(after.len() == before.len() + 1);
    assert(crate::discovery::strings_view(after)[before.len() as int] == path);
    assert(after[before.len() as int]@ == path);
}

proof fn lemma_valid_provider_nonempty(p: Seq<char>)
    requires
        is_valid_provider(p),
    ensures
        p.len() > 0,
{
    reveal_strlit("zernio");
    reveal_strlit("upload_post");
    reveal_strlit("buffer");
    reveal_strlit("ayrshare");
    reveal_strlit("publer");
    reveal_strlit("outstand");
    reveal_strlit("substack_notes");
    reveal_strlit("webhook");
    let i = choose|i: int| 0 <= i < 8 && #[trigger] VALID_PROVIDERS[i]@ == p;
    assert(VALID_PROVIDERS[i]@.len() > 0);
}

proof fn lemma_usable_entries_all(v: Seq<Option<String>>, order: Seq<String>)
    requires
        v.len() == order.len(),
        forall|i: int| 0 <= i < v.len() ==> crate::json::opt_string_view(#[trigger] v[i]) == Some(order[i]@),
        forall|i: int| 0 <= i < order.len() ==> (#[trigger] order[i])@.len() > 0,
    ensures
        usable_entries(v) == strings_view(order),
    decreases v.len(),
{
    if v.len() > 0 {
        let n = v.len() - 1;
        assert(crate::json::opt_string_view(v[n]) == Some(order[n]@));
        assert(order[n]@.len() > 0);
        lemma_usable_entries_all(v.drop_last(), order.drop_last());
        assert(strings_view(order) =~= strings_view(order.drop_last()).push(order[n]@));
    } else {
        assert(strings_view(order) =~= Seq::<Seq<char>>::empty());
    }
}

/// A fallback order that passed `check_fallback_order`, once written into a
/// repo config, is read back from it unchanged.
pub proof fn law_fallback_order_read_back(
    config: JsonValue,
    order: Seq<String>,
    written: JsonValue,
    settings: SchedulerSettings,
)
    requires
        order.len() > 0,
        first_unknown(order) is None,
        fallback_order_written(config, order, written),
        settings_read(written, settings),
    ensures
        fallback_order_spec(settings) == strings_view(order),
{
    assert forall|i: int| 0 <= i < order.len() implies (#[trigger] order[i])@.len() > 0 by {
        if !is_valid_provider(order[i]@) {
            assert(exists|k: int| 0 <= k < order.len() && !is_valid_provider(#[trigger] order[k]@));
        }
        lemma_valid_provider_nonempty(order[i]@);
    }
    reveal_strlit("scheduler");
    reveal_strlit("fallback_order");
    let sched = crate::json::field(written, "scheduler"@);
    let items = crate::json::field(sched, "fallback_order"@)->Array_0@;
    let v = settings.fallback_order->Some_0@;
    assert forall|i: int| 0 <= i < v.len() implies crate::json::opt_string_view(#[trigger] v[i]) == Some(order[i]@) by {
        assert(str_of(items[i]) == Some(order[i]@));
    }
    lemma_usable_entries_all(v, order);
}

/// Merging the same account names a second time changes nothing.
pub proof fn law_merge_account_names_idempotent(
    names: Map<Seq<char>, Seq<char>>,
    more: Map<Seq<char>, Seq<char>>,
)
    ensures
        names.union_prefer_right(more).union_prefer_right(more) == names.union_prefer_right(more),
{
    assert(names.union_prefer_right(more).union_prefer_right(more) =~= names.union_prefer_right(more));
}


/// A registered repo that shares a GitHub App repo's row gets no row of its
/// own: no local-only row shows a path already shown on an App row, so a
/// repo known to both sources appears once.
pub proof fn law_matched_repo_has_no_local_row(
    apps: Seq<GitHubAppRepo>,
    repos: Seq<Repo>,
    facts: Seq<LocalRepoFacts>,
    project_id: Seq<char>,
    n: int,
    p: Seq<char>,
)
    requires
        matched_path(apps, repos, facts, project_id, p),
        0 <= n <= repos.len(),
    ensures
        forall|j: int|
            0 <= j < local_rows(apps, repos, facts, project_id, n).len() ==> match #[trigger] local_rows(
                apps,
                repos,
                facts,
                project_id,
                n,
            )[j].local_path {
                Some(q) => q@ != p,
                None => true,
            },
    decreases n,
{
    if n > 0 {
        law_matched_repo_has_no_local_row(apps, repos, facts, project_id, n - 1, p);
    }
}


/// Display order is fully determined: two sorted arrangements of the same
/// posts that both keep ties in their original order are equal, so
/// `sort_posts` has exactly one correct result.
pub proof fn law_sorted_stable_order_is_unique(
    order: PostOrder,
    orig: Seq<Post>,
    s1: Seq<Post>,
    perm1: Seq<int>,
    s2: Seq<Post>,
    perm2: Seq<int>,
)
    requires
        posts_sorted(order, s1),
        stable_arrangement(order, orig, s1, perm1),
        posts_sorted(order, s2),
        stable_arrangement(order, orig, s2, perm2),
    ensures
        s1 == s2,
{
    lemma_arrangement_chain(order, orig, s1, perm1);
    lemma_arrangement_chain(order, orig, s2, perm2);
    assert forall|x: int| perm1.contains(x) <==> perm2.contains(x) by {
        if perm1.contains(x) {
            let w = choose|w: int| 0 <= w < perm1.len() && perm1[w] == x;
            assert(0 <= perm1[w] < orig.len());
            assert(perm2.contains(x));
        }
        if perm2.contains(x) {
            let w = choose|w: int| 0 <= w < perm2.len() && perm2[w] == x;
            assert(0 <= perm2[w] < orig.len());
            assert(perm1.contains(x));
        }
    }
    lemma_chains_equal(order, orig, perm1, perm2);
    assert(s1 =~= s2) by {
        assert forall|i: int| 0 <= i < s1.len() implies s1[i] == s2[i] by {
            assert(s1[i] == orig[perm1[i]]);
            assert(s2[i] == orig[perm2[i]]);
        }
    }
}


proof fn lemma_valid_provider_has_no_slash(p: Seq<char>)
    requires
        is_valid_provider(p),
    ensures
        forall|i: int| 0 <= i < p.len() ==> p[i] != '/',
{
    reveal_strlit("zernio");
    reveal_strlit("upload_post");
    reveal_strlit("buffer");
    reveal_strlit("ayrshare");
    reveal_strlit("publer");
    reveal_strlit("outstand");
    reveal_strlit("substack_notes");
    reveal_strlit("webhook");
    let k = choose|k: int| 0 <= k < 8 && #[trigger] VALID_PROVIDERS[k]@ == p;
    assert(VALID_PROVIDERS[k]@ == p);
}

/// Every stored credential has a keyring key of its own: two credentials of
/// valid providers share a key only when they belong to the same provider
/// and the same project.
pub proof fn law_credential_keys_distinct(p1: Seq<char>, a: Seq<char>, p2: Seq<char>, b: Seq<char>)
    requires
        is_valid_provider(p1),
        is_valid_provider(p2),
        p1 != p2 || a != b,
    ensures
        credential_key(p1, a) != credential_key(p2, b),
{
    reveal_strlit("/");
    lemma_valid_provider_has_no_slash(p1);
    lemma_valid_provider_has_no_slash(p2);
    let k1 = credential_key(p1, a);
    let k2 = credential_key(p2, b);
    if k1 == k2 {
        if p1.len() < p2.len() {
            assert(k1[p1.len() as int] == '/');
            assert(k2[p1.len() as int] == p2[p1.len() as int]);
        } else if p2.len() < p1.len() {
            assert(k2[p2.len() as int] == '/');
            assert(k1[p2.len() as int] == p1[p2.len() as int]);
        } else {
            assert(p1 =~= k1.take(p1.len() as int));
            assert(p2 =~= k2.take(p2.len() as int));
            assert(a =~= k1.skip(p1.len() as int + 1));
            assert(b =~= k2.skip(p2.len() as int + 1));
        }
    }
}

/// The free tiers: Publer allows 10 posts a month, Outstand 1000 and
/// webhooks 100; no other provider has a known limit.
pub proof fn law_known_limits(p: Seq<char>)
    ensures
        known_limit("publer"@) == Some(10u32),
        known_limit("outstand"@) == Some(1000u32),
        known_limit("webhook"@) == Some(100u32),
        p != "publer"@ && p != "outstand"@ && p != "webhook"@ ==> known_limit(p) is None,
{
    reveal_strlit("publer");
    reveal_strlit("outstand");
    reveal_strlit("webhook");
    assert("outstand"@ != "publer"@) by {
        assert("outstand"@[0] != "publer"@[0]);
    }
    assert("webhook"@ != "publer"@) by {
        assert("webhook"@[0] != "publer"@[0]);
    }
    assert("webhook"@ != "outstand"@) by {
        assert("webhook"@[0] != "outstand"@[0]);
    }
}

/// A provider is at its limit exactly when the month's count has reached
/// it, and near it exactly when five times the count reaches four times the
/// limit (80%); one post below 80% is not near, and a provider at its limit
/// is near it.
pub proof fn law_limits_in_posts(rs: Seq<UsageRecord>, p: Seq<char>, month: u32, year: u32)
    ensures
        known_limit(p) matches Some(l) ==> (at_limit(rs, p, month, year) <==> usage_count(rs, p, month, year) >= l),
        known_limit(p) matches Some(l) ==> (near_limit(rs, p, month, year) <==> 5 * usage_count(rs, p, month, year)
            >= 4 * l),
{
}

/// Which failures are retried: network errors, rate limits and server
/// errors (5xx); client errors (below 500) and unknown, refused-credential,
/// unsupported and invalid-instance errors are not, so a post that may have
/// gone through is never sent twice.
pub proof fn law_retryable_errors(e: ProviderError)
    ensures
        e is NetworkError ==> retryable(e),
        e is RateLimit ==> retryable(e),
        e matches ProviderError::HttpError { status, .. } ==> (retryable(e) <==> status >= 500),
        (e is Unknown || e is AuthError || e is NotSupported || e is InvalidInstance) ==> !retryable(e),
{
}

/// How long a `Retry-After` header makes the client wait: the number it
/// holds, at most 3600 seconds; 60 seconds when it is missing or not a
/// number.
pub proof fn law_retry_after_wait(header: Option<Seq<char>>)
    ensures
        header is None ==> retry_after_secs(header) == 60,
        header is Some && parse_u64_spec(header->0) is None ==> retry_after_secs(header) == 60,
        header is Some && parse_u64_spec(header->0) is Some && parse_u64_spec(header->0)->0 <= 3600 ==> retry_after_secs(
            header,
        ) == parse_u64_spec(header->0)->0,
        header is Some && parse_u64_spec(header->0) is Some && parse_u64_spec(header->0)->0 > 3600 ==> retry_after_secs(
            header,
        ) == 3600,
{
    assert(crate::scheduling::MAX_RETRY_AFTER_SECS == 3600);
    assert(crate::scheduling::DEFAULT_RETRY_AFTER_SECS == 60);
}

/// After a Publer 429 the client waits until the reset time the reply
/// names, at least one second and at most an hour; without a reset time it
/// waits a minute. A reset further ahead never gives a shorter wait.
pub proof fn law_publer_wait(reset: u64, later: u64, now_secs: u64)
    requires
        reset <= later,
    ensures
        publer_wait_spec(None, now_secs) == 60,
        1 <= publer_wait_spec(Some(reset), now_secs) <= 3600,
        reset > now_secs && reset - now_secs <= 3600 ==> publer_wait_spec(Some(reset), now_secs) == reset - now_secs,
        reset <= now_secs ==> publer_wait_spec(Some(reset), now_secs) == 1,
        reset > now_secs && reset - now_secs > 3600 ==> publer_wait_spec(Some(reset), now_secs) == 3600,
        publer_wait_spec(Some(reset), now_secs) <= publer_wait_spec(Some(later), now_secs),
{
}

/// A post's public URL, when a provider knows one, ends with the post's ID;
/// X posts (named `x` or `twitter`) get `https://x.com/i/web/status/{id}`
/// from Zernio, Ayrshare and Buffer; Publer, Outstand, Upload-Post and
/// webhooks know no URLs, and Substack needs the account's handle.
pub proof fn law_post_urls(kind: ProviderKind, platform: Seq<char>, id: Seq<char>, user: Option<Seq<char>>)
    ensures
        post_url_spec(kind, platform, id, user) matches Some(url) ==> url.len() >= id.len() && url.subrange(
            url.len() - id.len(),
            url.len() as int,
        ) == id,
        (kind is Zernio || kind is Ayrshare || kind is Buffer) && (platform == "x"@ || platform == "twitter"@)
            ==> post_url_spec(kind, platform, id, user) == Some("https://x.com/i/web/status/"@ + id),
        (kind is Publer || kind is Outstand || kind is UploadPost || kind is Webhook) ==> post_url_spec(
            kind,
            platform,
            id,
            user,
        ) is None,
        kind is SubstackNotes ==> (post_url_spec(kind, platform, id, user) is Some <==> user is Some),
{
    let r = post_url_spec(kind, platform, id, user);
    if r is Some {
        let url = r->0;
        assert(url.subrange(url.len() - id.len(), url.len() as int) =~= id);
    }
}

/// Zernio calls X `twitter`; every other platform keeps its name.
pub proof fn law_zernio_platform_names(platform: Seq<char>)
    ensures
        zernio_platform_spec("x"@) == "twitter"@,
        platform != "x"@ ==> zernio_platform_spec(platform) == platform,
{
}

/// Engagement counters are the whole numbers stored under the provider's
/// field names, 0 where a field is missing or not such a number;
/// impressions are read only where the provider reports them.
pub proof fn law_engagement_counters(
    obj: JsonValue,
    likes: Seq<char>,
    reposts: Seq<char>,
    replies: Seq<char>,
    impressions: Option<Seq<char>>,
)
    ensures
        engagement_spec(obj, likes, reposts, replies, impressions).0 == (if u64_at(obj, likes) is Some {
            u64_at(obj, likes)->0
        } else {
            0
        }),
        engagement_spec(obj, likes, reposts, replies, impressions).1 == (if u64_at(obj, reposts) is Some {
            u64_at(obj, reposts)->0
        } else {
            0
        }),
        engagement_spec(obj, likes, reposts, replies, impressions).2 == (if u64_at(obj, replies) is Some {
            u64_at(obj, replies)->0
        } else {
            0
        }),
        impressions is None ==> engagement_spec(obj, likes, reposts, replies, impressions).3 is None,
        impressions matches Some(f) ==> engagement_spec(obj, likes, reposts, replies, impressions).3 == u64_at(obj, f),
{
}

/// A project ID is accepted exactly when it is not empty, is at most 64
/// bytes long, and every character is an ASCII letter or digit, `-` or `_`.
pub proof fn law_project_id_accepted(id: Seq<char>, byte_len: nat)
    ensures
        project_id_check(id, byte_len) is Ok <==> (id.len() > 0 && byte_len <= 64 && forall|i: int|
            0 <= i < id.len() ==> ('a' <= #[trigger] id[i] <= 'z' || 'A' <= id[i] <= 'Z' || '0' <= id[i] <= '9'
                || id[i] == '-' || id[i] == '_')),
{
}

/// An instance hostname is accepted exactly when it is not empty, is not a
/// URL (holds no `://`), and holds none of `/`, `@`, `?`, `#` or a line
/// break.
pub proof fn law_hostname_accepted(s: Seq<char>)
    ensures
        hostname_check(s) is Ok <==> (s.len() > 0 && !contains_text(s, "://"@) && !s.contains('/') && !s.contains('@')
            && !s.contains('?') && !s.contains('#') && !s.contains('\n') && !s.contains('\r')),
{
    reveal_with_fuel(crate::validation::first_forbidden_from, 7);
}

/// The addresses a user-supplied URL must not reach: IPv4 loopback
/// (127/8), private (10/8, 172.16/12, 192.168/16), link-local (169.254/16),
/// broadcast and unspecified; IPv6 loopback, unspecified, unique-local
/// (fc00::/7) and link-local (fe80::/10). Public addresses such as 8.8.8.8
/// pass.
pub proof fn law_private_addresses(a: u8, b: u8, c: u8, d: u8)
    ensures
        a == 127 ==> private_ip(IpAddress::V4([a, b, c, d])),
        a == 10 ==> private_ip(IpAddress::V4([a, b, c, d])),
        a == 172 && 16 <= b <= 31 ==> private_ip(IpAddress::V4([a, b, c, d])),
        a == 192 && b == 168 ==> private_ip(IpAddress::V4([a, b, c, d])),
        a == 169 && b == 254 ==> private_ip(IpAddress::V4([a, b, c, d])),
        private_ip(IpAddress::V4([255, 255, 255, 255])),
        private_ip(IpAddress::V4([0, 0, 0, 0])),
        a != 127 && a != 10 && a != 172 && a != 192 && a != 169 && a != 255 && a != 0 ==> !private_ip(
            IpAddress::V4([a, b, c, d]),
        ),
        a == 172 && (b < 16 || b > 31) ==> !private_ip(IpAddress::V4([a, b, c, d])),
        private_ip(IpAddress::V6([0, 0, 0, 0, 0, 0, 0, 1])),
        private_ip(IpAddress::V6([0, 0, 0, 0, 0, 0, 0, 0])),
        private_ip(IpAddress::V6([0xfd00, 0, 0, 0, 0, 0, 0, 1])),
        private_ip(IpAddress::V6([0xfe80, 0, 0, 0, 0, 0, 0, 1])),
        !private_ip(IpAddress::V6([0x2606, 0x2800, 0x220, 1, 0x248, 0x1893, 0x25c8, 0x1946])),
{
    assert(0xfd00u16 & 0xfe00u16 == 0xfc00u16) by (bit_vector);
    assert(0xfe80u16 & 0xffc0u16 == 0xfe80u16) by (bit_vector);
    assert(0x2606u16 & 0xfe00u16 != 0xfc00u16) by (bit_vector);
    assert(0x2606u16 & 0xffc0u16 != 0xfe80u16) by (bit_vector);
}

/// The repo an operation by ID acts on is the first repo with that ID; when
/// no repo has it, none is found.
pub proof fn law_repo_found_by_id(repos: Seq<Repo>, id: Seq<char>)
    ensures
        first_index_of(repos, id) matches Some(i) ==> 0 <= i < repos.len() && repos[i].id@ == id && forall|j: int|
            0 <= j < i ==> #[trigger] repos[j].id@ != id,
        first_index_of(repos, id) is None <==> forall|j: int| 0 <= j < repos.len() ==> #[trigger] repos[j].id@ != id,
{
    lemma_first_index_of(repos, id);
}

/// `p` is the path of an active workspace registered under `project_id`.
pub open spec fn active_workspace_path(p: Seq<char>, ws: Seq<WorkspaceEntry>, project_id: Seq<char>) -> bool {
    exists|i: int| 0 <= i < ws.len() && (#[trigger] ws[i]).active && ws[i].id@ == project_id && p == ws[i].workspace_path@
}

/// A project's voice guide goes to exactly its active workspaces, in
/// registry order: each target is the path of an active workspace
/// registered under the project, and every such workspace is a target.
pub proof fn law_voice_guide_targets(ws: Seq<WorkspaceEntry>, project_id: Seq<char>)
    ensures
        forall|i: int|
            0 <= i < ws.len() && (#[trigger] ws[i]).active && ws[i].id@ == project_id ==> project_workspace_paths(
                ws,
                project_id,
            ).contains(ws[i].workspace_path@),
        forall|j: int|
            0 <= j < project_workspace_paths(ws, project_id).len() ==> active_workspace_path(
                #[trigger] project_workspace_paths(ws, project_id)[j],
                ws,
                project_id,
            ),
        project_workspace_paths(ws, project_id).len() <= ws.len(),
    decreases ws.len(),
{
    if ws.len() > 0 {
        let w0 = ws.drop_last();
        law_voice_guide_targets(w0, project_id);
        let rest = project_workspace_paths(w0, project_id);
        let all = project_workspace_paths(ws, project_id);
        let n = ws.len() - 1;
        assert forall|i: int|
            0 <= i < ws.len() && (#[trigger] ws[i]).active && ws[i].id@ == project_id implies all.contains(
                ws[i].workspace_path@,
            ) by {
            if i < n {
                assert(w0[i] == ws[i]);
                assert(rest.contains(ws[i].workspace_path@));
                let k = choose|k: int| 0 <= k < rest.len() && rest[k] == ws[i].workspace_path@;
                assert(all[k] == rest[k]);
            } else {
                assert(all[rest.len() as int] == ws[i].workspace_path@);
            }
        }
        assert forall|j: int|
            0 <= j < project_workspace_paths(ws, project_id).len() implies active_workspace_path(
                #[trigger] project_workspace_paths(ws, project_id)[j],
                ws,
                project_id,
            ) by {
            if j < rest.len() {
                assert(all[j] == rest[j]);
                assert(active_workspace_path(rest[j], w0, project_id));
                let i = choose|i: int|
                    0 <= i < w0.len() && (#[trigger] w0[i]).active && w0[i].id@ == project_id && rest[j]
                        == w0[i].workspace_path@;
                assert(w0[i] == ws[i]);
            } else {
                assert(all[j] == ws[n].workspace_path@);
            }
        }
    }
}

/// A queued post's preview is its text when that has at most 80
/// characters, and otherwise its first 80 characters followed by `...`.
pub proof fn law_preview_text(t: Seq<char>)
    ensures
        t.len() <= 80 ==> preview_text(t) == t,
        t.len() > 80 ==> preview_text(t).len() == 83 && preview_text(t).subrange(0, 80) == t.subrange(0, 80)
            && preview_text(t).subrange(80, 83) == "..."@,
{
    reveal_strlit("...");
    if t.len() > 80 {
        assert(preview_text(t).subrange(0, 80) =~= t.subrange(0, 80));
        assert(preview_text(t).subrange(80, 83) =~= "..."@);
    }
}

/// The time a queued post is shown for, read from an RFC 3339 text.
pub open spec fn when_of(text: Option<Seq<char>>) -> Option<crate::providers::common::UtcTime> {
    match text {
        Some(t) => utc_of(rfc3339_utc(t)),
        None => None,
    }
}

/// Zernio queue entries: the post's ID is `post_id`, its platform
/// `platform`, its time `scheduled_for` and its preview from `content`; an
/// entry missing one of them, or with a time chrono cannot read, is
/// skipped.
pub proof fn law_zernio_queue_fields(p: JsonValue)
    ensures
        crate::providers::zernio::queue_item(p) matches Some(v) ==> Some(v.0) == str_at(p, "post_id"@) && Some(v.1)
            == str_at(p, "platform"@) && Some(v.2) == when_of(str_at(p, "scheduled_for"@)) && str_at(p, "content"@) is Some
            && v.3 == preview_text(str_at(p, "content"@)->0),
        (str_at(p, "post_id"@) is None || str_at(p, "platform"@) is None || str_at(p, "content"@) is None || when_of(
            str_at(p, "scheduled_for"@),
        ) is None) ==> crate::providers::zernio::queue_item(p) is None,
{
}

/// Ayrshare history entries: ID `id`, platform `platform`, time
/// `scheduleDate`, preview from `post`; incomplete entries are skipped.
pub proof fn law_ayrshare_queue_fields(p: JsonValue)
    ensures
        crate::providers::ayrshare::history_item(p) matches Some(v) ==> Some(v.0) == str_at(p, "id"@) && Some(v.1)
            == str_at(p, "platform"@) && Some(v.2) == when_of(str_at(p, "scheduleDate"@)) && str_at(p, "post"@) is Some
            && v.3 == preview_text(str_at(p, "post"@)->0),
        (str_at(p, "id"@) is None || str_at(p, "platform"@) is None || str_at(p, "post"@) is None || when_of(
            str_at(p, "scheduleDate"@),
        ) is None) ==> crate::providers::ayrshare::history_item(p) is None,
{
}

/// Publer posts: ID `id`, time `scheduled_at`, platform the `account_id`
/// (`unknown` when missing), preview from `text`; entries without an ID or
/// a readable time are skipped.
pub proof fn law_publer_queue_fields(p: JsonValue)
    ensures
        crate::providers::publer::post_item(p) matches Some(v) ==> Some(v.0) == str_at(p, "id"@) && Some(v.2) == when_of(
            str_at(p, "scheduled_at"@),
        ) && v.1 == (if str_at(p, "account_id"@) is Some { str_at(p, "account_id"@)->0 } else { "unknown"@ }),
        (str_at(p, "id"@) is None || when_of(str_at(p, "scheduled_at"@)) is None) ==> crate::providers::publer::post_item(
            p,
        ) is None,
{
}

/// Outstand posts: ID `id`, time `scheduledAt`, platform `platform`
/// (`unknown` when missing); entries without an ID or a readable time are
/// skipped.
pub proof fn law_outstand_queue_fields(p: JsonValue)
    ensures
        crate::providers::outstand::post_item(p) matches Some(v) ==> Some(v.0) == str_at(p, "id"@) && Some(v.2)
            == when_of(str_at(p, "scheduledAt"@)) && v.1 == (if str_at(p, "platform"@) is Some {
            str_at(p, "platform"@)->0
        } else {
            "unknown"@
        }),
        (str_at(p, "id"@) is None || when_of(str_at(p, "scheduledAt"@)) is None) ==> crate::providers::outstand::post_item(
            p,
        ) is None,
{
}

/// Mastodon scheduled statuses: ID `id`, time `scheduled_at`, platform
/// `mastodon`; statuses without an ID or a readable time are skipped.
pub proof fn law_mastodon_queue_fields(p: JsonValue)
    ensures
        crate::providers::mastodon::scheduled_item(p) matches Some(v) ==> Some(v.0) == str_at(p, "id"@) && Some(v.2)
            == when_of(str_at(p, "scheduled_at"@)) && v.1 == "mastodon"@,
        (str_at(p, "id"@) is None || when_of(str_at(p, "scheduled_at"@)) is None)
            ==> crate::providers::mastodon::scheduled_item(p) is None,
{
}

/// A registered repo is listed on a row of its own when it is active, its
/// folder still exists, it is not shown on a GitHub App row, and it is not
/// initialised for another project.
pub open spec fn listed_on_its_own(
    apps: Seq<GitHubAppRepo>,
    repos: Seq<Repo>,
    facts: Seq<LocalRepoFacts>,
    project_id: Seq<char>,
    i: int,
) -> bool {
    &&& repos[i].active
    &&& facts[i].path_exists
    &&& !matched_path(apps, repos, facts, project_id, repos[i].path@)
    &&& !(cli_state_spec(facts[i].config, project_id).0 && cli_state_spec(facts[i].config, project_id).1)
}

/// `x` is the own row of registered repo `i`: its ID, path and name, with
/// its folder registered and no GitHub App connection.
pub open spec fn own_row_of(x: RepoConnectionStatus, r: Repo) -> bool {
    &&& x.repo_id == Some(r.id)
    &&& x.local_path == Some(r.path)
    &&& x.display_name == r.name
    &&& !x.github_app_connected
    &&& x.folder_registered
}

pub open spec fn own_row_for_listed(
    x: RepoConnectionStatus,
    apps: Seq<GitHubAppRepo>,
    repos: Seq<Repo>,
    facts: Seq<LocalRepoFacts>,
    project_id: Seq<char>,
    n: int,
) -> bool {
    exists|i: int| 0 <= i < n && #[trigger] listed_on_its_own(apps, repos, facts, project_id, i) && own_row_of(x, repos[i])
}

/// The local-only rows of the connection table are exactly the rows of the
/// registered repos listed on their own: every such repo has its row, in
/// registry order, and every local row belongs to such a repo.
pub proof fn law_local_rows(
    apps: Seq<GitHubAppRepo>,
    repos: Seq<Repo>,
    facts: Seq<LocalRepoFacts>,
    project_id: Seq<char>,
    n: int,
)
    requires
        0 <= n <= repos.len(),
        facts.len() == repos.len(),
    ensures
        forall|j: int|
            0 <= j < local_rows(apps, repos, facts, project_id, n).len() ==> own_row_for_listed(
                #[trigger] local_rows(apps, repos, facts, project_id, n)[j],
                apps,
                repos,
                facts,
                project_id,
                n,
            ),
        forall|i: int|
            0 <= i < n && #[trigger] listed_on_its_own(apps, repos, facts, project_id, i) ==> exists|j: int|
                0 <= j < local_rows(apps, repos, facts, project_id, n).len() && own_row_of(
                    #[trigger] local_rows(apps, repos, facts, project_id, n)[j],
                    repos[i],
                ),
    decreases n,
{
    if n > 0 {
        law_local_rows(apps, repos, facts, project_id, n - 1);
        let rest = local_rows(apps, repos, facts, project_id, n - 1);
        let all = local_rows(apps, repos, facts, project_id, n);
        assert forall|j: int| 0 <= j < all.len() implies own_row_for_listed(
            #[trigger] local_rows(apps, repos, facts, project_id, n)[j],
            apps,
            repos,
            facts,
            project_id,
            n,
        ) by {
            if j < rest.len() {
                assert(all[j] == rest[j]);
                assert(own_row_for_listed(rest[j], apps, repos, facts, project_id, n - 1));
                let i = choose|i: int|
                    0 <= i < n - 1 && #[trigger] listed_on_its_own(apps, repos, facts, project_id, i) && own_row_of(
                        rest[j],
                        repos[i],
                    );
                assert(listed_on_its_own(apps, repos, facts, project_id, i));
            } else {
                assert(listed_on_its_own(apps, repos, facts, project_id, n - 1));
            }
        }
        assert forall|i: int|
            0 <= i < n && #[trigger] listed_on_its_own(apps, repos, facts, project_id, i) implies exists|j: int|
                0 <= j < local_rows(apps, repos, facts, project_id, n).len() && own_row_of(
                    #[trigger] local_rows(apps, repos, facts, project_id, n)[j],
                    repos[i],
                ) by {
            if i < n - 1 {
                let j = choose|j: int| 0 <= j < rest.len() && own_row_of(#[trigger] rest[j], repos[i]);
                if crate::connection::local_row_shown(apps, repos, facts, project_id, n - 1) {
                    assert(all == rest.push(crate::connection::local_row(repos[n - 1], facts[n - 1], project_id)));
                }
                assert(all[j] == rest[j]);
            } else {
                assert(crate::connection::local_row_shown(apps, repos, facts, project_id, n - 1));
                assert(all == rest.push(crate::connection::local_row(repos[n - 1], facts[n - 1], project_id)));
                assert(own_row_of(all[rest.len() as int], repos[i]));
            }
        }
    }
}

/// The table has one GitHub App row per App repo, in the App's order, each
/// showing the repo's name and `owner/repo` and marked as connected.
pub proof fn law_app_rows(apps: Seq<GitHubAppRepo>, repos: Seq<Repo>, facts: Seq<LocalRepoFacts>, project_id: Seq<char>)
    ensures
        app_rows(apps, repos, facts, project_id).len() == apps.len(),
        forall|k: int|
            0 <= k < apps.len() ==> (#[trigger] app_rows(apps, repos, facts, project_id)[k]).display_name == apps[k].name
                && app_rows(apps, repos, facts, project_id)[k].github_full_name == Some(apps[k].full_name) && app_rows(
                apps,
                repos,
                facts,
                project_id,
            )[k].github_app_connected,
{
}

/// A repo's `.postlane` config says whether the CLI set it up, and for
/// which project: no config means not set up; an unreadable one counts as
/// set up for this project; a config naming another, non-empty project ID
/// is a mismatch.
pub proof fn law_cli_state(config: CliConfig, expected: Seq<char>)
    ensures
        config is Absent ==> cli_state_spec(config, expected) == (false, false),
        config is Unreadable ==> cli_state_spec(config, expected) == (true, false),
        config matches CliConfig::Parsed(stored) ==> cli_state_spec(config, expected).0,
        config matches CliConfig::Parsed(stored) ==> (cli_state_spec(config, expected).1 <==> (stored is Some
            && stored->0@.len() > 0 && stored->0@ != expected)),
{
}

/// The configured fallback order lists only non-empty provider names, and
/// every non-empty name of `fallback_order` in it, in order; only when the
/// order names none is the single `provider` used.
pub proof fn law_fallback_order_entries(entries: Seq<Option<String>>)
    ensures
        forall|j: int| 0 <= j < usable_entries(entries).len() ==> (#[trigger] usable_entries(entries)[j]).len() > 0,
        usable_entries(entries).len() <= entries.len(),
        (forall|i: int| 0 <= i < entries.len() ==> (#[trigger] entries[i]) is None || entries[i]->0@.len() == 0)
            ==> usable_entries(entries).len() == 0,
        (forall|i: int| 0 <= i < entries.len() ==> (#[trigger] entries[i]) is Some && entries[i]->0@.len() > 0)
            ==> usable_entries(entries) == entries.map_values(|e: Option<String>| e->0@),
    decreases entries.len(),
{
    if entries.len() > 0 {
        let e0 = entries.drop_last();
        law_fallback_order_entries(e0);
        assert forall|i: int| 0 <= i < e0.len() implies #[trigger] e0[i] == entries[i] by {}
        if forall|i: int| 0 <= i < entries.len() ==> (#[trigger] entries[i]) is Some && entries[i]->0@.len() > 0 {
            assert(forall|i: int| 0 <= i < e0.len() ==> (#[trigger] e0[i]) is Some && e0[i]->0@.len() > 0);
            assert(entries.map_values(|e: Option<String>| e->0@) =~= e0.map_values(|e: Option<String>| e->0@).push(
                entries.last()->0@,
            ));
        }
        if forall|i: int| 0 <= i < entries.len() ==> (#[trigger] entries[i]) is None || entries[i]->0@.len() == 0 {
            assert(forall|i: int| 0 <= i < e0.len() ==> (#[trigger] e0[i]) is None || e0[i]->0@.len() == 0);
        }
    }
}

/// A provider below its monthly limit, of a known kind, whose credential
/// lookup always finds a key, is never passed over by the fallback.
pub proof fn law_capable_provider_not_passed_over<F: Fn(&str) -> Option<String>>(
    get_credential: F,
    store: UsageStore,
    month: u32,
    year: u32,
    p: Seq<char>,
)
    requires
        !at_limit(store.records@, p, month, year),
        kind_of_name(p) is Some,
        forall|k: &str, o: Option<String>| k@ == p && call_ensures(get_credential, (k,), o) ==> o is Some,
    ensures
        !passed_over(get_credential, store, month, year, p),
{
}

/// `e` is the sync entry of an active repo: keyed by the project ID its
/// config names, or by the repo's ID when it names none, and holding the
/// repo's path.
pub open spec fn active_repo_entry(e: (Seq<char>, Seq<Seq<char>>), repos: Seq<Repo>, ids: Seq<Option<String>>) -> bool {
    exists|i: int|
        0 <= i < repos.len() && (#[trigger] repos[i]).active && e == (
            if ids[i] is Some { ids[i]->0@ } else { repos[i].id@ },
            seq![repos[i].path@],
        )
}

/// Accounts are synced for exactly the active repos: every entry belongs to
/// an active repo, under its config's project (else its own ID), and every
/// active repo has an entry; inactive repos are left out.
pub proof fn law_sync_entries_are_active_repos(repos: Seq<Repo>, ids: Seq<Option<String>>)
    requires
        ids.len() == repos.len(),
    ensures
        forall|j: int| 0 <= j < repo_entries(repos, ids).len() ==> active_repo_entry(
            #[trigger] repo_entries(repos, ids)[j],
            repos,
            ids,
        ),
        forall|i: int|
            0 <= i < repos.len() && (#[trigger] repos[i]).active ==> repo_entries(repos, ids).contains(
                (if ids[i] is Some { ids[i]->0@ } else { repos[i].id@ }, seq![repos[i].path@]),
            ),
    decreases repos.len(),
{
    if repos.len() > 0 {
        let (r0, i0) = (repos.drop_last(), ids.drop_last());
        law_sync_entries_are_active_repos(r0, i0);
        let rest = repo_entries(r0, i0);
        let all = repo_entries(repos, ids);
        let n = repos.len() - 1;
        assert forall|j: int| 0 <= j < all.len() implies active_repo_entry(
            #[trigger] repo_entries(repos, ids)[j],
            repos,
            ids,
        ) by {
            if j < rest.len() {
                assert(all[j] == rest[j]);
                assert(active_repo_entry(rest[j], r0, i0));
                let i = choose|i: int|
                    0 <= i < r0.len() && (#[trigger] r0[i]).active && rest[j] == (
                        if i0[i] is Some { i0[i]->0@ } else { r0[i].id@ },
                        seq![r0[i].path@],
                    );
                assert(r0[i] == repos[i] && i0[i] == ids[i]);
                assert(repos[i].active);
            } else {
                assert(repos[n].active);
            }
        }
        assert forall|i: int|
            0 <= i < repos.len() && (#[trigger] repos[i]).active implies all.contains(
                (if ids[i] is Some { ids[i]->0@ } else { repos[i].id@ }, seq![repos[i].path@]),
            ) by {
            if i < n {
                assert(r0[i] == repos[i] && i0[i] == ids[i]);
                assert(r0[i].active);
                let x = (if ids[i] is Some { ids[i]->0@ } else { repos[i].id@ }, seq![repos[i].path@]);
                assert(rest.contains(x));
                let w = choose|w: int| 0 <= w < rest.len() && rest[w] == x;
                assert(all[w] == rest[w]);
            } else {
                assert(all[rest.len() as int] == (if ids[i] is Some { ids[i]->0@ } else { repos[i].id@ }, seq![repos[i].path@]));
            }
        }
    }
}

/// A refresh run reports one error line per failed task, at most one per
/// task, each as `{provider}: {error}`; a run without failures reports none.
pub proof fn law_refresh_error_lines(outcomes: Seq<(String, Result<(), String>)>)
    ensures
        error_lines(outcomes).len() <= outcomes.len(),
        (forall|i: int| 0 <= i < outcomes.len() ==> (#[trigger] outcomes[i]).1 is Ok) ==> error_lines(outcomes).len() == 0,
        (forall|i: int| 0 <= i < outcomes.len() ==> (#[trigger] outcomes[i]).1 is Err) ==> error_lines(outcomes)
            == outcomes.map_values(|o: (String, Result<(), String>)| o.0@ + ": "@ + o.1->Err_0@),
    decreases outcomes.len(),
{
    if outcomes.len() > 0 {
        let o0 = outcomes.drop_last();
        law_refresh_error_lines(o0);
        assert forall|i: int| 0 <= i < o0.len() implies #[trigger] o0[i] == outcomes[i] by {}
        if forall|i: int| 0 <= i < outcomes.len() ==> (#[trigger] outcomes[i]).1 is Err {
            assert(forall|i: int| 0 <= i < o0.len() ==> (#[trigger] o0[i]).1 is Err);
            assert(outcomes.map_values(|o: (String, Result<(), String>)| o.0@ + ": "@ + o.1->Err_0@) =~= o0.map_values(
                |o: (String, Result<(), String>)| o.0@ + ": "@ + o.1->Err_0@,
            ).push(outcomes.last().0@ + ": "@ + outcomes.last().1->Err_0@));
        }
        if forall|i: int| 0 <= i < outcomes.len() ==> (#[trigger] outcomes[i]).1 is Ok {
            assert(forall|i: int| 0 <= i < o0.len() ==> (#[trigger] o0[i]).1 is Ok);
        }
    }
}

} // verus!
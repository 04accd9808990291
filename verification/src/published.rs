//! Published and queued posts: ordering them for display and paging through
//! them.
use vstd::prelude::*;
use crate::repos::Repo;
use crate::text::{join3, lemma_text_lt_asymmetric, lemma_text_lt_transitive, str_eq, text_less, text_lt};

verus! {

broadcast use vstd::string::group_string_axioms;

/// A post as listed in the published view.
#[derive(Clone, Debug)]
pub struct Post {
    pub repo_id: String,
    pub repo_name: String,
    pub repo_path: String,
    pub post_folder: String,
    /// `"queued"`, `"sent"`, or another state.
    pub status: String,
    /// When the post was sent (RFC 3339), if it was.
    pub sent_at: Option<String>,
    pub provider: Option<String>,
    pub platform_results: Option<Vec<(String, String)>>,
    pub scheduler_ids: Option<Vec<(String, String)>>,
    pub platform_urls: Option<Vec<(String, String)>>,
    pub llm_model: Option<String>,
}

/// Post `a` is shown before post `b` in sent-time order: newest `sent_at`
/// first, posts without one before all posts with one.
pub open spec fn sent_before(a: Post, b: Post) -> bool {
    match (a.sent_at, b.sent_at) {
        (Some(at), Some(bt)) => text_lt(bt@, at@),
        (None, Some(_)) => true,
        _ => false,
    }
}

/// Display rank of a status: queued, then sent, then anything else.
pub open spec fn status_rank(status: Seq<char>) -> int {
    if status == "queued"@ {
        0
    } else if status == "sent"@ {
        1
    } else {
        2
    }
}

/// Post `a` is shown before post `b` in a repo's published view: by status
/// rank, then in sent-time order.
pub open spec fn status_then_sent_before(a: Post, b: Post) -> bool {
    status_rank(a.status@) < status_rank(b.status@) || (status_rank(a.status@) == status_rank(b.status@)
        && sent_before(a, b))
}

/// The two display orders.
#[derive(Clone, Copy, Debug, PartialEq, Eq, Structural)]
pub enum PostOrder {
    SentDesc,
    StatusThenSent,
}

pub open spec fn post_before(order: PostOrder, a: Post, b: Post) -> bool {
    match order {
        PostOrder::SentDesc => sent_before(a, b),
        PostOrder::StatusThenSent => status_then_sent_before(a, b),
    }
}

/// No post is shown before a post that precedes it.
pub open spec fn posts_sorted(order: PostOrder, s: Seq<Post>) -> bool {
    forall|i: int, j: int| 0 <= i < j < s.len() ==> !post_before(order, #[trigger] s[j], #[trigger] s[i])
}

proof fn lemma_sent_before_asymmetric(a: Post, b: Post)
    ensures
        sent_before(a, b) ==> !sent_before(b, a),
{
    if a.sent_at is Some && b.sent_at is Some {
        lemma_text_lt_asymmetric(b.sent_at->0@, a.sent_at->0@);
    }
}

proof fn lemma_post_before_asymmetric(order: PostOrder, a: Post, b: Post)
    ensures
        post_before(order, a, b) ==> !post_before(order, b, a),
{
    lemma_sent_before_asymmetric(a, b);
}

fn rank_of(status: &String) -> (r: u8)
    ensures
        r as int == status_rank(status@),
{
    if str_eq(status.as_str(), "queued") {
        0
    } else if str_eq(status.as_str(), "sent") {
        1
    } else {
        2
    }
}

fn sent_less(a: &Post, b: &Post) -> (r: bool)
    ensures
        r == sent_before(*a, *b),
{
    match (&a.sent_at, &b.sent_at) {
        (Some(at), Some(bt)) => text_less(bt.as_str(), at.as_str()),
        (None, Some(_)) => true,
        _ => false,
    }
}

fn post_less(order: PostOrder, a: &Post, b: &Post) -> (r: bool)
    ensures
        r == post_before(order, *a, *b),
{
    match order {
        PostOrder::SentDesc => sent_less(a, b),
        PostOrder::StatusThenSent => {
            let ra = rank_of(&a.status);
            let rb = rank_of(&b.status);
            ra < rb || (ra == rb && sent_less(a, b))
        },
    }
}

/// Posts that are not before `b` come after anything before `b`: `a` before
/// `b`, and `c` not before `b`, puts `a` before `c`.
proof fn lemma_sent_before_negative(a: Post, b: Post, c: Post)
    requires
        sent_before(a, b),
        !sent_before(c, b),
    ensures
        sent_before(a, c),
{
    if a.sent_at is Some && c.sent_at is Some {
        let (at, bt, ct) = (a.sent_at->0@, b.sent_at->0@, c.sent_at->0@);
        crate::text::lemma_text_lt_total(ct, bt);
        if ct == bt {
        } else {
            lemma_text_lt_transitive(ct, bt, at);
        }
    }
}

proof fn lemma_post_before_negative(order: PostOrder, a: Post, b: Post, c: Post)
    requires
        post_before(order, a, b),
        !post_before(order, c, b),
    ensures
        post_before(order, a, c),
{
    match order {
        PostOrder::SentDesc => lemma_sent_before_negative(a, b, c),
        PostOrder::StatusThenSent => {
            if status_rank(a.status@) == status_rank(b.status@) && status_rank(c.status@) == status_rank(b.status@) {
                lemma_sent_before_negative(a, b, c);
            }
        },
    }
}

/// Inserts `x` into the sorted `v` after every post it is not shown before;
/// returns where it went.
fn insert_post(order: PostOrder, v: &mut Vec<Post>, x: Post) -> (p: usize)
    requires
        posts_sorted(order, old(v)@),
    ensures
        posts_sorted(order, final(v)@),
        final(v)@.to_multiset() == old(v)@.to_multiset().insert(x),
        p <= old(v)@.len(),
        final(v)@ == old(v)@.insert(p as int, x),
        forall|j: int| p <= j < old(v)@.len() ==> post_before(order, x, #[trigger] old(v)@[j]),
{
    broadcast use vstd::seq_lib::group_to_multiset_ensures;
    let ghost old_v = v@;
    let mut p: usize = 0;
    while p < v.len()
        invariant
            0 <= p <= v@.len(),
            v@ == old_v,
            forall|i: int| 0 <= i < p ==> !post_before(order, x, #[trigger] old_v[i]),
        ensures
            0 <= p <= v@.len(),
            v@ == old_v,
            forall|i: int| 0 <= i < p ==> !post_before(order, x, #[trigger] old_v[i]),
            p < v@.len() ==> post_before(order, x, old_v[p as int]),
        decreases v@.len() - p,
    {
        if post_less(order, &x, &v[p]) {
            break;
        }
        p += 1;
    }
    let ghost x0 = x;
    v.insert(p, x);
    proof {
        let nv = v@;
        assert(nv =~= old_v.insert(p as int, x0));
        assert forall|j: int| p <= j < old_v.len() implies post_before(order, x0, #[trigger] old_v[j]) by {
            if j > p {
                assert(!post_before(order, old_v[j], old_v[p as int]));
                lemma_post_before_negative(order, x0, old_v[p as int], old_v[j]);
            }
        }
        assert forall|a: int, b: int| 0 <= a < b < nv.len() implies !post_before(order, #[trigger] nv[b], #[trigger] nv[a]) by {
            if b < p {
            } else if b == p {
            } else if a == p {
                assert(nv[b] == old_v[b - 1]);
                lemma_post_before_asymmetric(order, x0, old_v[b - 1]);
            } else if a < p {
                assert(nv[b] == old_v[b - 1]);
            } else {
                assert(nv[a] == old_v[a - 1]);
                assert(nv[b] == old_v[b - 1]);
            }
        }
    }
    p
}

/// `s` is `orig` rearranged by `perm` (`s[i]` is `orig[perm[i]]`), and
/// posts of `s` that are not in display order relative to each other (ties)
/// keep their order in `orig`.
pub open spec fn stable_arrangement(order: PostOrder, orig: Seq<Post>, s: Seq<Post>, perm: Seq<int>) -> bool {
    &&& perm.len() == s.len()
    &&& s.len() == orig.len()
    &&& forall|i: int| 0 <= i < s.len() ==> 0 <= #[trigger] perm[i] < orig.len() && s[i] == orig[perm[i]]
    &&& forall|i: int, j: int| 0 <= i < j < s.len() ==> #[trigger] perm[i] != #[trigger] perm[j]
    &&& forall|k: int| 0 <= k < orig.len() ==> #[trigger] perm.contains(k)
    &&& forall|i: int, j: int|
        0 <= i < j < s.len() && !post_before(order, #[trigger] s[i], #[trigger] s[j]) ==> perm[i] < perm[j]
}

/// In an arrangement of `orig` that is sorted and keeps ties in order, the
/// post at original index `a` comes before the one at `b`.
pub open spec fn arranged_before(order: PostOrder, orig: Seq<Post>, a: int, b: int) -> bool {
    post_before(order, orig[a], orig[b]) || (!post_before(order, orig[b], orig[a]) && a < b)
}

pub open spec fn arranged_chain(order: PostOrder, orig: Seq<Post>, q: Seq<int>) -> bool {
    forall|i: int, j: int| 0 <= i < j < q.len() ==> arranged_before(order, orig, #[trigger] q[i], #[trigger] q[j])
}

pub open spec fn no_repeats(q: Seq<int>) -> bool {
    forall|i: int, j: int| 0 <= i < j < q.len() ==> #[trigger] q[i] != #[trigger] q[j]
}

pub proof fn lemma_arrangement_chain(order: PostOrder, orig: Seq<Post>, s: Seq<Post>, perm: Seq<int>)
    requires
        posts_sorted(order, s),
        stable_arrangement(order, orig, s, perm),
    ensures
        arranged_chain(order, orig, perm),
{
    assert forall|i: int, j: int| 0 <= i < j < perm.len() implies arranged_before(
        order,
        orig,
        #[trigger] perm[i],
        #[trigger] perm[j],
    ) by {
        assert(s[i] == orig[perm[i]] && s[j] == orig[perm[j]]);
        assert(!post_before(order, s[j], s[i]));
    }
}

proof fn lemma_arranged_before_asymmetric(order: PostOrder, orig: Seq<Post>, a: int, b: int)
    requires
        a != b,
    ensures
        !(arranged_before(order, orig, a, b) && arranged_before(order, orig, b, a)),
{
    lemma_post_before_asymmetric(order, orig[a], orig[b]);
}

/// Two arrangements of the same indices that both follow the display order
/// (ties by original index) are the same.
pub proof fn lemma_chains_equal(order: PostOrder, orig: Seq<Post>, q1: Seq<int>, q2: Seq<int>)
    requires
        q1.len() == q2.len(),
        no_repeats(q1),
        no_repeats(q2),
        forall|x: int| q1.contains(x) <==> q2.contains(x),
        arranged_chain(order, orig, q1),
        arranged_chain(order, orig, q2),
    ensures
        q1 == q2,
    decreases q1.len(),
{
    if q1.len() == 0 {
        assert(q1 =~= q2);
    } else {
        let a = q1[0];
        let b = q2[0];
        if a != b {
            assert(q1.contains(a));
            let j = choose|j: int| 0 <= j < q2.len() && q2[j] == a;
            assert(q2.contains(b));
            let k = choose|k: int| 0 <= k < q1.len() && q1[k] == b;
            assert(arranged_before(order, orig, q2[0], q2[j]));
            assert(arranged_before(order, orig, q1[0], q1[k]));
            lemma_arranged_before_asymmetric(order, orig, a, b);
        }
        let r1 = q1.drop_first();
        let r2 = q2.drop_first();
        assert forall|x: int| r1.contains(x) <==> r2.contains(x) by {
            if r1.contains(x) {
                let w = choose|w: int| 0 <= w < r1.len() && r1[w] == x;
                assert(q1[w + 1] == x);
                assert(x != a);
                assert(q1.contains(x));
                let v = choose|v: int| 0 <= v < q2.len() && q2[v] == x;
                assert(v != 0);
                assert(r2[v - 1] == x);
            }
            if r2.contains(x) {
                let w = choose|w: int| 0 <= w < r2.len() && r2[w] == x;
                assert(q2[w + 1] == x);
                assert(x != b);
                assert(q2.contains(x));
                let v = choose|v: int| 0 <= v < q1.len() && q1[v] == x;
                assert(v != 0);
                assert(r1[v - 1] == x);
            }
        }
        assert(no_repeats(r1)) by {
            assert forall|i: int, j: int| 0 <= i < j < r1.len() implies #[trigger] r1[i] != #[trigger] r1[j] by {
                assert(q1[i + 1] != q1[j + 1]);
            }
        }
        assert(no_repeats(r2)) by {
            assert forall|i: int, j: int| 0 <= i < j < r2.len() implies #[trigger] r2[i] != #[trigger] r2[j] by {
                assert(q2[i + 1] != q2[j + 1]);
            }
        }
        assert(arranged_chain(order, orig, r1)) by {
            assert forall|i: int, j: int| 0 <= i < j < r1.len() implies arranged_before(
                order,
                orig,
                #[trigger] r1[i],
                #[trigger] r1[j],
            ) by {
                assert(r1[i] == q1[i + 1] && r1[j] == q1[j + 1]);
            }
        }
        assert(arranged_chain(order, orig, r2)) by {
            assert forall|i: int, j: int| 0 <= i < j < r2.len() implies arranged_before(
                order,
                orig,
                #[trigger] r2[i],
                #[trigger] r2[j],
            ) by {
                assert(r2[i] == q2[i + 1] && r2[j] == q2[j + 1]);
            }
        }
        lemma_chains_equal(order, orig, r1, r2);
        assert(q1 =~= q2) by {
            assert forall|i: int| 0 <= i < q1.len() implies q1[i] == q2[i] by {
                if i > 0 {
                    assert(q1[i] == r1[i - 1]);
                    assert(q2[i] == r2[i - 1]);
                }
            }
        }
    }
}

/// Sorts `posts` into display order; posts that tie keep their original
/// order.
pub fn sort_posts(order: PostOrder, posts: Vec<Post>) -> (r: Vec<Post>)
    ensures
        posts_sorted(order, r@),
        r@.to_multiset() == posts@.to_multiset(),
        exists|perm: Seq<int>| stable_arrangement(order, posts@, r@, perm),
{
    broadcast use vstd::seq_lib::group_to_multiset_ensures;
    broadcast use vstd::multiset::group_multiset_axioms;
    let ghost original = posts@;
    let mut rest = posts;
    let mut sorted: Vec<Post> = Vec::new();
    let ghost mut done: Seq<Post> = Seq::empty();
    let ghost mut perm: Seq<int> = Seq::empty();
    while rest.len() > 0
        invariant
            original == done + rest@,
            posts_sorted(order, sorted@),
            sorted@.to_multiset() == done.to_multiset(),
            perm.len() == sorted@.len(),
            sorted@.len() == done.len(),
            forall|i: int| 0 <= i < sorted@.len() ==> 0 <= #[trigger] perm[i] < done.len() && sorted@[i] == done[perm[i]],
            forall|i: int, j: int| 0 <= i < j < sorted@.len() ==> #[trigger] perm[i] != #[trigger] perm[j],
            forall|k: int| 0 <= k < done.len() ==> #[trigger] perm.contains(k),
            forall|i: int, j: int|
                0 <= i < j < sorted@.len() && !post_before(order, #[trigger] sorted@[i], #[trigger] sorted@[j])
                    ==> perm[i] < perm[j],
        decreases rest@.len(),
    {
        let ghost r0 = rest@;
        let ghost d0 = done;
        let ghost s0 = sorted@;
        let ghost pm0 = perm;
        let x = rest.remove(0);
        proof {
            assert(r0 =~= seq![x] + rest@);
            assert(done + r0 =~= done.push(x) + rest@);
            done = done.push(x);
        }
        let ghost xg = x;
        let p = insert_post(order, &mut sorted, x);
        proof {
            vstd::seq_lib::to_multiset_build(d0, xg);
            let k = d0.len() as int;
            perm = pm0.insert(p as int, k);
            let s1 = sorted@;
            assert forall|i: int| 0 <= i < s1.len() implies 0 <= #[trigger] perm[i] < done.len() && s1[i] == done[perm[i]] by {
                if i < p {
                    assert(s1[i] == s0[i]);
                    assert(perm[i] == pm0[i]);
                } else if i == p {
                } else {
                    assert(s1[i] == s0[i - 1]);
                    assert(perm[i] == pm0[i - 1]);
                }
            }
            assert forall|i: int, j: int| 0 <= i < j < s1.len() implies #[trigger] perm[i] != #[trigger] perm[j] by {
                if i != p && j != p {
                    let oi = if i < p { i } else { i - 1 };
                    let oj = if j < p { j } else { j - 1 };
                    assert(perm[i] == pm0[oi]);
                    assert(perm[j] == pm0[oj]);
                }
                if i == p {
                    assert(perm[j] == pm0[j - 1]);
                }
                if j == p {
                    assert(perm[i] == pm0[i]);
                }
            }
            assert forall|kk: int| 0 <= kk < done.len() implies #[trigger] perm.contains(kk) by {
                if kk == k {
                    assert(perm[p as int] == k);
                } else {
                    assert(pm0.contains(kk));
                    let w = choose|w: int| 0 <= w < pm0.len() && pm0[w] == kk;
                    if w < p {
                        assert(perm[w] == kk);
                    } else {
                        assert(perm[w + 1] == kk);
                    }
                }
            }
            assert forall|i: int, j: int|
                0 <= i < j < s1.len() && !post_before(order, #[trigger] s1[i], #[trigger] s1[j]) implies perm[i] < perm[j] by {
                if i != p && j != p {
                    let oi = if i < p { i } else { i - 1 };
                    let oj = if j < p { j } else { j - 1 };
                    assert(perm[i] == pm0[oi] && s1[i] == s0[oi]);
                    assert(perm[j] == pm0[oj] && s1[j] == s0[oj]);
                } else if i == p {
                    assert(s1[j] == s0[j - 1]);
                    assert(post_before(order, xg, s0[j - 1]));
                } else {
                    assert(perm[i] == pm0[i]);
                }
            }
        }
    }
    proof {
        assert(done =~= original);
        assert(stable_arrangement(order, original, sorted@, perm));
    }
    sorted
}

/// `posts` without its first `offset` elements, then at most `limit` of the
/// rest (what `skip(offset).take(limit)` yields).
pub open spec fn page_of(posts: Seq<Post>, offset: nat, limit: nat) -> Seq<Post> {
    let start = if offset < posts.len() {
        offset as int
    } else {
        posts.len() as int
    };
    let end = if start + limit < posts.len() {
        start + limit
    } else {
        posts.len() as int
    };
    posts.subrange(start, end)
}

/// One page of `posts`: skips `offset`, takes up to `limit`.
pub fn paginate(posts: Vec<Post>, offset: usize, limit: usize) -> (r: Vec<Post>)
    ensures
        r@ == page_of(posts@, offset as nat, limit as nat),
{
    let ghost original = posts@;
    let n = posts.len();
    let start = if offset < n {
        offset
    } else {
        n
    };
    let end = if limit < n - start {
        start + limit
    } else {
        n
    };
    let mut rest = posts;
    let mut page: Vec<Post> = Vec::new();
    let mut i: usize = 0;
    while rest.len() > 0
        invariant
            i + rest@.len() == n,
            rest@ == original.subrange(i as int, n as int),
            n == original.len(),
            start <= end <= n,
            page@ == original.subrange(if i < start { start as int } else if i < end { start as int } else { start as int }, if i < start { start as int } else if i < end { i as int } else { end as int }),
        decreases rest@.len(),
    {
        let x = rest.remove(0);
        proof {
            assert(original[i as int] == x);
        }
        if i >= start && i < end {
            let ghost before = page@;
            page.push(x);
            proof {
                assert(page@ =~= original.subrange(start as int, i + 1));
            }
        }
        proof {
            assert(rest@ =~= original.subrange(i + 1, n as int));
        }
        i += 1;
    }
    page
}

pub open spec fn repo_not_found_message(id: Seq<char>) -> Seq<char> {
    "Repo '"@ + id + "' not found"@
}

/// The first repo with ID `id`, if any.
pub open spec fn repo_lookup(repos: Seq<Repo>, id: Seq<char>) -> Option<int> {
    crate::repos::first_index_of(repos, id)
}

/// One page of a repo's published and queued posts. The posts of the first
/// repo with ID `repo_id` are loaded with `load_posts` (an empty list when its
/// posts folder is missing), sorted queued first, then sent, each newest
/// first, and paged. An unknown repo is an error, and nothing is loaded.
pub fn get_repo_published_impl<F: Fn(&Repo) -> Vec<Post>>(
    repo_id: &str,
    offset: usize,
    limit: usize,
    repos: &[Repo],
    load_posts: F,
) -> (r: Result<Vec<Post>, String>)
    requires
        forall|x: &Repo| call_requires(load_posts, (x,)),
    ensures
        match repo_lookup(repos@, repo_id@) {
            None => r is Err && r->Err_0@ == repo_not_found_message(repo_id@),
            Some(i) => r is Ok && exists|loaded: Vec<Post>, sorted: Seq<Post>, perm: Seq<int>|
                call_ensures(load_posts, (&repos@[i],), loaded) && posts_sorted(PostOrder::StatusThenSent, sorted)
                    && sorted.to_multiset() == loaded@.to_multiset() && stable_arrangement(
                    PostOrder::StatusThenSent,
                    loaded@,
                    sorted,
                    perm,
                ) && r->Ok_0@ == page_of(
                    sorted,
                    offset as nat,
                    limit as nat,
                ),
        },
{
    let i = match crate::repos::find_repo_index(repos, repo_id) {
        Some(i) => i,
        None => {
            return Err(join3("Repo '", repo_id, "' not found"));
        },
    };
    let loaded = load_posts(&repos[i]);
    let sorted = sort_posts(PostOrder::StatusThenSent, loaded);
    Ok(paginate(sorted, offset, limit))
}

/// One page of the published and queued posts of all repos, newest sent first
/// (posts not yet sent before all others).
pub fn get_all_published_impl(offset: usize, limit: usize, posts: Vec<Post>) -> (r: Vec<Post>)
    ensures
        exists|sorted: Seq<Post>, perm: Seq<int>|
            posts_sorted(PostOrder::SentDesc, sorted) && sorted.to_multiset() == posts@.to_multiset()
                && stable_arrangement(PostOrder::SentDesc, posts@, sorted, perm) && r@ == page_of(
                sorted,
                offset as nat,
                limit as nat,
            ),
{
    let sorted = sort_posts(PostOrder::SentDesc, posts);
    paginate(sorted, offset, limit)
}

} // verus!

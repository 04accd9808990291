use postlane::published::{get_all_published_impl, get_repo_published_impl, paginate, sort_posts, Post, PostOrder};
use postlane::repos::Repo;

fn make_repo(id: &str, name: &str, path: &str) -> Repo {
    Repo {
        id: id.to_string(),
        name: name.to_string(),
        path: path.to_string(),
        active: true,
        added_at: "2024-01-01T00:00:00Z".to_string(),
    }
}

fn post(repo: &Repo, folder: &str, status: &str, sent_at: Option<&str>) -> Post {
    Post {
        repo_id: repo.id.clone(),
        repo_name: repo.name.clone(),
        repo_path: repo.path.clone(),
        post_folder: folder.to_string(),
        status: status.to_string(),
        sent_at: sent_at.map(|s| s.to_string()),
        provider: None,
        platform_results: None,
        scheduler_ids: None,
        platform_urls: None,
        llm_model: None,
    }
}

fn sent(repo: &Repo, folder: &str, at: &str) -> Post {
    post(repo, folder, "sent", Some(at))
}

fn queued(repo: &Repo, folder: &str) -> Post {
    post(repo, folder, "queued", None)
}

#[test]
fn test_get_repo_published_empty() {
    let repos = vec![make_repo("r1", "Repo", "/nonexistent")];
    let result = get_repo_published_impl("r1", 0, 100, &repos, |_r: &Repo| Vec::new()).expect("ok");
    assert!(result.is_empty());
}

#[test]
fn test_get_repo_published_repo_not_found() {
    let result = get_repo_published_impl("nonexistent", 0, 100, &[], |_r: &Repo| Vec::new());
    assert!(result.is_err());
    assert_eq!(result.unwrap_err(), "Repo 'nonexistent' not found");
}

#[test]
fn test_get_repo_published_queued_before_sent() {
    let repos = vec![make_repo("r1", "Repo", "/r1")];
    let result = get_repo_published_impl("r1", 0, 100, &repos, |r: &Repo| {
        vec![sent(r, "p1", "2026-04-15T10:00:00Z"), queued(r, "p2")]
    })
    .expect("ok");
    assert_eq!(result[0].status, "queued");
    assert_eq!(result[1].status, "sent");
}

#[test]
fn test_get_repo_published_pagination() {
    let repos = vec![make_repo("r1", "Repo", "/r1")];
    let load = |r: &Repo| {
        (0..105)
            .map(|i| sent(r, &format!("post-{:03}", i), &format!("2026-04-{:02}T10:00:00Z", (i % 28) + 1)))
            .collect::<Vec<Post>>()
    };
    let page1 = get_repo_published_impl("r1", 0, 100, &repos, load).expect("ok");
    assert_eq!(page1.len(), 100);
    let page2 = get_repo_published_impl("r1", 100, 100, &repos, load).expect("ok");
    assert_eq!(page2.len(), 5);
}

#[test]
fn repo_published_orders_sent_newest_first_and_other_statuses_last() {
    let repos = vec![make_repo("r1", "Repo", "/r1")];
    let result = get_repo_published_impl("r1", 0, 100, &repos, |r: &Repo| {
        vec![
            post(r, "draft", "draft", None),
            sent(r, "old", "2026-01-01T00:00:00Z"),
            queued(r, "q"),
            sent(r, "new", "2026-04-01T00:00:00Z"),
        ]
    })
    .unwrap();
    let folders: Vec<&str> = result.iter().map(|p| p.post_folder.as_str()).collect();
    assert_eq!(folders, vec!["q", "new", "old", "draft"]);
}

#[test]
fn test_get_all_published_empty_repos() {
    let result = get_all_published_impl(0, 100, Vec::new());
    assert!(result.is_empty());
}

#[test]
fn test_get_all_published_repo_with_no_posts_dir() {
    let result = get_all_published_impl(0, 100, Vec::new());
    assert!(result.is_empty());
}

#[test]
fn test_get_all_published_merges_across_multiple_repos() {
    let r1 = make_repo("r1", "repo-one", "/one");
    let r2 = make_repo("r2", "repo-two", "/two");
    let posts = vec![sent(&r2, "p2", "2026-04-14T10:00:00Z"), sent(&r1, "p1", "2026-04-15T10:00:00Z")];
    let result = get_all_published_impl(0, 100, posts);
    assert_eq!(result.len(), 2);
    assert_eq!(result[0].repo_id, "r1");
    assert_eq!(result[1].repo_id, "r2");
}

#[test]
fn test_get_all_published_sorts_by_sent_at_descending() {
    let r = make_repo("r1", "repo", "/r");
    let posts = vec![
        sent(&r, "old", "2026-01-01T00:00:00Z"),
        sent(&r, "new", "2026-04-20T00:00:00Z"),
        sent(&r, "mid", "2026-03-01T00:00:00Z"),
    ];
    let result = get_all_published_impl(0, 100, posts);
    assert_eq!(result.len(), 3);
    assert_eq!(result[0].post_folder, "new");
    assert_eq!(result[1].post_folder, "mid");
    assert_eq!(result[2].post_folder, "old");
}

#[test]
fn test_get_all_published_none_sent_at_sorts_first() {
    let r = make_repo("r1", "repo", "/r");
    let posts = vec![sent(&r, "with-time", "2026-04-20T00:00:00Z"), queued(&r, "no-time")];
    let result = get_all_published_impl(0, 100, posts);
    assert_eq!(result.len(), 2);
    assert!(result[0].sent_at.is_none());
    assert!(result[1].sent_at.is_some());
}

#[test]
fn test_get_all_published_two_none_sent_at_are_equal() {
    let r = make_repo("r1", "repo", "/r");
    let result = get_all_published_impl(0, 100, vec![queued(&r, "q1"), queued(&r, "q2")]);
    assert_eq!(result.len(), 2);
}

#[test]
fn test_get_all_published_pagination() {
    let r = make_repo("r1", "repo", "/r");
    let make = || {
        (0..15u32)
            .map(|i| sent(&r, &format!("post-{:02}", i), &format!("2026-04-{:02}T00:00:00Z", (i % 28) + 1)))
            .collect::<Vec<Post>>()
    };
    let page1 = get_all_published_impl(0, 10, make());
    assert_eq!(page1.len(), 10);
    let page2 = get_all_published_impl(10, 10, make());
    assert_eq!(page2.len(), 5);
    let ids1: Vec<_> = page1.iter().map(|p| &p.post_folder).collect();
    let ids2: Vec<_> = page2.iter().map(|p| &p.post_folder).collect();
    assert!(ids1.iter().all(|id| !ids2.contains(id)));
}

#[test]
fn test_get_all_published_carries_repo_name_and_path() {
    let r = make_repo("r1", "my-project", "/home/u/my-project");
    let result = get_all_published_impl(0, 100, vec![sent(&r, "p1", "2026-04-15T10:00:00Z")]);
    assert_eq!(result[0].repo_id, "r1");
    assert_eq!(result[0].repo_name, "my-project");
    assert_eq!(result[0].repo_path, "/home/u/my-project");
}

#[test]
fn paginate_edges() {
    let r = make_repo("r1", "repo", "/r");
    let all = || vec![queued(&r, "a"), queued(&r, "b"), queued(&r, "c")];
    assert_eq!(paginate(all(), 1, 1).iter().map(|p| p.post_folder.clone()).collect::<Vec<_>>(), vec!["b"]);
    assert!(paginate(all(), 5, 10).is_empty());
    assert!(paginate(all(), 0, 0).is_empty());
    assert_eq!(paginate(all(), 2, usize::MAX).len(), 1);
}

#[test]
fn sort_posts_keeps_every_post() {
    let r = make_repo("r1", "repo", "/r");
    let sorted = sort_posts(
        PostOrder::SentDesc,
        vec![sent(&r, "b", "2026-02-01"), queued(&r, "a"), sent(&r, "c", "2026-03-01")],
    );
    let folders: Vec<&str> = sorted.iter().map(|p| p.post_folder.as_str()).collect();
    assert_eq!(folders, vec!["a", "c", "b"]);
}

#[test]
fn sorting_keeps_ties_in_their_original_order() {
    let r = make_repo("r1", "repo", "/r");
    let posts = vec![
        queued(&r, "q1"),
        sent(&r, "s1", "2026-04-10T10:00:00Z"),
        queued(&r, "q2"),
        sent(&r, "s2", "2026-04-10T10:00:00Z"),
        sent(&r, "s3", "2026-04-12T10:00:00Z"),
        queued(&r, "q3"),
    ];
    let sorted = sort_posts(PostOrder::SentDesc, posts.clone());
    let folders: Vec<&str> = sorted.iter().map(|p| p.post_folder.as_str()).collect();
    assert_eq!(folders, vec!["q1", "q2", "q3", "s3", "s1", "s2"]);
    let by_status = sort_posts(PostOrder::StatusThenSent, posts);
    let folders: Vec<&str> = by_status.iter().map(|p| p.post_folder.as_str()).collect();
    assert_eq!(folders, vec!["q1", "q2", "q3", "s3", "s1", "s2"]);
}

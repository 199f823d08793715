use bmarks::bookmarks::{Bookmark, BookmarkUrl, NewBookmarkParams};
use bmarks::error::Error;
use bmarks::store::{BookmarkRow, Repo, TagLink};
use bmarks::tags::{matches_filter, Tag};

fn url(s: &str) -> BookmarkUrl {
    BookmarkUrl::parse(s).unwrap()
}

fn ids(bookmarks: &[Bookmark]) -> Vec<i64> {
    bookmarks.iter().map(|b| b.id).collect()
}

fn item(title: &str, link: &str, tags: &[&str]) -> NewBookmarkParams {
    NewBookmarkParams::new(
        Some(title.to_string()),
        url(link),
        tags.iter().map(|t| t.to_string()).collect(),
    )
}

/// Store with tags {1: go, 2: rust} and bookmarks {10: [go], 11: [rust], 12: []}.
fn scenario_store() -> (Repo, Tag, Tag) {
    let mut repo = Repo::new();
    for i in 1..10 {
        let b = repo.create(None, url(&format!("https://example.com/{i}")), None).unwrap();
        repo.delete(b.id);
    }
    let go = repo.create_tag("go".to_string()).unwrap();
    let rust = repo.create_tag("rust".to_string()).unwrap();
    assert_eq!((go.id, rust.id), (1, 2));
    let b10 = repo.create(Some("ten".to_string()), url("https://ten.example/"), Some(vec![go.clone()])).unwrap();
    let b11 = repo.create(Some("eleven".to_string()), url("https://eleven.example/"), Some(vec![rust.clone()])).unwrap();
    let b12 = repo.create(Some("twelve".to_string()), url("https://twelve.example/"), Some(vec![])).unwrap();
    assert_eq!((b10.id, b11.id, b12.id), (10, 11, 12));
    (repo, go, rust)
}

#[test]
fn fetch_all_filters_by_any_tag() {
    let (repo, go, rust) = scenario_store();
    assert_eq!(ids(&repo.fetch_all(vec![go.clone()])), vec![10]);
    assert_eq!(ids(&repo.fetch_all(vec![go.clone(), rust.clone()])), vec![10, 11]);
    assert_eq!(ids(&repo.fetch_all(vec![])), vec![10, 11, 12]);
    assert_eq!(ids(&repo.fetch_all(vec![rust.clone()])), vec![11]);
}

#[test]
fn fetch_all_attaches_tags() {
    let (repo, go, _) = scenario_store();
    let all = repo.fetch_all(vec![]);
    let tags10 = all[0].tags.as_ref().unwrap();
    assert_eq!(tags10.len(), 1);
    assert_eq!(tags10[0].id, go.id);
    assert_eq!(tags10[0].name, "go");
    assert!(all[2].tags.as_ref().unwrap().is_empty());
}

#[test]
fn filter_with_unknown_tag_matches_nothing() {
    let (repo, _, _) = scenario_store();
    assert!(repo.fetch_all(vec![Tag::new(99, "none".to_string())]).is_empty());
}

#[test]
fn tag_filter_predicate() {
    let go = Tag::new(1, "go".to_string());
    let rust = Tag::new(2, "rust".to_string());
    assert!(matches_filter(&vec![go.clone()], &vec![]));
    assert!(matches_filter(&vec![], &vec![]));
    assert!(!matches_filter(&vec![], &vec![go.clone()]));
    assert!(matches_filter(&vec![go.clone(), rust.clone()], &vec![rust.clone()]));
    assert!(!matches_filter(&vec![go.clone()], &vec![rust.clone()]));
}

#[test]
fn round_trip_keeps_url_text() {
    let mut repo = Repo::new();
    let b = repo.create(Some("a".to_string()), url("https://example.com/a"), None).unwrap();
    let all = repo.fetch_all(vec![]);
    assert_eq!(all.len(), 1);
    assert_eq!(all[0].id, b.id);
    assert_eq!(all[0].url.as_str(), "https://example.com/a");
    assert_eq!(all[0].title.as_deref(), Some("a"));
}

#[test]
fn create_then_delete_restores_rows() {
    let (mut repo, go, rust) = scenario_store();
    let before_rows = repo.bookmark_rows().len();
    let before_links = repo.link_rows().len();
    let before_tags = repo.fetch_all_tags().len();
    let b = repo.create(None, url("https://new.example/"), Some(vec![go, rust])).unwrap();
    assert_eq!(repo.bookmark_rows().len(), before_rows + 1);
    assert_eq!(repo.link_rows().len(), before_links + 2);
    repo.delete(b.id);
    assert_eq!(repo.bookmark_rows().len(), before_rows);
    assert_eq!(repo.link_rows().len(), before_links);
    assert_eq!(repo.fetch_all_tags().len(), before_tags);
    assert_eq!(ids(&repo.fetch_all(vec![])), vec![10, 11, 12]);
}

#[test]
fn delete_unknown_id_is_a_no_op() {
    let (mut repo, _, _) = scenario_store();
    repo.delete(999);
    assert_eq!(ids(&repo.fetch_all(vec![])), vec![10, 11, 12]);
    assert_eq!(repo.link_rows().len(), 2);
}

#[test]
fn create_returns_given_fields() {
    let mut repo = Repo::new();
    let t = repo.create_tag("rust".to_string()).unwrap();
    let b = repo.create(Some("t".to_string()), url("https://x.example/p"), Some(vec![t.clone()])).unwrap();
    assert_eq!(b.id, 1);
    assert_eq!(b.title.as_deref(), Some("t"));
    assert_eq!(b.url.as_str(), "https://x.example/p");
    assert_eq!(b.tags.unwrap()[0].name, "rust");
}

#[test]
fn create_with_unknown_tag_is_not_found() {
    let mut repo = Repo::new();
    let r = repo.create(None, url("https://x.example/"), Some(vec![Tag::new(5, "ghost".to_string())]));
    assert_eq!(r.unwrap_err(), Error::NotFound);
    assert!(repo.bookmark_rows().is_empty());
    assert!(repo.link_rows().is_empty());
}

#[test]
fn create_with_repeated_tag_is_a_duplicate_link() {
    let mut repo = Repo::new();
    let t = repo.create_tag("rust".to_string()).unwrap();
    let r = repo.create(None, url("https://x.example/"), Some(vec![t.clone(), t.clone()]));
    assert_eq!(r.unwrap_err(), Error::DuplicateLink);
    assert!(repo.bookmark_rows().is_empty());
}

#[test]
fn batch_shares_tag_by_name() {
    let mut repo = Repo::new();
    let out = repo
        .batch_create(vec![item("a", "https://a.example/", &["rust"]), item("b", "https://b.example/", &["rust"])])
        .unwrap();
    assert_eq!(repo.fetch_all_tags().len(), 1);
    assert_eq!(repo.link_rows().len(), 2);
    assert_eq!(repo.bookmark_rows().len(), 2);
    assert_eq!(ids(&out), vec![1, 2]);
    let t0 = &out[0].tags.as_ref().unwrap()[0];
    let t1 = &out[1].tags.as_ref().unwrap()[0];
    assert_eq!(t0.id, t1.id);
    assert_eq!(t0.name, "rust");
}

#[test]
fn batch_reuses_existing_tag() {
    let mut repo = Repo::new();
    let go = repo.create_tag("go".to_string()).unwrap();
    let out = repo.batch_create(vec![item("a", "https://a.example/", &["go", "new"])]).unwrap();
    let tags = out[0].tags.as_ref().unwrap();
    assert_eq!(tags[0].id, go.id);
    assert_eq!(tags[1].id, 2);
    assert_eq!(repo.fetch_all_tags().len(), 2);
}

#[test]
fn batch_failure_commits_nothing() {
    let mut repo = Repo::new();
    repo.create_tag("keep".to_string()).unwrap();
    let r = repo.batch_create(vec![
        item("a", "https://a.example/", &["rust"]),
        item("b", "https://b.example/", &["x", "x"]),
    ]);
    assert_eq!(r.unwrap_err(), Error::DuplicateLink);
    assert!(repo.bookmark_rows().is_empty());
    assert!(repo.link_rows().is_empty());
    assert_eq!(repo.fetch_all_tags().len(), 1);
    let again = repo.batch_create(vec![item("c", "https://c.example/", &[])]).unwrap();
    assert_eq!(again[0].id, 1);
}

#[test]
fn batch_runs_out_of_ids() {
    let rows = vec![BookmarkRow { id: i64::MAX - 1, title: None, url: url("https://last.example/") }];
    let mut repo = Repo::from_rows(rows, vec![], vec![]).unwrap();
    let r = repo.batch_create(vec![item("a", "https://a.example/", &["t"])]);
    assert_eq!(r.unwrap_err(), Error::IdsExhausted);
    assert_eq!(repo.bookmark_rows().len(), 1);
    assert!(repo.fetch_all_tags().is_empty());
}

#[test]
fn create_tag_rejects_taken_name() {
    let mut repo = Repo::new();
    let t = repo.create_tag("go".to_string()).unwrap();
    assert_eq!(t.id, 1);
    assert_eq!(repo.create_tag("go".to_string()).unwrap_err(), Error::TagNameTaken);
    assert_eq!(repo.create_tag("Go".to_string()).unwrap().id, 2);
}

#[test]
fn tag_lookups() {
    let (repo, go, rust) = scenario_store();
    assert_eq!(repo.get_tag(2).unwrap().name, "rust");
    assert_eq!(repo.get_tag_by_name("go".to_string()).unwrap().id, go.id);
    assert_eq!(repo.get_tag(7).unwrap_err(), Error::NotFound);
    assert_eq!(repo.get_tag_by_name("java".to_string()).unwrap_err(), Error::NotFound);
    assert_eq!(rust.id, 2);
}

#[test]
fn delete_tag_detaches_it() {
    let (mut repo, go, _) = scenario_store();
    let removed = repo.delete_tag(go.id).unwrap();
    assert_eq!(removed.name, "go");
    assert_eq!(repo.fetch_all_tags().len(), 1);
    assert_eq!(repo.link_rows().len(), 1);
    assert!(repo.fetch_all(vec![go.clone()]).is_empty());
    assert_eq!(repo.delete_tag(go.id).unwrap_err(), Error::NotFound);
}

#[test]
fn from_rows_checks_invariants() {
    let ok = Repo::from_rows(
        vec![
            BookmarkRow { id: 3, title: None, url: url("https://a.example/") },
            BookmarkRow { id: 7, title: Some("b".to_string()), url: url("https://b.example/") },
        ],
        vec![Tag::new(2, "go".to_string())],
        vec![TagLink { bookmark_id: 7, tag_id: 2 }],
    );
    let mut repo = ok.unwrap();
    assert_eq!(repo.create(None, url("https://c.example/"), None).unwrap().id, 8);
    assert_eq!(repo.create_tag("rust".to_string()).unwrap().id, 3);

    let unsorted = Repo::from_rows(
        vec![
            BookmarkRow { id: 7, title: None, url: url("https://a.example/") },
            BookmarkRow { id: 3, title: None, url: url("https://b.example/") },
        ],
        vec![],
        vec![],
    );
    assert_eq!(unsorted.err().unwrap(), Error::InvalidRows);
    let same_name = Repo::from_rows(vec![], vec![Tag::new(1, "go".to_string()), Tag::new(2, "go".to_string())], vec![]);
    assert_eq!(same_name.err().unwrap(), Error::InvalidRows);
    let dangling = Repo::from_rows(vec![], vec![Tag::new(1, "go".to_string())], vec![TagLink { bookmark_id: 4, tag_id: 1 }]);
    assert_eq!(dangling.err().unwrap(), Error::InvalidRows);
}

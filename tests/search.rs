use bmarks::bookmarks::{Bookmark, BookmarkUrl};
use bmarks::error::Error;
use bmarks::search::{collect_hits, search};

fn bookmark(id: i64, title: Option<&str>, link: &str) -> Bookmark {
    Bookmark::new(id, title.map(|t| t.to_string()), BookmarkUrl::parse(link).unwrap(), None)
}

fn corpus() -> Vec<Bookmark> {
    vec![
        bookmark(1, Some("rust book"), "https://doc.rust-lang.org/book/"),
        bookmark(2, Some("go tour"), "https://go.dev/tour/"),
        bookmark(3, None, "https://example.com/untitled"),
    ]
}

fn ids(bookmarks: &[Bookmark]) -> Vec<i64> {
    bookmarks.iter().map(|b| b.id).collect()
}

#[test]
fn empty_query_returns_corpus_unchanged() {
    assert_eq!(ids(&search(corpus(), "", true).unwrap()), vec![1, 2, 3]);
    assert_eq!(ids(&search(corpus(), "", false).unwrap()), vec![1, 2, 3]);
}

#[test]
fn title_search_finds_match() {
    assert_eq!(ids(&search(corpus(), "rust", true).unwrap()), vec![1]);
}

#[test]
fn title_search_skips_untitled() {
    assert!(search(corpus(), "untitled", true).unwrap().is_empty());
}

#[test]
fn url_search_indexes_untitled() {
    assert_eq!(ids(&search(corpus(), "untitled", false).unwrap()), vec![3]);
}

#[test]
fn search_caps_results() {
    let many: Vec<Bookmark> =
        (1..=20).map(|i| bookmark(i, Some(&format!("foo item{i}")), "https://example.com/")).collect();
    assert_eq!(search(many, "foo", true).unwrap().len(), 15);
}

#[test]
fn search_rejects_ids_beyond_u32() {
    let big = vec![bookmark(1 << 40, Some("rust"), "https://example.com/")];
    assert_eq!(search(big, "rust", true).unwrap_err(), Error::IdOutOfRange);
    let neg = vec![bookmark(-1, Some("rust"), "https://example.com/")];
    assert_eq!(search(neg, "rust", true).unwrap_err(), Error::IdOutOfRange);
    let untitled_big = vec![bookmark(1 << 40, None, "https://example.com/")];
    assert!(search(untitled_big, "rust", true).unwrap().is_empty());
}

#[test]
fn collect_hits_follows_rank_and_skips_unknown() {
    let c = corpus();
    assert_eq!(ids(&collect_hits(&c, &vec![3, 9, 1], false)), vec![3, 1]);
    let many: Vec<Bookmark> = (1..=20).map(|i| bookmark(i, None, "https://example.com/")).collect();
    let ranks: Vec<u32> = (1..=20).rev().collect();
    assert_eq!(ids(&collect_hits(&many, &ranks, false)), (6..=20).rev().collect::<Vec<i64>>());
}

#[test]
fn title_search_hit_is_a_titled_bookmark() {
    let c = vec![bookmark(1, None, "https://a.example/"), bookmark(1, Some("rust"), "https://b.example/")];
    let found = search(c, "rust", true).unwrap();
    assert_eq!(found.len(), 1);
    assert_eq!(found[0].title.as_deref(), Some("rust"));
    assert_eq!(found[0].url.as_str(), "https://b.example/");
}

#[test]
fn collect_hits_by_title_skips_untitled() {
    let c = corpus();
    assert_eq!(ids(&collect_hits(&c, &vec![3, 1], true)), vec![1]);
}

#[test]
fn search_returns_every_match_up_to_the_limit() {
    let c = vec![
        bookmark(1, Some("rust book"), "https://a.example/"),
        bookmark(2, Some("go tour"), "https://b.example/"),
        bookmark(3, Some("rust nomicon"), "https://c.example/"),
    ];
    let mut found = ids(&search(c, "rust", true).unwrap());
    found.sort();
    assert_eq!(found, vec![1, 3]);
}

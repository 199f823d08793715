use bmarks::bookmarks::BookmarkUrl;
use bmarks::error::Error;
use bmarks::input::{EditRequest, TextInput};
use bmarks::settings::{Settings, Tagpacker};
use bmarks::tagpacker::{links_to_params, Link, LinkDate, Tag};

#[test]
fn url_is_normalized_by_the_parser() {
    assert_eq!(BookmarkUrl::parse("https://Example.COM").unwrap().as_str(), "https://example.com/");
    assert_eq!(BookmarkUrl::parse("https://example.com/a").unwrap().into_string(), "https://example.com/a");
}

#[test]
fn invalid_url_is_rejected() {
    assert_eq!(BookmarkUrl::parse("not a url").unwrap_err(), Error::InvalidUrl);
    assert_eq!(BookmarkUrl::parse("/relative/path").unwrap_err(), Error::InvalidUrl);
    assert_eq!(BookmarkUrl::parse("").unwrap_err(), Error::InvalidUrl);
}

#[test]
fn link_date_parses_remote_format() {
    let d = LinkDate::parse("Mar 14, 21").unwrap();
    assert_eq!((d.year, d.month, d.day), (2021, 3, 14));
    assert_eq!(LinkDate::parse("2021-03-14").unwrap_err(), Error::InvalidDate);
}

#[test]
fn text_input_edits() {
    let t = TextInput::new();
    let t = t.edit(EditRequest::InsertChar('a')).edit(EditRequest::InsertChar('c'));
    let t = t.edit(EditRequest::GoToPrevChar).edit(EditRequest::InsertChar('b'));
    assert_eq!(t.to_string(), "abc");
    assert_eq!(t.cursor, 2);
    let t = t.edit(EditRequest::DeletePrevChar);
    assert_eq!(t.to_string(), "ac");
    assert_eq!(t.cursor, 1);
    let t = t.edit(EditRequest::GoToEnd);
    assert_eq!(t.cursor, 2);
    let t = t.edit(EditRequest::GoToStart).edit(EditRequest::DeleteNextChar);
    assert_eq!(t.to_string(), "c");
    assert_eq!(t.cursor, 0);
}

#[test]
fn endpoint_names_user() {
    let s = Settings { tagpacker: Tagpacker { user_id: "u42".to_string() } };
    assert_eq!(s.links_endpoint(), "https://tagpacker.com/api/users/u42/links");
}

fn tag(name: &str) -> Tag {
    Tag { id: format!("id-{name}"), name: name.to_string(), url: String::new(), pack: None }
}

fn link(title: &str, source: &str, tags: Vec<Tag>) -> Link {
    Link {
        id: "l".to_string(),
        title: title.to_string(),
        description: None,
        source_url: BookmarkUrl::parse(source).unwrap(),
        is_private: false,
        thumbnail_source: None,
        thumbnail_source_url: None,
        thumbnail_id: None,
        thumbnail_url: None,
        url: String::new(),
        created_at: LinkDate::parse("Jan 02, 20").unwrap(),
        tags,
    }
}

#[test]
fn links_become_params_in_order() {
    let params = links_to_params(vec![
        link("one", "https://one.example/", vec![tag("go"), tag("rust")]),
        link("two", "https://two.example/", vec![]),
    ]);
    assert_eq!(params.len(), 2);
    assert_eq!(params[0].title.as_deref(), Some("one"));
    assert_eq!(params[0].url.as_str(), "https://one.example/");
    assert_eq!(params[0].tags, vec!["go".to_string(), "rust".to_string()]);
    assert_eq!(params[1].title.as_deref(), Some("two"));
    assert!(params[1].tags.is_empty());
}

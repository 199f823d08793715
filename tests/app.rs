use bmarks::app::{ActiveWindow, App, Mode, StatefulList};
use bmarks::bookmarks::{BookmarkUrl, NewBookmarkParams};
use bmarks::error::Error;
use bmarks::input::EditRequest;
use bmarks::store::Repo;

fn url(s: &str) -> BookmarkUrl {
    BookmarkUrl::parse(s).unwrap()
}

fn repo_with_titles(n: i64) -> Repo {
    let mut repo = Repo::new();
    repo.create_tag("go".to_string()).unwrap();
    repo.create_tag("rust".to_string()).unwrap();
    for i in 1..=n {
        repo.create(Some(format!("foo entry{i}")), url(&format!("https://example.com/{i}")), None).unwrap();
    }
    repo
}

fn type_text(app: &mut App, text: &str) {
    for c in text.chars() {
        app.add_char(EditRequest::InsertChar(c)).unwrap();
    }
}

#[test]
fn new_app_loads_everything() {
    let app = App::new(repo_with_titles(3));
    assert!(matches!(app.mode, Mode::Scrolling));
    assert_eq!(app.bookmarks.len(), 3);
    assert_eq!(app.bookmarks_items.items.len(), 3);
    assert_eq!(app.tags.len(), 2);
    assert!(app.tags_filter.is_empty());
    assert!(!app.is_should_quit());
}

#[test]
fn search_mode_typing_refilters() {
    let mut app = App::new(repo_with_titles(20));
    app.toggle_mode();
    match &app.mode {
        Mode::Search(p) => {
            assert_eq!(p.active_window, ActiveWindow::Title);
            assert!(p.title.value.is_empty());
            assert!(p.link.value.is_empty());
        }
        _ => panic!("expected search mode"),
    }
    app.bookmarks_items.next();
    type_text(&mut app, "foo");
    match &app.mode {
        Mode::Search(p) => assert_eq!(p.title.to_string(), "foo"),
        _ => panic!("expected search mode"),
    }
    assert_eq!(app.bookmarks_items.items.len(), 15);
    assert_eq!(app.bookmarks_items.selected, None);
    assert_eq!(app.bookmarks.len(), 20);
    app.toggle_mode();
    assert!(matches!(app.mode, Mode::Scrolling));
}

#[test]
fn create_mode_tag_selection_keeps_duplicates() {
    let mut app = App::new(repo_with_titles(0));
    app.toggle_creation_mode();
    app.change_active_window();
    app.change_active_window();
    app.select_next();
    app.select_next();
    match &app.mode {
        Mode::Create(p) => {
            assert_eq!(p.active_window, ActiveWindow::Tags);
            assert_eq!(p.tags_items.items[1].name, "rust");
        }
        _ => panic!("expected creation mode"),
    }
    assert_eq!(app.resolve_enter().unwrap(), None);
    assert_eq!(app.resolve_enter().unwrap(), None);
    match &app.mode {
        Mode::Create(p) => {
            assert_eq!(p.selected_tags.len(), 2);
            assert_eq!(p.selected_tags[0].name, "rust");
            assert_eq!(p.selected_tags[1].name, "rust");
        }
        _ => panic!("expected creation mode"),
    }
}

#[test]
fn toggle_mode_leaves_create_mode_alone() {
    let mut app = App::new(repo_with_titles(0));
    app.toggle_creation_mode();
    app.toggle_mode();
    assert!(matches!(app.mode, Mode::Create(_)));
    app.toggle_creation_mode();
    assert!(matches!(app.mode, Mode::Scrolling));
}

#[test]
fn active_window_cycles() {
    let mut app = App::new(repo_with_titles(0));
    app.toggle_mode();
    let mut seen = vec![];
    for _ in 0..4 {
        if let Mode::Search(p) = &app.mode {
            seen.push(p.active_window);
        }
        app.change_active_window();
    }
    assert_eq!(seen, vec![ActiveWindow::Title, ActiveWindow::Link, ActiveWindow::Tags, ActiveWindow::Title]);
}

#[test]
fn create_bookmark_from_buffers() {
    let mut app = App::new(repo_with_titles(1));
    app.toggle_creation_mode();
    type_text(&mut app, "new one");
    app.change_active_window();
    type_text(&mut app, "https://new.example/x");
    assert_eq!(app.resolve_enter().unwrap(), None);
    assert!(matches!(app.mode, Mode::Scrolling));
    assert_eq!(app.bookmarks.len(), 2);
    assert_eq!(app.bookmarks[1].title.as_deref(), Some("new one"));
    assert_eq!(app.bookmarks[1].url.as_str(), "https://new.example/x");
}

#[test]
fn create_with_invalid_link_stays_in_create_mode() {
    let mut app = App::new(repo_with_titles(1));
    app.toggle_creation_mode();
    app.change_active_window();
    type_text(&mut app, "not a url");
    assert_eq!(app.resolve_enter().unwrap_err(), Error::InvalidUrl);
    assert!(matches!(app.mode, Mode::Create(_)));
    assert_eq!(app.bookmarks.len(), 1);
}

#[test]
fn search_enter_adds_tag_to_filter() {
    let mut repo = repo_with_titles(2);
    let rust = repo.get_tag_by_name("rust".to_string()).unwrap();
    repo.create(Some("tagged".to_string()), url("https://t.example/"), Some(vec![rust])).unwrap();
    let mut app = App::new(repo);
    app.toggle_mode();
    app.change_active_window();
    app.change_active_window();
    app.select_next();
    app.select_next();
    assert_eq!(app.resolve_enter().unwrap(), None);
    assert_eq!(app.tags_filter.len(), 1);
    assert_eq!(app.bookmarks.len(), 1);
    assert_eq!(app.bookmarks[0].title.as_deref(), Some("tagged"));
    app.reset();
    assert!(app.tags_filter.is_empty());
    assert_eq!(app.bookmarks.len(), 3);
    assert!(matches!(app.mode, Mode::Search(_)));
}

#[test]
fn scrolling_enter_hands_back_url_and_delete_removes() {
    let mut app = App::new(repo_with_titles(3));
    assert_eq!(app.resolve_enter().unwrap(), None);
    app.select_next();
    app.select_next();
    assert_eq!(app.resolve_enter().unwrap().as_deref(), Some("https://example.com/2"));
    app.on_delete();
    assert_eq!(app.bookmarks.len(), 2);
    assert_eq!(app.repo().bookmark_rows().len(), 2);
    assert_eq!(app.bookmarks_items.selected, None);
}

#[test]
fn delete_outside_scrolling_does_nothing() {
    let mut app = App::new(repo_with_titles(2));
    app.select_next();
    app.toggle_mode();
    app.on_delete();
    assert_eq!(app.bookmarks.len(), 2);
}

#[test]
fn sync_persists_and_reloads() {
    let mut app = App::new(repo_with_titles(1));
    let items = vec![NewBookmarkParams::new(Some("remote".to_string()), url("https://r.example/"), vec!["rust".to_string(), "web".to_string()])];
    app.sync_bmarks(items).unwrap();
    assert_eq!(app.bookmarks.len(), 2);
    assert_eq!(app.tags.len(), 3);
    assert_eq!(app.tags_items.items.len(), 3);
}

#[test]
fn left_clears_selection_in_scrolling() {
    let mut app = App::new(repo_with_titles(2));
    app.select_next();
    assert_eq!(app.bookmarks_items.selected, Some(0));
    app.on_left().unwrap();
    assert_eq!(app.bookmarks_items.selected, None);
}

#[test]
fn quit_and_help_flags() {
    let mut app = App::new(repo_with_titles(0));
    app.toggle_help_render();
    assert!(app.render_help);
    app.quit();
    assert!(app.is_should_quit());
}

#[test]
fn stateful_list_wraps() {
    let mut l = StatefulList::with_items(vec![1, 2, 3]);
    l.previous();
    assert_eq!(l.selected, Some(0));
    l.previous();
    assert_eq!(l.selected, Some(2));
    l.next();
    assert_eq!(l.selected, Some(0));
    l.next();
    assert_eq!(l.selected, Some(1));
    l.unselect();
    assert_eq!(l.selected, None);
    let mut empty: StatefulList<i32> = StatefulList::with_items(vec![]);
    empty.next();
    assert_eq!(empty.selected, None);
}

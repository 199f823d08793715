//! The interaction state machine: modes, focus, selections, and the
//! intents that move between them.
use vstd::prelude::*;
use vstd::string::StringExecFns;

use crate::bookmarks::{parsed_url, Bookmark, BookmarkUrl, NewBookmarkParams};
use crate::error::Error;
use crate::input::{clamp, edited, EditRequest, TextInput};
use crate::search::{
    lemma_search_fails_equiv, lemma_search_outcome_equiv, same_bookmarks, search, search_fails,
    search_outcome,
};
use crate::store::{distinct_ids, shows, Repo, RepoState};
use crate::tags::{clone_tags, Tag};

verus! {

/// The input field that has focus in the search and creation modes.
#[derive(Debug, Clone, Copy, PartialEq, Eq, Structural)]
pub enum ActiveWindow {
    Title,
    Link,
    Tags,
}

impl ActiveWindow {
    /// The next field in the cycle Title, Link, Tags, Title.
    pub open spec fn next_spec(self) -> ActiveWindow {
        match self {
            ActiveWindow::Title => ActiveWindow::Link,
            ActiveWindow::Link => ActiveWindow::Tags,
            ActiveWindow::Tags => ActiveWindow::Title,
        }
    }

    /// The field after this one.
    pub fn next(self) -> (r: ActiveWindow)
        ensures
            r == self.next_spec(),
    {
        match self {
            ActiveWindow::Title => ActiveWindow::Link,
            ActiveWindow::Link => ActiveWindow::Tags,
            ActiveWindow::Tags => ActiveWindow::Title,
        }
    }
}

impl Default for ActiveWindow {
    fn default() -> (r: ActiveWindow)
        ensures
            r == ActiveWindow::Title,
    {
        ActiveWindow::Title
    }
}

/// A list with an optional selection cursor.
#[derive(Debug)]
pub struct StatefulList<T> {
    pub selected: Option<usize>,
    pub items: Vec<T>,
}

impl<T> StatefulList<T> {
    /// The selected item; `None` where nothing, or nothing in range, is selected.
    pub open spec fn selection(self) -> Option<T> {
        match self.selected {
            Some(i) => if i < self.items@.len() {
                Some(self.items@[i as int])
            } else {
                None
            },
            None => None,
        }
    }

    /// A list of `items` with nothing selected.
    pub fn with_items(items: Vec<T>) -> (r: StatefulList<T>)
        ensures
            r.items == items,
            r.selected is None,
    {
        StatefulList { selected: None, items }
    }

    /// Where `next` puts the selection of a non-empty list.
    pub open spec fn after_next(self) -> usize {
        match self.selected {
            Some(i) => if i + 1 >= self.items@.len() {
                0usize
            } else {
                (i + 1) as usize
            },
            None => 0usize,
        }
    }

    /// Where `previous` puts the selection of a non-empty list.
    pub open spec fn after_previous(self) -> usize {
        match self.selected {
            Some(i) => if i == 0 {
                (self.items@.len() - 1) as usize
            } else {
                (i - 1) as usize
            },
            None => 0usize,
        }
    }

    /// Moves the selection one down, from the last item to the first; with
    /// nothing selected, selects the first. An empty list is left alone.
    pub fn next(&mut self)
        ensures
            final(self).items == old(self).items,
            old(self).items@.len() == 0 ==> final(self).selected == old(self).selected,
            old(self).items@.len() > 0 ==> final(self).selected == Some(old(self).after_next()),
    {
        if self.items.len() == 0 {
            return;
        }
        let i = match self.selected {
            Some(i) => if i >= self.items.len() - 1 {
                0
            } else {
                i + 1
            },
            None => 0,
        };
        self.selected = Some(i);
    }

    /// Moves the selection one up, from the first item to the last; with
    /// nothing selected, selects the first. An empty list is left alone.
    pub fn previous(&mut self)
        ensures
            final(self).items == old(self).items,
            old(self).items@.len() == 0 ==> final(self).selected == old(self).selected,
            old(self).items@.len() > 0 ==> final(self).selected == Some(old(self).after_previous()),
    {
        if self.items.len() == 0 {
            return;
        }
        let i = match self.selected {
            Some(i) => if i == 0 {
                self.items.len() - 1
            } else {
                i - 1
            },
            None => 0,
        };
        self.selected = Some(i);
    }

    /// The item selected, where one in range is.
    pub fn selected_item(&self) -> (r: Option<&T>)
        ensures
            r == match self.selection() {
                Some(t) => Some(&t),
                None => None,
            },
    {
        match self.selected {
            Some(i) => if i < self.items.len() {
                Some(&self.items[i])
            } else {
                None
            },
            None => None,
        }
    }

    /// Whether the list is as `o` after `next`.
    pub open spec fn is_next_of(self, o: StatefulList<T>) -> bool {
        &&& self.items == o.items
        &&& self.selected == if o.items@.len() == 0 { o.selected } else { Some(o.after_next()) }
    }

    /// Whether the list is as `o` after `previous`.
    pub open spec fn is_previous_of(self, o: StatefulList<T>) -> bool {
        &&& self.items == o.items
        &&& self.selected == if o.items@.len() == 0 { o.selected } else { Some(o.after_previous()) }
    }

    /// Clears the selection.
    pub fn unselect(&mut self)
        ensures
            final(self).items == old(self).items,
            final(self).selected is None,
    {
        self.selected = None;
    }
}

impl Clone for StatefulList<Tag> {
    fn clone(&self) -> (r: StatefulList<Tag>)
        ensures
            r.selected == self.selected,
            r.items@ == self.items@,
    {
        StatefulList { selected: self.selected, items: clone_tags(&self.items) }
    }
}

impl<T> Default for StatefulList<T> {
    fn default() -> (r: StatefulList<T>)
        ensures
            r.selected is None,
            r.items@.len() == 0,
    {
        StatefulList { selected: None, items: Vec::new() }
    }
}

/// What the search mode edits.
#[derive(Debug)]
pub struct SearchingParams {
    pub active_window: ActiveWindow,
    pub title: TextInput,
    pub link: TextInput,
    pub tags: Option<Vec<Tag>>,
}

impl SearchingParams {
    /// Title field active, both buffers empty.
    pub open spec fn is_fresh(self) -> bool {
        &&& self.active_window == ActiveWindow::Title
        &&& self.title.value@.len() == 0
        &&& self.title.cursor == 0
        &&& self.link.value@.len() == 0
        &&& self.link.cursor == 0
        &&& self.tags is None
    }

    /// Fresh search parameters.
    pub fn new() -> (r: SearchingParams)
        ensures
            r.is_fresh(),
    {
        SearchingParams {
            active_window: ActiveWindow::Title,
            title: TextInput::new(),
            link: TextInput::new(),
            tags: None,
        }
    }
}

/// What the creation mode edits: the new bookmark's title and link, the
/// tags it may get and those chosen so far.
#[derive(Debug)]
pub struct CreationParams {
    pub active_window: ActiveWindow,
    pub title: TextInput,
    pub link: TextInput,
    pub tags_items: StatefulList<Tag>,
    pub selected_tags: Vec<Tag>,
}

impl CreationParams {
    /// Title field active, both buffers empty, nothing chosen, `tags` on offer.
    pub open spec fn is_fresh(self, tags: Seq<Tag>) -> bool {
        &&& self.active_window == ActiveWindow::Title
        &&& self.title.value@.len() == 0
        &&& self.title.cursor == 0
        &&& self.link.value@.len() == 0
        &&& self.link.cursor == 0
        &&& self.tags_items.items@ == tags
        &&& self.tags_items.selected is None
        &&& self.selected_tags@.len() == 0
    }

    /// Fresh creation parameters offering `tags`.
    pub fn new(tags: Vec<Tag>) -> (r: CreationParams)
        ensures
            r.is_fresh(tags@),
    {
        CreationParams {
            active_window: ActiveWindow::Title,
            title: TextInput::new(),
            link: TextInput::new(),
            tags_items: StatefulList::with_items(tags),
            selected_tags: Vec::new(),
        }
    }
}

/// The interaction mode, with what each mode edits.
#[derive(Debug)]
pub enum Mode {
    Search(SearchingParams),
    Create(CreationParams),
    Scrolling,
}

impl Default for Mode {
    fn default() -> (r: Mode)
        ensures
            r is Scrolling,
    {
        Mode::Scrolling
    }
}

} // verus!

verus! {

/// Whether `bs` is what `Repo::fetch_all` gives for store `s` and tag filter `filter`.
pub open spec fn lists(bs: Seq<Bookmark>, s: RepoState, filter: Seq<Tag>) -> bool {
    &&& bs.len() == s.selected(filter).len()
    &&& forall|i: int| 0 <= i < bs.len() ==> shows(s, #[trigger] bs[i], s.selected(filter)[i])
}

proof fn lemma_lists_same(a: Seq<Bookmark>, b: Seq<Bookmark>, s: RepoState, filter: Seq<Tag>)
    requires
        lists(b, s, filter),
        same_bookmarks(a, b),
    ensures
        lists(a, s, filter),
{
    assert forall|i: int| 0 <= i < a.len() implies shows(s, #[trigger] a[i], s.selected(filter)[i]) by {
        assert(a[i].same_as(b[i]));
    }
}

fn clone_bookmarks(v: &Vec<Bookmark>) -> (r: Vec<Bookmark>)
    ensures
        same_bookmarks(r@, v@),
{
    let mut r: Vec<Bookmark> = Vec::new();
    let mut i: usize = 0;
    while i < v.len()
        invariant
            i <= v@.len(),
            r@.len() == i,
            forall|k: int| 0 <= k < i ==> (#[trigger] r@[k]).same_as(v@[k]),
        decreases v@.len() - i,
    {
        r.push(v[i].clone());
        i = i + 1;
    }
    r
}

/// Whether buffer `after` is buffer `before` after edit `req`.
pub open spec fn edit_of(before: TextInput, after: TextInput, req: EditRequest) -> bool {
    let k = clamp(before.cursor as int, before.value@.len() as int);
    &&& (after.value@, after.cursor as int) == edited(before.value@, k, req)
    &&& after.cursor <= after.value@.len()
    &&& req matches EditRequest::InsertChar(c) ==> after.value@ == before.value@.take(k).push(c)
        + before.value@.skip(k) && after.cursor == k + 1
}

/// The text that edit `req` makes of buffer `t`.
pub open spec fn edited_text(t: TextInput, req: EditRequest) -> Seq<char> {
    edited(t.value@, clamp(t.cursor as int, t.value@.len() as int), req).0
}

/// The session: what is loaded from the store, the active tag filter, the
/// interaction mode, and the store itself.
pub struct App {
    pub bookmarks: Vec<Bookmark>,
    pub bookmarks_items: StatefulList<Bookmark>,
    pub tags: Vec<Tag>,
    pub tags_items: StatefulList<Tag>,
    pub mode: Mode,
    pub tags_filter: Vec<Tag>,
    pub render_help: bool,
    pub should_quit: bool,
    pub repo: Repo,
}

impl App {
    /// The content of the store.
    pub open spec fn store(self) -> RepoState {
        self.repo@
    }

    /// Whether the session was asked to end.
    pub open spec fn quitting(self) -> bool {
        self.should_quit
    }

    /// The bookmark lists show the store under the active filter, nothing
    /// selected in them.
    pub open spec fn bookmarks_loaded(self) -> bool {
        &&& lists(self.bookmarks@, self.store(), self.tags_filter@)
        &&& lists(self.bookmarks_items.items@, self.store(), self.tags_filter@)
        &&& self.bookmarks_items.selected is None
    }

    /// The tag lists show the tag table, nothing selected in them.
    pub open spec fn tags_loaded(self) -> bool {
        &&& self.tags@ == self.store().tags
        &&& self.tags_items.items@ == self.store().tags
        &&& self.tags_items.selected is None
    }

    /// Everything but the loaded bookmark lists is as in `o`.
    pub open spec fn keeps_all_but_bookmarks(self, o: App) -> bool {
        &&& self.tags == o.tags
        &&& self.tags_items == o.tags_items
        &&& self.mode == o.mode
        &&& self.tags_filter == o.tags_filter
        &&& self.render_help == o.render_help
        &&& self.quitting() == o.quitting()
        &&& self.store() == o.store()
    }

    /// Nothing observable differs from `o`.
    pub open spec fn unchanged(self, o: App) -> bool {
        &&& self.keeps_all_but_bookmarks(o)
        &&& self.bookmarks == o.bookmarks
        &&& self.bookmarks_items == o.bookmarks_items
    }

    /// Whether the session `self` and result `r` are what text edit `req`
    /// makes of session `o`. In search mode, with the title or link field
    /// active, the buffer is edited and the loaded bookmarks searched anew by
    /// that field; where the search fails nothing changes. In creation mode,
    /// with the title or link field active, the buffer is edited. Otherwise
    /// nothing changes.
    pub open spec fn after_edit(self, o: App, req: EditRequest, r: Result<(), Error>) -> bool {
        match o.mode {
            Mode::Search(p) => if p.active_window == ActiveWindow::Tags {
                r is Ok && self == o
            } else {
                let for_titles = p.active_window == ActiveWindow::Title;
                let before = if for_titles { p.title } else { p.link };
                let text = edited_text(before, req);
                &&& r is Err <==> search_fails(o.bookmarks@, text, for_titles)
                &&& r matches Err(e) ==> e == Error::IdOutOfRange && self == o
                &&& r is Ok ==> {
                    &&& self.mode matches Mode::Search(q) && q.active_window == p.active_window && q.tags == p.tags
                        && (if for_titles {
                        edit_of(p.title, q.title, req) && q.link == p.link
                    } else {
                        edit_of(p.link, q.link, req) && q.title == p.title
                    })
                    &&& self.bookmarks_items.selected is None
                    &&& search_outcome(o.bookmarks@, text, for_titles, self.bookmarks_items.items@)
                    &&& self == (App { mode: self.mode, bookmarks_items: self.bookmarks_items, ..o })
                }
            },
            Mode::Create(p) => if p.active_window == ActiveWindow::Tags {
                r is Ok && self == o
            } else {
                &&& r is Ok
                &&& self.mode matches Mode::Create(q) && q.active_window == p.active_window
                    && q.tags_items == p.tags_items && q.selected_tags == p.selected_tags && (if p.active_window
                    == ActiveWindow::Title {
                    edit_of(p.title, q.title, req) && q.link == p.link
                } else {
                    edit_of(p.link, q.link, req) && q.title == p.title
                })
                &&& self == (App { mode: self.mode, ..o })
            },
            Mode::Scrolling => r is Ok && self == o,
        }
    }

    /// Whether the session `self` and result `r` are what the confirm
    /// intent makes of session `o`:
    /// - search mode, a tag selected: the tag joins the filter and the
    ///   bookmarks are reloaded under it;
    /// - creation mode, title or link field active: the link must parse as a
    ///   URL; a bookmark with that URL, the title buffer as title and the
    ///   chosen tags is created, everything is reloaded, and the mode goes
    ///   back to scrolling; where that fails nothing changes;
    /// - creation mode, tags field active, a tag selected: the tag is
    ///   appended to the chosen tags, also where it is there already;
    /// - scrolling mode, a bookmark selected: its URL comes back, to be opened;
    /// - otherwise nothing changes.
    pub open spec fn after_enter(self, o: App, r: Result<Option<String>, Error>) -> bool {
        match o.mode {
            Mode::Search(_) => match o.tags_items.selection() {
                Some(t) => {
                    &&& r == Ok::<Option<String>, Error>(None)
                    &&& self.tags_filter@ == o.tags_filter@.push(t)
                    &&& self.bookmarks_loaded()
                    &&& self == (App {
                        bookmarks: self.bookmarks,
                        bookmarks_items: self.bookmarks_items,
                        tags_filter: self.tags_filter,
                        ..o
                    })
                },
                None => r == Ok::<Option<String>, Error>(None) && self == o,
            },
            Mode::Create(p) => if p.active_window == ActiveWindow::Tags {
                &&& r == Ok::<Option<String>, Error>(None)
                &&& match p.tags_items.selection() {
                    Some(t) => {
                        &&& self.mode matches Mode::Create(q) && q.selected_tags@ == p.selected_tags@.push(t)
                            && q.active_window == p.active_window && q.title == p.title && q.link == p.link
                            && q.tags_items == p.tags_items
                        &&& self == (App { mode: self.mode, ..o })
                    },
                    None => self == o,
                }
            } else {
                let s = o.store();
                let given = p.selected_tags@;
                &&& parsed_url(p.link.value@) is None ==> r == Err::<Option<String>, Error>(Error::InvalidUrl)
                &&& parsed_url(p.link.value@) is Some ==> {
                    &&& s.next_bookmark_id == i64::MAX ==> r == Err::<Option<String>, Error>(Error::IdsExhausted)
                    &&& s.next_bookmark_id < i64::MAX && !s.all_known(given) ==> r == Err::<Option<String>, Error>(Error::NotFound)
                    &&& s.next_bookmark_id < i64::MAX && s.all_known(given) && !distinct_ids(given)
                        ==> r == Err::<Option<String>, Error>(Error::DuplicateLink)
                    &&& r is Ok <==> s.next_bookmark_id < i64::MAX && s.all_known(given) && distinct_ids(given)
                }
                &&& r is Err ==> self.unchanged(o)
                &&& r is Ok ==> {
                    let row = self.store().bookmarks.last();
                    &&& r == Ok::<Option<String>, Error>(None)
                    &&& row.id == s.next_bookmark_id
                    &&& row.title == Some(p.title.value)
                    &&& parsed_url(p.link.value@) == Some(row.url@)
                    &&& self.store() == s.with_row(row, given)
                    &&& self.mode is Scrolling
                    &&& self.bookmarks_loaded()
                    &&& self.tags_loaded()
                    &&& self.tags_filter == o.tags_filter
                    &&& self.render_help == o.render_help
                    &&& self.quitting() == o.quitting()
                }
            },
            Mode::Scrolling => {
                &&& self == o
                &&& match o.bookmarks_items.selection() {
                    Some(b) => r matches Ok(Some(u)) && u@ == b.url@,
                    None => r == Ok::<Option<String>, Error>(None),
                }
            },
        }
    }

    /// The bookmarks the store shows for `filter`, twice (once for the list
    /// on screen), and its tags, twice, nothing selected.
    pub fn refresh_state(repo: &Repo, filter_tags: Vec<Tag>) -> (r: (
        Vec<Bookmark>,
        StatefulList<Bookmark>,
        Vec<Tag>,
        StatefulList<Tag>,
    ))
        ensures
            lists(r.0@, repo@, filter_tags@),
            lists(r.1.items@, repo@, filter_tags@),
            r.1.selected is None,
            r.2@ == repo@.tags,
            r.3.items@ == repo@.tags,
            r.3.selected is None,
    {
        let ghost filter = filter_tags@;
        let bookmarks = repo.fetch_all(filter_tags);
        let items = clone_bookmarks(&bookmarks);
        proof {
            lemma_lists_same(items@, bookmarks@, repo@, filter);
        }
        let tags = repo.fetch_all_tags();
        let tag_items = clone_tags(&tags);
        (bookmarks, StatefulList::with_items(items), tags, StatefulList::with_items(tag_items))
    }

    /// A session on `repo`: everything loaded, no filter, scrolling mode.
    pub fn new(repo: Repo) -> (r: App)
        ensures
            r.store() == repo@,
            r.tags_filter@.len() == 0,
            r.bookmarks_loaded(),
            r.tags_loaded(),
            r.mode is Scrolling,
            !r.render_help,
            !r.quitting(),
    {
        let filter: Vec<Tag> = Vec::new();
        let (bookmarks, bookmarks_items, tags, tags_items) = App::refresh_state(&repo, Vec::new());
        App {
            bookmarks,
            bookmarks_items,
            tags,
            tags_items,
            mode: Mode::Scrolling,
            tags_filter: filter,
            render_help: false,
            should_quit: false,
            repo,
        }
    }

    /// The store.
    pub fn repo(&self) -> (r: &Repo)
        ensures
            r@ == self.store(),
    {
        &self.repo
    }

    /// Search mode goes back to scrolling, scrolling goes to a fresh search
    /// mode, and creation mode is left as it is.
    pub fn toggle_mode(&mut self)
        ensures
            old(self).mode is Search ==> *final(self) == (App { mode: Mode::Scrolling, ..*old(self) }),
            old(self).mode is Create ==> *final(self) == *old(self),
            old(self).mode is Scrolling ==> {
                &&& final(self).mode matches Mode::Search(p) && p.is_fresh()
                &&& *final(self) == (App { mode: final(self).mode, ..*old(self) })
            },
    {
        match &self.mode {
            Mode::Search(_) => {
                self.mode = Mode::Scrolling;
            },
            Mode::Create(_) => {},
            Mode::Scrolling => {
                self.mode = Mode::Search(SearchingParams::new());
            },
        }
    }

    /// Creation mode goes back to scrolling; any other mode goes to a fresh
    /// creation mode that offers the loaded tags.
    pub fn toggle_creation_mode(&mut self)
        ensures
            old(self).mode is Create ==> *final(self) == (App { mode: Mode::Scrolling, ..*old(self) }),
            !(old(self).mode is Create) ==> {
                &&& final(self).mode matches Mode::Create(p) && p.is_fresh(old(self).tags@)
                &&& *final(self) == (App { mode: final(self).mode, ..*old(self) })
            },
    {
        if let Mode::Create(_) = &self.mode {
            self.mode = Mode::Scrolling;
        } else {
            self.mode = Mode::Create(CreationParams::new(clone_tags(&self.tags)));
        }
    }

    /// Moves the focus to the next field, Title, Link, Tags and round again,
    /// in the search and creation modes.
    pub fn change_active_window(&mut self)
        ensures
            old(self).mode matches Mode::Search(p) ==> *final(self) == (App {
                mode: Mode::Search(SearchingParams { active_window: p.active_window.next_spec(), ..p }),
                ..*old(self)
            }),
            old(self).mode matches Mode::Create(p) ==> *final(self) == (App {
                mode: Mode::Create(CreationParams { active_window: p.active_window.next_spec(), ..p }),
                ..*old(self)
            }),
            old(self).mode is Scrolling ==> *final(self) == *old(self),
    {
        match &mut self.mode {
            Mode::Search(p) => {
                p.active_window = p.active_window.next();
            },
            Mode::Create(p) => {
                p.active_window = p.active_window.next();
            },
            Mode::Scrolling => {},
        }
    }

    /// Clears the tag filter and reloads bookmarks and tags; the mode stays.
    pub fn reset(&mut self)
        ensures
            final(self).tags_filter@.len() == 0,
            final(self).bookmarks_loaded(),
            final(self).tags_loaded(),
            final(self).mode == old(self).mode,
            final(self).store() == old(self).store(),
            final(self).render_help == old(self).render_help,
            final(self).quitting() == old(self).quitting(),
    {
        let filter: Vec<Tag> = Vec::new();
        let (bookmarks, bookmarks_items, tags, tags_items) = App::refresh_state(&self.repo, Vec::new());
        self.bookmarks = bookmarks;
        self.bookmarks_items = bookmarks_items;
        self.tags = tags;
        self.tags_items = tags_items;
        self.tags_filter = filter;
    }

    /// Stores `items`, fetched from the remote source, in one batch, then
    /// reloads bookmarks (under the active filter) and tags. Where the batch
    /// fails nothing changes.
    pub fn sync_bmarks(&mut self, items: Vec<NewBookmarkParams>) -> (r: Result<(), Error>)
        ensures
            r is Err <==> old(self).store().add_items(items@) is Err,
            r matches Err(e) ==> old(self).store().add_items(items@) == Err::<RepoState, Error>(e)
                && final(self).unchanged(*old(self)),
            r is Ok ==> {
                &&& final(self).store() == old(self).store().add_items(items@)->Ok_0
                &&& final(self).bookmarks_loaded()
                &&& final(self).tags_loaded()
                &&& final(self).mode == old(self).mode
                &&& final(self).tags_filter == old(self).tags_filter
                &&& final(self).render_help == old(self).render_help
                &&& final(self).quitting() == old(self).quitting()
            },
    {
        match self.repo.batch_create(items) {
            Ok(_) => {},
            Err(e) => {
                return Err(e);
            },
        }
        let (bookmarks, bookmarks_items, tags, tags_items) = App::refresh_state(&self.repo, clone_tags(&self.tags_filter));
        self.bookmarks = bookmarks;
        self.bookmarks_items = bookmarks_items;
        self.tags = tags;
        self.tags_items = tags_items;
        Ok(())
    }

    /// In scrolling mode, deletes the selected bookmark and reloads the
    /// bookmarks under the active filter; otherwise does nothing.
    pub fn on_delete(&mut self)
        ensures
            old(self).mode is Scrolling ==> (old(self).bookmarks_items.selection() matches Some(b) ==> {
                &&& final(self).store() == old(self).store().without_bookmark(b.id)
                &&& final(self).bookmarks_loaded()
                &&& final(self).tags == old(self).tags
                &&& final(self).tags_items == old(self).tags_items
                &&& final(self).mode == old(self).mode
                &&& final(self).tags_filter == old(self).tags_filter
                &&& final(self).render_help == old(self).render_help
                &&& final(self).quitting() == old(self).quitting()
            }),
            !(old(self).mode is Scrolling && old(self).bookmarks_items.selection() is Some)
                ==> *final(self) == *old(self),
    {
        if let Mode::Scrolling = &self.mode {
            let id = match self.bookmarks_items.selected_item() {
                Some(b) => b.id,
                None => {
                    return;
                },
            };
            self.repo.delete(id);
            let (bookmarks, bookmarks_items, _, _) = App::refresh_state(&self.repo, clone_tags(&self.tags_filter));
            self.bookmarks = bookmarks;
            self.bookmarks_items = bookmarks_items;
        }
    }

    /// Applies text edit `req` to the active buffer; see `after_edit`.
    pub fn add_char(&mut self, req: EditRequest) -> (r: Result<(), Error>)
        ensures
            final(self).after_edit(*old(self), req, r),
    {
        match &self.mode {
            Mode::Search(p) => {
                if p.active_window == ActiveWindow::Tags {
                    return Ok(());
                }
                let for_titles = p.active_window == ActiveWindow::Title;
                let buffer = if for_titles {
                    p.title.edit(req)
                } else {
                    p.link.edit(req)
                };
                let corpus = clone_bookmarks(&self.bookmarks);
                proof {
                    assert(same_bookmarks(self.bookmarks@, corpus@)) by {
                        assert forall|i: int| 0 <= i < self.bookmarks@.len() implies (#[trigger] self.bookmarks@[i]).same_as(corpus@[i]) by {
                            assert(corpus@[i].same_as(self.bookmarks@[i]));
                        }
                    }
                    lemma_search_fails_equiv(self.bookmarks@, corpus@, buffer.value@, for_titles);
                }
                let found = match search(corpus, buffer.value.as_str(), for_titles) {
                    Ok(v) => v,
                    Err(e) => {
                        return Err(e);
                    },
                };
                proof {
                    lemma_search_outcome_equiv(self.bookmarks@, corpus@, buffer.value@, for_titles, found@);
                }
                if let Mode::Search(q) = &mut self.mode {
                    if for_titles {
                        q.title = buffer;
                    } else {
                        q.link = buffer;
                    }
                }
                self.bookmarks_items = StatefulList::with_items(found);
                Ok(())
            },
            Mode::Create(p) => {
                if p.active_window == ActiveWindow::Tags {
                    return Ok(());
                }
                let for_titles = p.active_window == ActiveWindow::Title;
                let buffer = if for_titles {
                    p.title.edit(req)
                } else {
                    p.link.edit(req)
                };
                if let Mode::Create(q) = &mut self.mode {
                    if for_titles {
                        q.title = buffer;
                    } else {
                        q.link = buffer;
                    }
                }
                Ok(())
            },
            Mode::Scrolling => Ok(()),
        }
    }

    /// Moves down the list that has focus: the tag list in the search and
    /// creation modes when the tags field is active, the bookmark list in
    /// scrolling mode.
    pub fn select_next(&mut self)
        ensures
            old(self).mode matches Mode::Search(p) ==> if p.active_window == ActiveWindow::Tags {
                final(self).tags_items.is_next_of(old(self).tags_items)
                    && *final(self) == (App { tags_items: final(self).tags_items, ..*old(self) })
            } else {
                *final(self) == *old(self)
            },
            old(self).mode matches Mode::Create(p) ==> if p.active_window == ActiveWindow::Tags {
                &&& final(self).mode matches Mode::Create(q) && q.tags_items.is_next_of(p.tags_items)
                    && q == (CreationParams { tags_items: q.tags_items, ..p })
                &&& *final(self) == (App { mode: final(self).mode, ..*old(self) })
            } else {
                *final(self) == *old(self)
            },
            old(self).mode is Scrolling ==> final(self).bookmarks_items.is_next_of(old(self).bookmarks_items)
                && *final(self) == (App { bookmarks_items: final(self).bookmarks_items, ..*old(self) }),
    {
        match &mut self.mode {
            Mode::Search(p) => {
                if p.active_window == ActiveWindow::Tags {
                    self.tags_items.next();
                }
            },
            Mode::Create(p) => {
                if p.active_window == ActiveWindow::Tags {
                    p.tags_items.next();
                }
            },
            Mode::Scrolling => {
                self.bookmarks_items.next();
            },
        }
    }

    /// Moves up the list that has focus; see `select_next`.
    pub fn select_previous(&mut self)
        ensures
            old(self).mode matches Mode::Search(p) ==> if p.active_window == ActiveWindow::Tags {
                final(self).tags_items.is_previous_of(old(self).tags_items)
                    && *final(self) == (App { tags_items: final(self).tags_items, ..*old(self) })
            } else {
                *final(self) == *old(self)
            },
            old(self).mode matches Mode::Create(p) ==> if p.active_window == ActiveWindow::Tags {
                &&& final(self).mode matches Mode::Create(q) && q.tags_items.is_previous_of(p.tags_items)
                    && q == (CreationParams { tags_items: q.tags_items, ..p })
                &&& *final(self) == (App { mode: final(self).mode, ..*old(self) })
            } else {
                *final(self) == *old(self)
            },
            old(self).mode is Scrolling ==> final(self).bookmarks_items.is_previous_of(
                old(self).bookmarks_items,
            ) && *final(self) == (App { bookmarks_items: final(self).bookmarks_items, ..*old(self) }),
    {
        match &mut self.mode {
            Mode::Search(p) => {
                if p.active_window == ActiveWindow::Tags {
                    self.tags_items.previous();
                }
            },
            Mode::Create(p) => {
                if p.active_window == ActiveWindow::Tags {
                    p.tags_items.previous();
                }
            },
            Mode::Scrolling => {
                self.bookmarks_items.previous();
            },
        }
    }

    /// Left: clears the selection of the tag list (search mode, tags field
    /// active) or of the bookmark list (scrolling mode); in search mode with
    /// a text field active it moves that field's cursor left.
    pub fn on_left(&mut self) -> (r: Result<(), Error>)
        ensures
            old(self).mode matches Mode::Search(p) ==> if p.active_window == ActiveWindow::Tags {
                r is Ok && final(self).tags_items.items == old(self).tags_items.items
                    && final(self).tags_items.selected is None
                    && *final(self) == (App { tags_items: final(self).tags_items, ..*old(self) })
            } else {
                final(self).after_edit(*old(self), EditRequest::GoToPrevChar, r)
            },
            old(self).mode is Scrolling ==> r is Ok && final(self).bookmarks_items.items
                == old(self).bookmarks_items.items && final(self).bookmarks_items.selected is None
                && *final(self) == (App { bookmarks_items: final(self).bookmarks_items, ..*old(self) }),
            old(self).mode is Create ==> r is Ok && *final(self) == *old(self),
    {
        match &self.mode {
            Mode::Search(p) => {
                if p.active_window == ActiveWindow::Tags {
                    self.tags_items.unselect();
                    Ok(())
                } else {
                    self.add_char(EditRequest::GoToPrevChar)
                }
            },
            Mode::Scrolling => {
                self.bookmarks_items.unselect();
                Ok(())
            },
            Mode::Create(_) => Ok(()),
        }
    }

    /// The confirm intent; see `after_enter`. A URL that comes back is for
    /// the caller to open.
    pub fn resolve_enter(&mut self) -> (r: Result<Option<String>, Error>)
        ensures
            final(self).after_enter(*old(self), r),
    {
        match &self.mode {
            Mode::Search(_) => {
                let t = match self.tags_items.selected_item() {
                    Some(t) => t.clone(),
                    None => {
                        return Ok(None);
                    },
                };
                self.tags_filter.push(t);
                let (bookmarks, bookmarks_items, _, _) = App::refresh_state(&self.repo, clone_tags(&self.tags_filter));
                self.bookmarks = bookmarks;
                self.bookmarks_items = bookmarks_items;
                Ok(None)
            },
            Mode::Create(p) => {
                if p.active_window == ActiveWindow::Tags {
                    let t = match p.tags_items.selected_item() {
                        Some(t) => t.clone(),
                        None => {
                            return Ok(None);
                        },
                    };
                    if let Mode::Create(q) = &mut self.mode {
                        q.selected_tags.push(t);
                    }
                    return Ok(None);
                }
                let title = p.title.value.clone();
                let chosen = clone_tags(&p.selected_tags);
                let url = match BookmarkUrl::parse(p.link.value.as_str()) {
                    Ok(u) => u,
                    Err(e) => {
                        return Err(e);
                    },
                };
                match self.repo.create(Some(title), url, Some(chosen)) {
                    Ok(_) => {},
                    Err(e) => {
                        return Err(e);
                    },
                }
                let (bookmarks, bookmarks_items, tags, tags_items) = App::refresh_state(&self.repo, clone_tags(&self.tags_filter));
                self.bookmarks = bookmarks;
                self.bookmarks_items = bookmarks_items;
                self.tags = tags;
                self.tags_items = tags_items;
                self.mode = Mode::Scrolling;
                Ok(None)
            },
            Mode::Scrolling => {
                match self.bookmarks_items.selected_item() {
                    Some(b) => Ok(Some(String::from_str(b.url.as_str()))),
                    None => Ok(None),
                }
            },
        }
    }

    /// Whether the session was asked to end.
    pub fn is_should_quit(&self) -> (r: bool)
        ensures
            r == self.quitting(),
    {
        self.should_quit
    }

    /// Asks the session to end.
    pub fn quit(&mut self)
        ensures
            *final(self) == (App { should_quit: true, ..*old(self) }),
    {
        self.should_quit = true;
    }

    /// Shows or hides the help panel.
    pub fn toggle_help_render(&mut self)
        ensures
            *final(self) == (App { render_help: !old(self).render_help, ..*old(self) }),
    {
        self.render_help = !self.render_help;
    }
}

} // verus!

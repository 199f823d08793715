//! The abstract content of the store: its tables as sequences, the
//! invariant they keep, and what each operation makes of them.
use vstd::prelude::*;

use crate::bookmarks::{clone_title, Bookmark, BookmarkUrl, NewBookmarkParams};
use crate::error::Error;
use crate::tags::{passes_filter, tag_named, tag_with_id, Tag};

verus! {


/// A row of the bookmark table.
#[derive(Debug)]
pub struct BookmarkRow {
    pub id: i64,
    pub title: Option<String>,
    pub url: BookmarkUrl,
}

impl Clone for BookmarkRow {
    fn clone(&self) -> (r: BookmarkRow)
        ensures
            r == *self,
    {
        BookmarkRow { id: self.id, title: clone_title(&self.title), url: self.url.clone() }
    }
}

/// A row of the junction table: bookmark `bookmark_id` carries tag `tag_id`.
#[derive(Debug, Clone, Copy, PartialEq, Eq, Structural)]
pub struct TagLink {
    pub bookmark_id: i64,
    pub tag_id: i64,
}

/// The abstract content of a [`Repo`]: its three tables and the identifiers
/// that the next inserted bookmark and tag will get.
pub struct RepoState {
    pub bookmarks: Seq<BookmarkRow>,
    pub tags: Seq<Tag>,
    pub links: Seq<TagLink>,
    pub next_bookmark_id: int,
    pub next_tag_id: int,
}

/// The tags that `links` attach to bookmark `bid`, in link order.
pub open spec fn linked_tags(tags: Seq<Tag>, links: Seq<TagLink>, bid: i64) -> Seq<Tag>
    decreases links.len(),
{
    if links.len() == 0 {
        Seq::empty()
    } else {
        let rest = linked_tags(tags, links.drop_last(), bid);
        let l = links.last();
        if l.bookmark_id == bid {
            match tag_with_id(tags, l.tag_id) {
                Some(t) => rest.push(t),
                None => rest,
            }
        } else {
            rest
        }
    }
}

/// Whether `b` shows row `row` of `s` with its tags loaded.
pub open spec fn shows(s: RepoState, b: Bookmark, row: BookmarkRow) -> bool {
    &&& b.id == row.id
    &&& b.title == row.title
    &&& b.url@ == row.url@
    &&& b.tags matches Some(v) && v@ == s.tags_of(row.id)
}


/// The tags that `create` is asked to attach.
pub open spec fn given_tags(tags: Option<Vec<Tag>>) -> Seq<Tag> {
    match tags {
        Some(v) => v@,
        None => Seq::empty(),
    }
}

/// The junction rows that attach each tag of `given` to bookmark `bid`.
pub open spec fn links_for(bid: i64, given: Seq<Tag>) -> Seq<TagLink> {
    given.map_values(|t: Tag| TagLink { bookmark_id: bid, tag_id: t.id })
}

/// No two tags of `given` share an identifier.
pub open spec fn distinct_ids(given: Seq<Tag>) -> bool {
    forall|i: int, j: int| 0 <= i < j < given.len() ==> #[trigger] given[i].id != #[trigger] given[j].id
}

proof fn lemma_filter_keeps_increasing<A>(s: Seq<A>, key: spec_fn(A) -> int, p: spec_fn(A) -> bool)
    requires
        forall|i: int, j: int| 0 <= i < j < s.len() ==> key(#[trigger] s[i]) < key(#[trigger] s[j]),
    ensures
        forall|i: int, j: int|
            0 <= i < j < s.filter(p).len() ==> key(#[trigger] s.filter(p)[i]) < key(#[trigger] s.filter(p)[j]),
        forall|i: int| 0 <= i < s.filter(p).len() ==> s.contains(#[trigger] s.filter(p)[i]),
    decreases s.len(),
{
    reveal(Seq::filter);
    if s.len() > 0 {
        let d = s.drop_last();
        lemma_filter_keeps_increasing(d, key, p);
        let f = s.filter(p);
        let fd = d.filter(p);
        assert forall|i: int| 0 <= i < f.len() implies s.contains(#[trigger] f[i]) by {
            if i < fd.len() {
                assert(f[i] == fd[i]);
                let k = choose|k: int| 0 <= k < d.len() && d[k] == fd[i];
                assert(s[k] == f[i]);
            } else {
                assert(f[i] == s[s.len() - 1]);
            }
        }
        assert forall|i: int, j: int| 0 <= i < j < f.len() implies key(#[trigger] f[i]) < key(#[trigger] f[j]) by {
            if j < fd.len() {
                assert(f[i] == fd[i] && f[j] == fd[j]);
            } else {
                assert(f[i] == fd[i]);
                let k = choose|k: int| 0 <= k < d.len() && d[k] == fd[i];
                assert(s[k] == f[i]);
                assert(f[j] == s[s.len() - 1]);
            }
        }
    }
}

proof fn lemma_filter_no_duplicates<A>(s: Seq<A>, p: spec_fn(A) -> bool)
    requires
        s.no_duplicates(),
    ensures
        s.filter(p).no_duplicates(),
        forall|i: int| 0 <= i < s.filter(p).len() ==> s.contains(#[trigger] s.filter(p)[i]),
    decreases s.len(),
{
    reveal(Seq::filter);
    if s.len() > 0 {
        let d = s.drop_last();
        assert(d.no_duplicates());
        lemma_filter_no_duplicates(d, p);
        let f = s.filter(p);
        let fd = d.filter(p);
        assert forall|i: int| 0 <= i < f.len() implies s.contains(#[trigger] f[i]) by {
            if i < fd.len() {
                assert(f[i] == fd[i]);
                let k = choose|k: int| 0 <= k < d.len() && d[k] == fd[i];
                assert(s[k] == f[i]);
            } else {
                assert(f[i] == s[s.len() - 1]);
            }
        }
        assert forall|i: int, j: int| 0 <= i < f.len() && 0 <= j < f.len() && i != j implies f[i] != f[j] by {
            if i < fd.len() && j < fd.len() {
                assert(f[i] == fd[i] && f[j] == fd[j]);
            } else if i < fd.len() {
                assert(f[i] == fd[i]);
                let k = choose|k: int| 0 <= k < d.len() && d[k] == fd[i];
                assert(f[j] == s[s.len() - 1]);
            } else if j < fd.len() {
                assert(f[j] == fd[j]);
                let k = choose|k: int| 0 <= k < d.len() && d[k] == fd[j];
                assert(f[i] == s[s.len() - 1]);
            }
        }
    }
}

pub(crate) proof fn lemma_with_row_wf(s: RepoState, row: BookmarkRow, given: Seq<Tag>)
    requires
        s.wf(),
        row.id == s.next_bookmark_id,
        s.next_bookmark_id < i64::MAX,
        s.all_known(given),
        distinct_ids(given),
    ensures
        s.with_row(row, given).wf(),
{
    let n = s.with_row(row, given);
    let nl = links_for(row.id, given);
    assert(n.bookmark_ids() =~= s.bookmark_ids().push(row.id));
    assert(n.bookmark_ids()[s.bookmarks.len() as int] == row.id);
    assert forall|k: int| 0 <= k < n.links.len() implies n.bookmark_ids().contains(
        #[trigger] n.links[k].bookmark_id,
    ) && n.tag_ids().contains(n.links[k].tag_id) by {
        if k < s.links.len() {
            assert(n.links[k] == s.links[k]);
            let m = choose|m: int| 0 <= m < s.bookmark_ids().len() && s.bookmark_ids()[m] == s.links[k].bookmark_id;
            assert(n.bookmark_ids()[m] == s.links[k].bookmark_id);
        } else {
            assert(n.links[k] == nl[k - s.links.len()]);
            assert(given[k - s.links.len()].id == n.links[k].tag_id);
        }
    }
    assert forall|i: int, j: int| 0 <= i < n.links.len() && 0 <= j < n.links.len() && i != j implies n.links[i] != n.links[j] by {
        if i < s.links.len() && j < s.links.len() {
            assert(n.links[i] == s.links[i] && n.links[j] == s.links[j]);
        } else if i < s.links.len() {
            assert(n.links[i] == s.links[i]);
            let m = choose|m: int| 0 <= m < s.bookmark_ids().len() && s.bookmark_ids()[m] == s.links[i].bookmark_id;
            assert(s.bookmarks[m].id < row.id);
            assert(n.links[j] == nl[j - s.links.len()]);
        } else if j < s.links.len() {
            assert(n.links[j] == s.links[j]);
            let m = choose|m: int| 0 <= m < s.bookmark_ids().len() && s.bookmark_ids()[m] == s.links[j].bookmark_id;
            assert(s.bookmarks[m].id < row.id);
            assert(n.links[i] == nl[i - s.links.len()]);
        } else {
            assert(n.links[i] == nl[i - s.links.len()]);
            assert(n.links[j] == nl[j - s.links.len()]);
            if i < j {
                assert(given[i - s.links.len()].id != given[j - s.links.len()].id);
            } else {
                assert(given[j - s.links.len()].id != given[i - s.links.len()].id);
            }
        }
    }
}

pub(crate) proof fn lemma_without_bookmark_wf(s: RepoState, id: i64)
    requires
        s.wf(),
    ensures
        s.without_bookmark(id).wf(),
{
    let n = s.without_bookmark(id);
    let pb = |r: BookmarkRow| r.id != id;
    let pl = |l: TagLink| l.bookmark_id != id;
    lemma_filter_keeps_increasing(s.bookmarks, |r: BookmarkRow| r.id as int, pb);
    lemma_filter_no_duplicates(s.links, pl);
    assert forall|i: int| 0 <= i < n.bookmarks.len() implies 1 <= #[trigger] n.bookmarks[i].id
        < n.next_bookmark_id by {
        assert(s.bookmarks.contains(n.bookmarks[i]));
    }
    assert forall|i: int, j: int| 0 <= i < j < n.bookmarks.len() implies #[trigger] n.bookmarks[i].id
        < #[trigger] n.bookmarks[j].id by {
        assert((|r: BookmarkRow| r.id as int)(n.bookmarks[i]) < (|r: BookmarkRow| r.id as int)(n.bookmarks[j]));
    }
    assert forall|k: int| 0 <= k < n.links.len() implies n.bookmark_ids().contains(
        #[trigger] n.links[k].bookmark_id,
    ) && n.tag_ids().contains(n.links[k].tag_id) by {
        let l = n.links[k];
        assert(s.links.contains(l));
        let q = choose|q: int| 0 <= q < s.links.len() && s.links[q] == l;
        assert(s.bookmark_ids().contains(s.links[q].bookmark_id));
        s.links.lemma_filter_pred(pl, k);
        let m = choose|m: int| 0 <= m < s.bookmark_ids().len() && s.bookmark_ids()[m] == l.bookmark_id;
        s.bookmarks.lemma_filter_contains(pb, m);
        let m2 = choose|m2: int| 0 <= m2 < n.bookmarks.len() && n.bookmarks[m2] == s.bookmarks[m];
        assert(n.bookmark_ids()[m2] == l.bookmark_id);
    }
}

pub(crate) proof fn lemma_tag_named(tags: Seq<Tag>, name: Seq<char>)
    ensures
        tag_named(tags, name) is None <==> forall|i: int| 0 <= i < tags.len() ==> #[trigger] tags[i].name@ != name,
        tag_named(tags, name) matches Some(t) ==> tags.contains(t) && t.name@ == name,
    decreases tags.len(),
{
    if tags.len() > 0 {
        lemma_tag_named(tags.drop_last(), name);
        if tag_named(tags, name) is None {
            assert forall|i: int| 0 <= i < tags.len() implies #[trigger] tags[i].name@ != name by {
                if i < tags.len() - 1 {
                    assert(tags.drop_last()[i] == tags[i]);
                }
            }
        }
        if tag_named(tags.drop_last(), name) is None {
            if forall|i: int| 0 <= i < tags.len() ==> #[trigger] tags[i].name@ != name {
                assert(tags[tags.len() - 1].name@ != name);
            }
        } else {
            let i = choose|i: int| 0 <= i < tags.drop_last().len() && tags.drop_last()[i] == tag_named(tags.drop_last(), name)->Some_0;
            assert(tags[i] == tags.drop_last()[i]);
        }
    }
}

pub(crate) proof fn lemma_tag_with_id(tags: Seq<Tag>, id: i64)
    ensures
        tag_with_id(tags, id) is None <==> forall|i: int| 0 <= i < tags.len() ==> #[trigger] tags[i].id != id,
        tag_with_id(tags, id) matches Some(t) ==> tags.contains(t) && t.id == id,
    decreases tags.len(),
{
    if tags.len() > 0 {
        lemma_tag_with_id(tags.drop_last(), id);
        if tag_with_id(tags, id) is None {
            assert forall|i: int| 0 <= i < tags.len() implies #[trigger] tags[i].id != id by {
                if i < tags.len() - 1 {
                    assert(tags.drop_last()[i] == tags[i]);
                }
            }
        }
        if tag_with_id(tags.drop_last(), id) is Some {
            let i = choose|i: int| 0 <= i < tags.drop_last().len() && tags.drop_last()[i] == tag_with_id(tags.drop_last(), id)->Some_0;
            assert(tags[i] == tags.drop_last()[i]);
        }
    }
}

pub(crate) proof fn lemma_with_tag_wf(s: RepoState, t: Tag)
    requires
        s.wf(),
        t.id == s.next_tag_id,
        s.next_tag_id < i64::MAX,
        tag_named(s.tags, t.name@) is None,
    ensures
        s.with_tag(t).wf(),
{
    lemma_tag_named(s.tags, t.name@);
    let n = s.with_tag(t);
    assert(n.tag_ids() =~= s.tag_ids().push(t.id));
    assert(n.bookmark_ids() =~= s.bookmark_ids());
    assert forall|i: int, j: int|
        0 <= i < n.tags.len() && 0 <= j < n.tags.len() && i != j implies #[trigger] n.tags[i].name@
        != #[trigger] n.tags[j].name@ by {
        if i < s.tags.len() && j < s.tags.len() {
            assert(n.tags[i] == s.tags[i] && n.tags[j] == s.tags[j]);
        } else if i < s.tags.len() {
            assert(n.tags[i] == s.tags[i]);
        } else {
            assert(n.tags[j] == s.tags[j]);
        }
    }
    assert forall|k: int| 0 <= k < n.links.len() implies n.bookmark_ids().contains(
        #[trigger] n.links[k].bookmark_id,
    ) && n.tag_ids().contains(n.links[k].tag_id) by {
        assert(s.tag_ids().contains(s.links[k].tag_id));
        let m = choose|m: int| 0 <= m < s.tag_ids().len() && s.tag_ids()[m] == s.links[k].tag_id;
        assert(n.tag_ids()[m] == s.links[k].tag_id);
    }
}

pub(crate) proof fn lemma_without_tag_wf(s: RepoState, id: i64)
    requires
        s.wf(),
    ensures
        s.without_tag(id).wf(),
{
    let n = s.without_tag(id);
    let pt = |t: Tag| t.id != id;
    let pl = |l: TagLink| l.tag_id != id;
    lemma_filter_keeps_increasing(s.tags, |t: Tag| t.id as int, pt);
    lemma_filter_no_duplicates(s.links, pl);
    assert(n.bookmark_ids() =~= s.bookmark_ids());
    assert forall|i: int| 0 <= i < n.tags.len() implies 1 <= #[trigger] n.tags[i].id < n.next_tag_id by {
        assert(s.tags.contains(n.tags[i]));
    }
    assert forall|i: int, j: int| 0 <= i < j < n.tags.len() implies #[trigger] n.tags[i].id
        < #[trigger] n.tags[j].id by {
        assert((|t: Tag| t.id as int)(n.tags[i]) < (|t: Tag| t.id as int)(n.tags[j]));
    }
    assert forall|i: int, j: int|
        0 <= i < n.tags.len() && 0 <= j < n.tags.len() && i != j implies #[trigger] n.tags[i].name@
        != #[trigger] n.tags[j].name@ by {
        assert((|t: Tag| t.id as int)(n.tags[i]) != (|t: Tag| t.id as int)(n.tags[j]));
        assert(s.tags.contains(n.tags[i]));
        assert(s.tags.contains(n.tags[j]));
        let a = choose|a: int| 0 <= a < s.tags.len() && s.tags[a] == n.tags[i];
        let b = choose|b: int| 0 <= b < s.tags.len() && s.tags[b] == n.tags[j];
        if a < b {
            assert(s.tags[a].id < s.tags[b].id);
        } else if b < a {
            assert(s.tags[b].id < s.tags[a].id);
        }
    }
    assert forall|k: int| 0 <= k < n.links.len() implies n.bookmark_ids().contains(
        #[trigger] n.links[k].bookmark_id,
    ) && n.tag_ids().contains(n.links[k].tag_id) by {
        let l = n.links[k];
        assert(s.links.contains(l));
        let q = choose|q: int| 0 <= q < s.links.len() && s.links[q] == l;
        assert(s.tag_ids().contains(s.links[q].tag_id));
        s.links.lemma_filter_pred(pl, k);
        let m = choose|m: int| 0 <= m < s.tag_ids().len() && s.tag_ids()[m] == l.tag_id;
        s.tags.lemma_filter_contains(pt, m);
        let m2 = choose|m2: int| 0 <= m2 < n.tags.len() && n.tags[m2] == s.tags[m];
        assert(n.tag_ids()[m2] == l.tag_id);
    }
}

pub(crate) proof fn lemma_attach_name(s: RepoState, bid: i64, name: String)
    requires
        s.wf(),
        s.bookmark_ids().contains(bid),
        s.attach_name(bid, name) is Ok,
    ensures
        ({
            let n = s.attach_name(bid, name)->Ok_0;
            &&& n.wf()
            &&& n.bookmarks == s.bookmarks
            &&& n.next_bookmark_id == s.next_bookmark_id
            &&& forall|t: Tag| s.tags.contains(t) ==> #[trigger] n.tags.contains(t)
            &&& tag_named(n.tags, name@) is Some
            &&& n.tags.contains(tag_named(n.tags, name@)->Some_0)
            &&& tag_named(n.tags, name@)->Some_0.name@ == name@
        }),
{
    let s1 = if tag_named(s.tags, name@) is Some {
        s
    } else {
        s.with_tag(Tag { id: s.next_tag_id as i64, name })
    };
    if tag_named(s.tags, name@) is None {
        lemma_with_tag_wf(s, Tag { id: s.next_tag_id as i64, name });
        assert(s1.bookmark_ids() =~= s.bookmark_ids());
    }
    lemma_tag_named(s1.tags, name@);
    let t = tag_named(s1.tags, name@)->Some_0;
    let l = TagLink { bookmark_id: bid, tag_id: t.id };
    let n = RepoState { links: s1.links.push(l), ..s1 };
    let k = choose|k: int| 0 <= k < s1.tags.len() && s1.tags[k] == t;
    assert(s1.tag_ids()[k] == t.id);
    assert forall|q: int| 0 <= q < n.links.len() implies n.bookmark_ids().contains(n.links[q].bookmark_id)
        && n.tag_ids().contains(n.links[q].tag_id) by {
        if q < s1.links.len() {
            assert(n.links[q] == s1.links[q]);
        }
    }
    assert forall|i: int, j: int| 0 <= i < n.links.len() && 0 <= j < n.links.len() && i != j implies n.links[i] != n.links[j] by {
        if i < s1.links.len() && j < s1.links.len() {
            assert(n.links[i] == s1.links[i] && n.links[j] == s1.links[j]);
        } else if i < s1.links.len() {
            assert(n.links[i] == s1.links[i]);
        } else if j < s1.links.len() {
            assert(n.links[j] == s1.links[j]);
        }
    }
    assert forall|u: Tag| s.tags.contains(u) implies #[trigger] n.tags.contains(u) by {
        let q = choose|q: int| 0 <= q < s.tags.len() && s.tags[q] == u;
        assert(n.tags[q] == u);
    }
    assert(n == s.attach_name(bid, name)->Ok_0);
}

pub(crate) proof fn lemma_attach_names_err(s: RepoState, bid: i64, names: Seq<String>, j: int)
    requires
        0 <= j <= names.len(),
        s.attach_names(bid, names.take(j)) is Err,
    ensures
        s.attach_names(bid, names) == s.attach_names(bid, names.take(j)),
    decreases names.len(),
{
    if j == names.len() {
        assert(names.take(j) =~= names);
    } else {
        assert(names.drop_last().take(j) =~= names.take(j));
        lemma_attach_names_err(s, bid, names.drop_last(), j);
    }
}

pub(crate) proof fn lemma_add_items_err(s: RepoState, items: Seq<NewBookmarkParams>, i: int)
    requires
        0 <= i <= items.len(),
        s.add_items(items.take(i)) is Err,
    ensures
        s.add_items(items) == s.add_items(items.take(i)),
    decreases items.len(),
{
    if i == items.len() {
        assert(items.take(i) =~= items);
    } else {
        assert(items.drop_last().take(i) =~= items.take(i));
        lemma_add_items_err(s, items.drop_last(), i);
    }
}

impl RepoState {
    /// The identifiers of the bookmark rows, in table order.
    pub open spec fn bookmark_ids(self) -> Seq<i64> {
        self.bookmarks.map_values(|r: BookmarkRow| r.id)
    }

    /// The identifiers of the tag rows, in table order.
    pub open spec fn tag_ids(self) -> Seq<i64> {
        self.tags.map_values(|t: Tag| t.id)
    }

    /// The store's invariant: identifiers positive, increasing and below the
    /// next ones to assign; tag names unique; every junction row names an
    /// existing bookmark and tag; no junction row twice.
    pub open spec fn wf(self) -> bool {
        &&& 1 <= self.next_bookmark_id <= i64::MAX
        &&& 1 <= self.next_tag_id <= i64::MAX
        &&& forall|i: int|
            0 <= i < self.bookmarks.len() ==> 1 <= #[trigger] self.bookmarks[i].id
                < self.next_bookmark_id
        &&& forall|i: int, j: int|
            0 <= i < j < self.bookmarks.len() ==> #[trigger] self.bookmarks[i].id
                < #[trigger] self.bookmarks[j].id
        &&& forall|i: int| 0 <= i < self.tags.len() ==> 1 <= #[trigger] self.tags[i].id < self.next_tag_id
        &&& forall|i: int, j: int|
            0 <= i < j < self.tags.len() ==> #[trigger] self.tags[i].id < #[trigger] self.tags[j].id
        &&& forall|i: int, j: int|
            0 <= i < self.tags.len() && 0 <= j < self.tags.len() && i != j
                ==> #[trigger] self.tags[i].name@ != #[trigger] self.tags[j].name@
        &&& forall|k: int|
            #![trigger self.links[k]]
            0 <= k < self.links.len() ==> self.bookmark_ids().contains(self.links[k].bookmark_id)
                && self.tag_ids().contains(self.links[k].tag_id)
        &&& self.links.no_duplicates()
    }


    /// Every tag of `given` exists in the tag table.
    pub open spec fn all_known(self, given: Seq<Tag>) -> bool {
        forall|i: int| 0 <= i < given.len() ==> self.tag_ids().contains(#[trigger] given[i].id)
    }

    /// The state after inserting `row` and attaching each tag of `given` to it.
    pub open spec fn with_row(self, row: BookmarkRow, given: Seq<Tag>) -> RepoState {
        RepoState {
            bookmarks: self.bookmarks.push(row),
            links: self.links + links_for(row.id, given),
            next_bookmark_id: self.next_bookmark_id + 1,
            ..self
        }
    }

    /// The state after removing bookmark `id` and its junction rows.
    pub open spec fn without_bookmark(self, id: i64) -> RepoState {
        RepoState {
            bookmarks: self.bookmarks.filter(|r: BookmarkRow| r.id != id),
            links: self.links.filter(|l: TagLink| l.bookmark_id != id),
            ..self
        }
    }

    /// The state after inserting tag `t`.
    pub open spec fn with_tag(self, t: Tag) -> RepoState {
        RepoState { tags: self.tags.push(t), next_tag_id: self.next_tag_id + 1, ..self }
    }

    /// The state after removing tag `id` and its junction rows.
    pub open spec fn without_tag(self, id: i64) -> RepoState {
        RepoState {
            tags: self.tags.filter(|t: Tag| t.id != id),
            links: self.links.filter(|l: TagLink| l.tag_id != id),
            ..self
        }
    }

    /// Links bookmark `bid` to the tag named `name`, creating that tag first
    /// where none exists.
    pub open spec fn attach_name(self, bid: i64, name: String) -> Result<RepoState, Error> {
        let s1 = if tag_named(self.tags, name@) is Some {
            Ok(self)
        } else if self.next_tag_id >= i64::MAX {
            Err(Error::IdsExhausted)
        } else {
            Ok(self.with_tag(Tag { id: self.next_tag_id as i64, name }))
        };
        match s1 {
            Err(e) => Err(e),
            Ok(s1) => {
                let l = TagLink { bookmark_id: bid, tag_id: tag_named(s1.tags, name@)->Some_0.id };
                if s1.links.contains(l) {
                    Err(Error::DuplicateLink)
                } else {
                    Ok(RepoState { links: s1.links.push(l), ..s1 })
                }
            },
        }
    }

    /// `attach_name` for each of `names` in turn; the first failure ends it.
    pub open spec fn attach_names(self, bid: i64, names: Seq<String>) -> Result<RepoState, Error>
        decreases names.len(),
    {
        if names.len() == 0 {
            Ok(self)
        } else {
            match self.attach_names(bid, names.drop_last()) {
                Ok(s1) => s1.attach_name(bid, names.last()),
                Err(e) => Err(e),
            }
        }
    }

    /// Inserts the bookmark of `item` and attaches its tags by name.
    pub open spec fn add_item(self, item: NewBookmarkParams) -> Result<RepoState, Error> {
        if self.next_bookmark_id >= i64::MAX {
            Err(Error::IdsExhausted)
        } else {
            let bid = self.next_bookmark_id as i64;
            self.with_row(BookmarkRow { id: bid, title: item.title, url: item.url }, Seq::empty()).attach_names(
                bid,
                item.tags@,
            )
        }
    }

    /// `add_item` for each of `items` in turn; the first failure ends it.
    pub open spec fn add_items(self, items: Seq<NewBookmarkParams>) -> Result<RepoState, Error>
        decreases items.len(),
    {
        if items.len() == 0 {
            Ok(self)
        } else {
            match self.add_items(items.drop_last()) {
                Ok(s1) => s1.add_item(items.last()),
                Err(e) => Err(e),
            }
        }
    }

    /// The tags of bookmark `bid`, in the order they were attached.
    pub open spec fn tags_of(self, bid: i64) -> Seq<Tag> {
        linked_tags(self.tags, self.links, bid)
    }

    /// The rows that `fetch_all` shows for tag filter `filter`, in table order.
    pub open spec fn selected(self, filter: Seq<Tag>) -> Seq<BookmarkRow> {
        self.bookmarks.filter(|r: BookmarkRow| passes_filter(self.tags_of(r.id), filter))
    }
}

/// The abstract state held by these tables and identifier counters.
pub open spec fn state_of(
    bookmarks: Seq<BookmarkRow>,
    tags: Seq<Tag>,
    links: Seq<TagLink>,
    next_bookmark_id: i64,
    next_tag_id: i64,
) -> RepoState {
    RepoState { bookmarks, tags, links, next_bookmark_id: next_bookmark_id as int, next_tag_id: next_tag_id as int }
}

/// Whether `b` is what `batch_create` reports for `item`, inserted with
/// identifier `id` into a store that ended in state `s`: each tag, by name,
/// is the tag of that name in the store.
pub open spec fn batch_result(s: RepoState, id: int, b: Bookmark, item: NewBookmarkParams) -> bool {
    &&& b.id == id
    &&& b.title == item.title
    &&& b.url == item.url
    &&& b.tags matches Some(v) && v@.len() == item.tags@.len() && forall|q: int|
        0 <= q < v@.len() ==> (#[trigger] v@[q]).name@ == item.tags@[q]@ && s.tags.contains(v@[q])
}


/// The identifier after the last of `ids`, or 1 where there is none.
pub open spec fn next_after(ids: Seq<i64>) -> int {
    if ids.len() == 0 {
        1
    } else {
        ids.last() + 1
    }
}

/// The state that rows read back from storage stand for.
pub open spec fn loaded_state(bookmarks: Seq<BookmarkRow>, tags: Seq<Tag>, links: Seq<TagLink>) -> RepoState {
    RepoState {
        bookmarks,
        tags,
        links,
        next_bookmark_id: next_after(bookmarks.map_values(|r: BookmarkRow| r.id)),
        next_tag_id: next_after(tags.map_values(|t: Tag| t.id)),
    }
}

} // verus!

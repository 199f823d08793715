//! The store: bookmark, tag and junction tables kept in memory, with the
//! repository operations on them. Every write is all or nothing.
use vstd::prelude::*;

use crate::bookmarks::{clone_title, Bookmark, BookmarkUrl, NewBookmarkParams};
use crate::error::Error;
use crate::tags::{
    clone_tags, find_tag, find_tag_by_name, matches_filter, passes_filter, tag_named, tag_with_id, Tag,
};

pub use crate::model::{
    batch_result, distinct_ids, given_tags, links_for, linked_tags, loaded_state, shows, state_of,
    BookmarkRow, RepoState, TagLink,
};
use crate::model::{
    lemma_add_items_err, lemma_attach_name, lemma_attach_names_err, lemma_tag_named, lemma_with_row_wf,
    lemma_with_tag_wf, lemma_without_bookmark_wf, lemma_without_tag_wf,
};

verus! {

fn contains_link(links: &Vec<TagLink>, l: TagLink) -> (r: bool)
    ensures
        r == links@.contains(l),
{
    let mut i: usize = 0;
    while i < links.len()
        invariant
            i <= links@.len(),
            forall|k: int| 0 <= k < i ==> links@[k] != l,
        decreases links@.len() - i,
    {
        if links[i] == l {
            assert(links@[i as int] == l);
            return true;
        }
        i = i + 1;
    }
    false
}

/// The bookmark and tag tables with their junction table.
pub struct Repo {
    bookmarks: Vec<BookmarkRow>,
    tags: Vec<Tag>,
    links: Vec<TagLink>,
    next_bookmark_id: i64,
    next_tag_id: i64,
}

impl View for Repo {
    type V = RepoState;

    closed spec fn view(&self) -> RepoState {
        RepoState {
            bookmarks: self.bookmarks@,
            tags: self.tags@,
            links: self.links@,
            next_bookmark_id: self.next_bookmark_id as int,
            next_tag_id: self.next_tag_id as int,
        }
    }
}

fn clone_rows(v: &Vec<BookmarkRow>) -> (r: Vec<BookmarkRow>)
    ensures
        r@ == v@,
{
    let mut r: Vec<BookmarkRow> = Vec::new();
    let mut i: usize = 0;
    while i < v.len()
        invariant
            i <= v@.len(),
            r@ == v@.take(i as int),
        decreases v@.len() - i,
    {
        r.push(v[i].clone());
        i = i + 1;
        assert(r@ =~= v@.take(i as int));
    }
    assert(v@.take(i as int) =~= v@);
    r
}

fn clone_links(v: &Vec<TagLink>) -> (r: Vec<TagLink>)
    ensures
        r@ == v@,
{
    let mut r: Vec<TagLink> = Vec::new();
    let mut i: usize = 0;
    while i < v.len()
        invariant
            i <= v@.len(),
            r@ == v@.take(i as int),
        decreases v@.len() - i,
    {
        r.push(v[i]);
        i = i + 1;
        assert(r@ =~= v@.take(i as int));
    }
    assert(v@.take(i as int) =~= v@);
    r
}

impl Repo {
    #[verifier::type_invariant]
    spec fn inv(self) -> bool {
        self@.wf()
    }

    /// An empty store: no rows, identifiers start at 1.
    pub fn new() -> (r: Repo)
        ensures
            r@.bookmarks.len() == 0,
            r@.tags.len() == 0,
            r@.links.len() == 0,
            r@.next_bookmark_id == 1,
            r@.next_tag_id == 1,
            r@.wf(),
    {
        let r = Repo {
            bookmarks: Vec::new(),
            tags: Vec::new(),
            links: Vec::new(),
            next_bookmark_id: 1,
            next_tag_id: 1,
        };
        assert(r@.links =~= Seq::<TagLink>::empty());
        r
    }


    fn knows_tag_id(&self, id: i64) -> (r: bool)
        ensures
            r == self@.tag_ids().contains(id),
    {
        let mut i: usize = 0;
        while i < self.tags.len()
            invariant
                i <= self.tags@.len(),
                forall|k: int| 0 <= k < i ==> self.tags@[k].id != id,
            decreases self.tags@.len() - i,
        {
            if self.tags[i].id == id {
                assert(self@.tag_ids()[i as int] == id);
                return true;
            }
            i = i + 1;
        }
        assert(!self@.tag_ids().contains(id));
        false
    }

    /// Inserts one bookmark and a junction row for each of `tags`, which
    /// must already exist, all at once or not at all.
    pub fn create(&mut self, title: Option<String>, url: BookmarkUrl, tags: Option<Vec<Tag>>) -> (r: Result<Bookmark, Error>)
        ensures
            old(self)@.next_bookmark_id == i64::MAX ==> r == Err::<Bookmark, Error>(Error::IdsExhausted),
            old(self)@.next_bookmark_id < i64::MAX && !old(self)@.all_known(given_tags(tags))
                ==> r == Err::<Bookmark, Error>(Error::NotFound),
            old(self)@.next_bookmark_id < i64::MAX && old(self)@.all_known(given_tags(tags))
                && !distinct_ids(given_tags(tags)) ==> r == Err::<Bookmark, Error>(Error::DuplicateLink),
            r is Ok <==> old(self)@.next_bookmark_id < i64::MAX && old(self)@.all_known(
                given_tags(tags),
            ) && distinct_ids(given_tags(tags)),
            r is Err ==> final(self)@ == old(self)@,
            r matches Ok(b) ==> {
                &&& b.id == old(self)@.next_bookmark_id
                &&& b.title == title
                &&& b.url == url
                &&& b.tags == tags
                &&& final(self)@ == old(self)@.with_row(
                    BookmarkRow { id: b.id, title, url },
                    given_tags(tags),
                )
            },
            final(self)@.wf(),
    {
        proof {
            use_type_invariant(&*self);
        }
        if self.next_bookmark_id == i64::MAX {
            return Err(Error::IdsExhausted);
        }
        let empty: Vec<Tag> = Vec::new();
        let given: &Vec<Tag> = match &tags {
            Some(v) => v,
            None => &empty,
        };
        assert(given@ == given_tags(tags));
        let mut i: usize = 0;
        while i < given.len()
            invariant
                i <= given@.len(),
                self.next_bookmark_id < i64::MAX,
                self@.wf(),
                given@ == given_tags(tags),
                forall|k: int| 0 <= k < i ==> self@.tag_ids().contains(#[trigger] given@[k].id),
            decreases given@.len() - i,
        {
            if !self.knows_tag_id(given[i].id) {
                return Err(Error::NotFound);
            }
            i = i + 1;
        }
        let mut i: usize = 0;
        while i < given.len()
            invariant
                i <= given@.len(),
                self.next_bookmark_id < i64::MAX,
                self@.wf(),
                given@ == given_tags(tags),
                self@.all_known(given@),
                forall|a: int, b: int| 0 <= a < b < given@.len() && a < i ==> #[trigger] given@[a].id != #[trigger] given@[b].id,
            decreases given@.len() - i,
        {
            let mut j: usize = i + 1;
            while j < given.len()
                invariant
                    i < j <= given@.len(),
                    self.next_bookmark_id < i64::MAX,
                    self@.wf(),
                    given@ == given_tags(tags),
                    self@.all_known(given@),
                    forall|b: int| i < b < j ==> given@[i as int].id != #[trigger] given@[b].id,
                decreases given@.len() - j,
            {
                if given[i].id == given[j].id {
                    return Err(Error::DuplicateLink);
                }
                j = j + 1;
            }
            i = i + 1;
        }
        let bid = self.next_bookmark_id;
        let row = BookmarkRow { id: bid, title: clone_title(&title), url: url.clone() };
        let mut links = clone_links(&self.links);
        let mut i: usize = 0;
        while i < given.len()
            invariant
                i <= given@.len(),
                links@ == self.links@ + links_for(bid, given@.take(i as int)),
            decreases given@.len() - i,
        {
            links.push(TagLink { bookmark_id: bid, tag_id: given[i].id });
            i = i + 1;
            assert(links@ =~= self.links@ + links_for(bid, given@.take(i as int)));
        }
        assert(given@.take(i as int) =~= given@);
        let mut bookmarks = clone_rows(&self.bookmarks);
        bookmarks.push(row);
        let ghost before = self@;
        proof {
            lemma_with_row_wf(before, row, given@);
        }
        let next_tag_id = self.next_tag_id;
        let tag_rows = clone_tags(&self.tags);
        *self = Repo { bookmarks, tags: tag_rows, links, next_bookmark_id: bid + 1, next_tag_id };
        assert(self@ =~= before.with_row(row, given@));
        Ok(Bookmark { id: bid, title, url, tags })
    }

    /// Removes bookmark `id` and its junction rows; an unknown `id` changes nothing.
    pub fn delete(&mut self, id: i64)
        ensures
            final(self)@ == old(self)@.without_bookmark(id),
            final(self)@.wf(),
    {
        proof {
            use_type_invariant(&*self);
        }
        let ghost before = self@;
        let ghost pb = |r: BookmarkRow| r.id != id;
        let ghost pl = |l: TagLink| l.bookmark_id != id;
        let mut bookmarks: Vec<BookmarkRow> = Vec::new();
        let mut i: usize = 0;
        while i < self.bookmarks.len()
            invariant
                i <= self.bookmarks@.len(),
                pb == (|r: BookmarkRow| r.id != id),
                bookmarks@ == self.bookmarks@.take(i as int).filter(pb),
            decreases self.bookmarks@.len() - i,
        {
            assert(self.bookmarks@.take(i + 1).drop_last() =~= self.bookmarks@.take(i as int));
            reveal(Seq::filter);
            if self.bookmarks[i].id != id {
                bookmarks.push(self.bookmarks[i].clone());
            }
            i = i + 1;
        }
        assert(self.bookmarks@.take(i as int) =~= self.bookmarks@);
        let mut links: Vec<TagLink> = Vec::new();
        let mut i: usize = 0;
        while i < self.links.len()
            invariant
                i <= self.links@.len(),
                pl == (|l: TagLink| l.bookmark_id != id),
                links@ == self.links@.take(i as int).filter(pl),
            decreases self.links@.len() - i,
        {
            assert(self.links@.take(i + 1).drop_last() =~= self.links@.take(i as int));
            reveal(Seq::filter);
            if self.links[i].bookmark_id != id {
                links.push(self.links[i]);
            }
            i = i + 1;
        }
        assert(self.links@.take(i as int) =~= self.links@);
        proof {
            lemma_without_bookmark_wf(before, id);
        }
        let next_bookmark_id = self.next_bookmark_id;
        let next_tag_id = self.next_tag_id;
        let tag_rows = clone_tags(&self.tags);
        *self = Repo { bookmarks, tags: tag_rows, links, next_bookmark_id, next_tag_id };
        assert(self@ =~= before.without_bookmark(id));
    }

    /// Inserts a tag named `name`; fails where a tag of that name exists.
    pub fn create_tag(&mut self, name: String) -> (r: Result<Tag, Error>)
        ensures
            tag_named(old(self)@.tags, name@) is Some ==> r == Err::<Tag, Error>(Error::TagNameTaken),
            tag_named(old(self)@.tags, name@) is None && old(self)@.next_tag_id == i64::MAX
                ==> r == Err::<Tag, Error>(Error::IdsExhausted),
            r is Ok <==> tag_named(old(self)@.tags, name@) is None && old(self)@.next_tag_id < i64::MAX,
            r is Err ==> final(self)@ == old(self)@,
            r matches Ok(t) ==> t.id == old(self)@.next_tag_id && t.name == name
                && final(self)@ == old(self)@.with_tag(t),
            final(self)@.wf(),
    {
        proof {
            use_type_invariant(&*self);
        }
        if find_tag_by_name(&self.tags, &name).is_some() {
            return Err(Error::TagNameTaken);
        }
        if self.next_tag_id == i64::MAX {
            return Err(Error::IdsExhausted);
        }
        let t = Tag { id: self.next_tag_id, name };
        let ghost before = self@;
        proof {
            lemma_with_tag_wf(before, t);
        }
        let mut tag_rows = clone_tags(&self.tags);
        tag_rows.push(t.clone());
        let bookmarks = clone_rows(&self.bookmarks);
        let links = clone_links(&self.links);
        let next_bookmark_id = self.next_bookmark_id;
        *self = Repo { bookmarks, tags: tag_rows, links, next_bookmark_id, next_tag_id: t.id + 1 };
        assert(self@ =~= before.with_tag(t));
        Ok(t)
    }

    /// The tag with identifier `id`.
    pub fn get_tag(&self, id: i64) -> (r: Result<Tag, Error>)
        ensures
            r == match tag_with_id(self@.tags, id) {
                Some(t) => Ok::<Tag, Error>(t),
                None => Err(Error::NotFound),
            },
    {
        match find_tag(&self.tags, id) {
            Some(t) => Ok(t),
            None => Err(Error::NotFound),
        }
    }

    /// The tag named `name`.
    pub fn get_tag_by_name(&self, name: String) -> (r: Result<Tag, Error>)
        ensures
            r == match tag_named(self@.tags, name@) {
                Some(t) => Ok::<Tag, Error>(t),
                None => Err(Error::NotFound),
            },
    {
        match find_tag_by_name(&self.tags, &name) {
            Some(t) => Ok(t),
            None => Err(Error::NotFound),
        }
    }

    /// Removes tag `id` and its junction rows, and hands back the removed tag.
    pub fn delete_tag(&mut self, id: i64) -> (r: Result<Tag, Error>)
        ensures
            r == match tag_with_id(old(self)@.tags, id) {
                Some(t) => Ok::<Tag, Error>(t),
                None => Err(Error::NotFound),
            },
            r is Err ==> final(self)@ == old(self)@,
            r is Ok ==> final(self)@ == old(self)@.without_tag(id),
            final(self)@.wf(),
    {
        proof {
            use_type_invariant(&*self);
        }
        let found = match find_tag(&self.tags, id) {
            Some(t) => t,
            None => {
                return Err(Error::NotFound);
            },
        };
        let ghost before = self@;
        let ghost pt = |t: Tag| t.id != id;
        let ghost pl = |l: TagLink| l.tag_id != id;
        let mut tag_rows: Vec<Tag> = Vec::new();
        let mut i: usize = 0;
        while i < self.tags.len()
            invariant
                i <= self.tags@.len(),
                pt == (|t: Tag| t.id != id),
                tag_rows@ == self.tags@.take(i as int).filter(pt),
            decreases self.tags@.len() - i,
        {
            assert(self.tags@.take(i + 1).drop_last() =~= self.tags@.take(i as int));
            reveal(Seq::filter);
            if self.tags[i].id != id {
                tag_rows.push(self.tags[i].clone());
            }
            i = i + 1;
        }
        assert(self.tags@.take(i as int) =~= self.tags@);
        let mut links: Vec<TagLink> = Vec::new();
        let mut i: usize = 0;
        while i < self.links.len()
            invariant
                i <= self.links@.len(),
                pl == (|l: TagLink| l.tag_id != id),
                links@ == self.links@.take(i as int).filter(pl),
            decreases self.links@.len() - i,
        {
            assert(self.links@.take(i + 1).drop_last() =~= self.links@.take(i as int));
            reveal(Seq::filter);
            if self.links[i].tag_id != id {
                links.push(self.links[i]);
            }
            i = i + 1;
        }
        assert(self.links@.take(i as int) =~= self.links@);
        proof {
            lemma_without_tag_wf(before, id);
        }
        let bookmarks = clone_rows(&self.bookmarks);
        let next_bookmark_id = self.next_bookmark_id;
        let next_tag_id = self.next_tag_id;
        *self = Repo { bookmarks, tags: tag_rows, links, next_bookmark_id, next_tag_id };
        assert(self@ =~= before.without_tag(id));
        Ok(found)
    }

    /// Inserts each of `items` with its tags, looking each tag up by name
    /// and creating it where it is missing; all of it, or nothing at all.
    pub fn batch_create(&mut self, items: Vec<NewBookmarkParams>) -> (r: Result<Vec<Bookmark>, Error>)
        ensures
            r is Ok <==> old(self)@.add_items(items@) is Ok,
            r matches Err(e) ==> old(self)@.add_items(items@) == Err::<RepoState, Error>(e)
                && final(self)@ == old(self)@,
            r matches Ok(v) ==> {
                &&& final(self)@ == old(self)@.add_items(items@)->Ok_0
                &&& v@.len() == items@.len()
                &&& forall|k: int|
                    0 <= k < v@.len() ==> batch_result(final(self)@, old(self)@.next_bookmark_id + k, #[trigger] v@[k], items@[k])
            },
            final(self)@.wf(),
    {
        proof {
            use_type_invariant(&*self);
        }
        let ghost start = self@;
        let mut bs = clone_rows(&self.bookmarks);
        let mut ts = clone_tags(&self.tags);
        let mut ls = clone_links(&self.links);
        let mut nb = self.next_bookmark_id;
        let mut nt = self.next_tag_id;
        let mut out: Vec<Bookmark> = Vec::new();
        let mut i: usize = 0;
        assert(items@.take(0) =~= Seq::<NewBookmarkParams>::empty());
        while i < items.len()
            invariant
                i <= items@.len(),
                self@ == start,
                start.wf(),
                start.add_items(items@.take(i as int)) == Ok::<RepoState, Error>(state_of(bs@, ts@, ls@, nb, nt)),
                state_of(bs@, ts@, ls@, nb, nt).wf(),
                nb == start.next_bookmark_id + i,
                out@.len() == i,
                forall|k: int|
                    0 <= k < i ==> batch_result(state_of(bs@, ts@, ls@, nb, nt), start.next_bookmark_id + k, #[trigger] out@[k], items@[k]),
            decreases items@.len() - i,
        {
            let ghost cur = state_of(bs@, ts@, ls@, nb, nt);
            let item = &items[i];
            assert(items@.take(i + 1).drop_last() =~= items@.take(i as int));
            assert(items@.take(i + 1).last() == item);
            if nb == i64::MAX {
                proof {
                    lemma_add_items_err(start, items@, i + 1);
                }
                return Err(Error::IdsExhausted);
            }
            let bid = nb;
            let row = BookmarkRow { id: bid, title: clone_title(&item.title), url: item.url.clone() };
            proof {
                lemma_with_row_wf(cur, row, Seq::empty());
            }
            bs.push(row);
            nb = nb + 1;
            let ghost base = state_of(bs@, ts@, ls@, nb, nt);
            assert(base =~= cur.with_row(row, Seq::empty()));
            assert(base.bookmark_ids()[base.bookmarks.len() - 1] == bid);
            assert(start.add_items(items@.take(i + 1)) == base.attach_names(bid, item.tags@));
            let mut found: Vec<Tag> = Vec::new();
            let mut j: usize = 0;
            assert(item.tags@.take(0) =~= Seq::<String>::empty());
            while j < item.tags.len()
                invariant
                    i < items@.len(),
                    *item == items@[i as int],
                    self@ == start,
                    start.wf(),
                    start.add_items(items@.take(i + 1)) == base.attach_names(bid, item.tags@),
                    out@.len() == i,
                    forall|k: int|
                        0 <= k < i ==> batch_result(cur, start.next_bookmark_id + k, #[trigger] out@[k], items@[k]),
                    nb == start.next_bookmark_id + i + 1,
                    j <= item.tags@.len(),
                    base.attach_names(bid, item.tags@.take(j as int)) == Ok::<RepoState, Error>(state_of(bs@, ts@, ls@, nb, nt)),
                    state_of(bs@, ts@, ls@, nb, nt).wf(),
                    state_of(bs@, ts@, ls@, nb, nt).bookmarks == base.bookmarks,
                    nb == base.next_bookmark_id,
                    base.bookmark_ids().contains(bid),
                    forall|t: Tag| cur.tags.contains(t) ==> #[trigger] ts@.contains(t),
                    found@.len() == j,
                    forall|q: int|
                        0 <= q < j ==> (#[trigger] found@[q]).name@ == item.tags@[q]@ && ts@.contains(found@[q]),
                decreases item.tags@.len() - j,
            {
                let ghost inner = state_of(bs@, ts@, ls@, nb, nt);
                let name = &item.tags[j];
                assert(item.tags@.take(j + 1).drop_last() =~= item.tags@.take(j as int));
                assert(item.tags@.take(j + 1).last() == name);
                assert(inner.bookmark_ids() =~= base.bookmark_ids());
                let t = match find_tag_by_name(&ts, name) {
                    Some(t) => t,
                    None => {
                        if nt == i64::MAX {
                            proof {
                                lemma_attach_names_err(base, bid, item.tags@, j + 1);
                                lemma_add_items_err(start, items@, i + 1);
                            }
                            return Err(Error::IdsExhausted);
                        }
                        let t = Tag { id: nt, name: name.clone() };
                        ts.push(t.clone());
                        nt = nt + 1;
                        assert(ts@.drop_last() == inner.tags);
                        t
                    },
                };
                let link = TagLink { bookmark_id: bid, tag_id: t.id };
                if contains_link(&ls, link) {
                    proof {
                        lemma_attach_names_err(base, bid, item.tags@, j + 1);
                        lemma_add_items_err(start, items@, i + 1);
                    }
                    return Err(Error::DuplicateLink);
                }
                proof {
                    lemma_attach_name(inner, bid, *name);
                }
                ls.push(link);
                assert(state_of(bs@, ts@, ls@, nb, nt) == inner.attach_name(bid, *name)->Ok_0);
                proof {
                    lemma_tag_named(ts@, name@);
                }
                found.push(t);
                j = j + 1;
            }
            assert(item.tags@.take(j as int) =~= item.tags@);
            assert forall|k: int| 0 <= k < i implies batch_result(state_of(bs@, ts@, ls@, nb, nt), start.next_bookmark_id + k, #[trigger] out@[k], items@[k]) by {
                assert(batch_result(cur, start.next_bookmark_id + k, out@[k], items@[k]));
            }
            out.push(
                Bookmark { id: bid, title: clone_title(&item.title), url: item.url.clone(), tags: Some(found) },
            );
            i = i + 1;
        }
        assert(items@.take(i as int) =~= items@);
        *self = Repo { bookmarks: bs, tags: ts, links: ls, next_bookmark_id: nb, next_tag_id: nt };
        Ok(out)
    }

    /// A store holding exactly the given rows, as read back from storage;
    /// the next identifiers follow the last ones. Fails where the rows break
    /// an invariant of the store: identifiers not increasing or out of range,
    /// two tags of one name, a junction row that names a missing bookmark or
    /// tag, or the same junction row twice.
    pub fn from_rows(bookmarks: Vec<BookmarkRow>, tags: Vec<Tag>, links: Vec<TagLink>) -> (r: Result<Repo, Error>)
        ensures
            r is Ok <==> loaded_state(bookmarks@, tags@, links@).wf(),
            r matches Ok(repo) ==> repo@ == loaded_state(bookmarks@, tags@, links@),
            r matches Err(e) ==> e == Error::InvalidRows,
    {
        let ghost s = loaded_state(bookmarks@, tags@, links@);
        let ghost bid = |r: BookmarkRow| r.id;
        let ghost tid = |t: Tag| t.id;
        assert(s.bookmark_ids() =~= bookmarks@.map_values(bid));
        assert(s.tag_ids() =~= tags@.map_values(tid));
        // bookmark identifiers: positive, increasing, below the largest i64
        let mut i: usize = 0;
        while i < bookmarks.len()
            invariant
                i <= bookmarks@.len(),
                s == loaded_state(bookmarks@, tags@, links@),
                forall|k: int| 0 <= k < i ==> 1 <= #[trigger] bookmarks@[k].id < i64::MAX,
                forall|a: int, b: int| 0 <= a < b < i ==> #[trigger] bookmarks@[a].id < #[trigger] bookmarks@[b].id,
            decreases bookmarks@.len() - i,
        {
            if bookmarks[i].id < 1 || bookmarks[i].id == i64::MAX {
                assert(s.bookmarks[i as int] == bookmarks@[i as int]);
                return Err(Error::InvalidRows);
            }
            if i > 0 && bookmarks[i - 1].id >= bookmarks[i].id {
                assert(s.bookmarks[i - 1] == bookmarks@[i - 1]);
                assert(s.bookmarks[i as int] == bookmarks@[i as int]);
                return Err(Error::InvalidRows);
            }
            i = i + 1;
        }
        let mut i: usize = 0;
        while i < tags.len()
            invariant
                i <= tags@.len(),
                s == loaded_state(bookmarks@, tags@, links@),
                forall|k: int| 0 <= k < bookmarks@.len() ==> 1 <= #[trigger] bookmarks@[k].id < i64::MAX,
                forall|a: int, b: int| 0 <= a < b < bookmarks@.len() ==> #[trigger] bookmarks@[a].id < #[trigger] bookmarks@[b].id,
                forall|k: int| 0 <= k < i ==> 1 <= #[trigger] tags@[k].id < i64::MAX,
                forall|a: int, b: int| 0 <= a < b < i ==> #[trigger] tags@[a].id < #[trigger] tags@[b].id,
                forall|a: int, b: int| 0 <= a < i && 0 <= b < i && a != b ==> #[trigger] tags@[a].name@ != #[trigger] tags@[b].name@,
            decreases tags@.len() - i,
        {
            if tags[i].id < 1 || tags[i].id == i64::MAX {
                assert(s.tags[i as int] == tags@[i as int]);
                return Err(Error::InvalidRows);
            }
            if i > 0 && tags[i - 1].id >= tags[i].id {
                assert(s.tags[i - 1] == tags@[i - 1]);
                assert(s.tags[i as int] == tags@[i as int]);
                return Err(Error::InvalidRows);
            }
            let mut j: usize = 0;
            while j < i
                invariant
                    i < tags@.len(),
                    j <= i,
                    s == loaded_state(bookmarks@, tags@, links@),
                    forall|b: int| 0 <= b < j ==> tags@[b].name@ != tags@[i as int].name@,
                decreases i - j,
            {
                if tags[j].name == tags[i].name {
                    assert(s.tags[j as int] == tags@[j as int]);
                    assert(s.tags[i as int] == tags@[i as int]);
                    return Err(Error::InvalidRows);
                }
                j = j + 1;
            }
            i = i + 1;
        }
        let mut i: usize = 0;
        while i < links.len()
            invariant
                i <= links@.len(),
                s == loaded_state(bookmarks@, tags@, links@),
                s.bookmark_ids() == bookmarks@.map_values(bid),
                s.tag_ids() == tags@.map_values(tid),
                bid == (|r: BookmarkRow| r.id),
                tid == (|t: Tag| t.id),
                forall|k: int| 0 <= k < bookmarks@.len() ==> 1 <= #[trigger] bookmarks@[k].id < i64::MAX,
                forall|a: int, b: int| 0 <= a < b < bookmarks@.len() ==> #[trigger] bookmarks@[a].id < #[trigger] bookmarks@[b].id,
                forall|k: int| 0 <= k < tags@.len() ==> 1 <= #[trigger] tags@[k].id < i64::MAX,
                forall|a: int, b: int| 0 <= a < b < tags@.len() ==> #[trigger] tags@[a].id < #[trigger] tags@[b].id,
                forall|a: int, b: int| 0 <= a < tags@.len() && 0 <= b < tags@.len() && a != b ==> #[trigger] tags@[a].name@ != #[trigger] tags@[b].name@,
                forall|k: int| #![trigger links@[k]] 0 <= k < i ==> s.bookmark_ids().contains(links@[k].bookmark_id)
                    && s.tag_ids().contains(links@[k].tag_id),
                forall|a: int, b: int| 0 <= a < i && 0 <= b < i && a != b ==> links@[a] != links@[b],
            decreases links@.len() - i,
        {
            let l = links[i];
            let mut found = false;
            let mut j: usize = 0;
            while j < bookmarks.len()
                invariant
                    j <= bookmarks@.len(),
                    found ==> s.bookmark_ids().contains(l.bookmark_id),
                    !found ==> forall|b: int| 0 <= b < j ==> bookmarks@[b].id != l.bookmark_id,
                    s.bookmark_ids() == bookmarks@.map_values(bid),
                    bid == (|r: BookmarkRow| r.id),
                decreases bookmarks@.len() - j,
            {
                if bookmarks[j].id == l.bookmark_id {
                    assert(s.bookmark_ids()[j as int] == l.bookmark_id);
                    found = true;
                }
                j = j + 1;
            }
            if !found {
                assert(!s.bookmark_ids().contains(l.bookmark_id));
                assert(s.links[i as int] == l);
                return Err(Error::InvalidRows);
            }
            let mut found = false;
            let mut j: usize = 0;
            while j < tags.len()
                invariant
                    j <= tags@.len(),
                    found ==> s.tag_ids().contains(l.tag_id),
                    !found ==> forall|b: int| 0 <= b < j ==> tags@[b].id != l.tag_id,
                    s.tag_ids() == tags@.map_values(tid),
                    tid == (|t: Tag| t.id),
                decreases tags@.len() - j,
            {
                if tags[j].id == l.tag_id {
                    assert(s.tag_ids()[j as int] == l.tag_id);
                    found = true;
                }
                j = j + 1;
            }
            if !found {
                assert(!s.tag_ids().contains(l.tag_id));
                assert(s.links[i as int] == l);
                return Err(Error::InvalidRows);
            }
            let mut j: usize = 0;
            while j < i
                invariant
                    i < links@.len(),
                    j <= i,
                    s == loaded_state(bookmarks@, tags@, links@),
                    l == links@[i as int],
                    forall|b: int| 0 <= b < j ==> links@[b] != l,
                decreases i - j,
            {
                if links[j] == l {
                    assert(s.links[j as int] == s.links[i as int]);
                    return Err(Error::InvalidRows);
                }
                j = j + 1;
            }
            i = i + 1;
        }
        let next_bookmark_id = if bookmarks.len() == 0 {
            1
        } else {
            bookmarks[bookmarks.len() - 1].id + 1
        };
        let next_tag_id = if tags.len() == 0 {
            1
        } else {
            tags[tags.len() - 1].id + 1
        };
        proof {
            if bookmarks@.len() > 0 {
                assert(bookmarks@.map_values(bid).last() == bookmarks@.last().id);
                assert forall|k: int| 0 <= k < bookmarks@.len() implies #[trigger] bookmarks@[k].id < next_bookmark_id by {
                    if k < bookmarks@.len() - 1 {
                        assert(bookmarks@[k].id < bookmarks@[bookmarks@.len() - 1].id);
                    }
                }
            }
            if tags@.len() > 0 {
                assert(tags@.map_values(tid).last() == tags@.last().id);
                assert forall|k: int| 0 <= k < tags@.len() implies #[trigger] tags@[k].id < next_tag_id by {
                    if k < tags@.len() - 1 {
                        assert(tags@[k].id < tags@[tags@.len() - 1].id);
                    }
                }
            }
        }
        let repo = Repo { bookmarks, tags, links, next_bookmark_id, next_tag_id };
        assert(repo@ == s);
        Ok(repo)
    }

    /// The bookmark table, in table order.
    pub fn bookmark_rows(&self) -> (r: Vec<BookmarkRow>)
        ensures
            r@ == self@.bookmarks,
    {
        clone_rows(&self.bookmarks)
    }

    /// The junction table, in table order.
    pub fn link_rows(&self) -> (r: Vec<TagLink>)
        ensures
            r@ == self@.links,
    {
        clone_links(&self.links)
    }

    /// All tags, in table order.
    pub fn fetch_all_tags(&self) -> (r: Vec<Tag>)
        ensures
            r@ == self@.tags,
    {
        clone_tags(&self.tags)
    }

    fn tags_of(&self, bid: i64) -> (r: Vec<Tag>)
        ensures
            r@ == self@.tags_of(bid),
    {
        let mut r: Vec<Tag> = Vec::new();
        let mut k: usize = 0;
        while k < self.links.len()
            invariant
                k <= self.links@.len(),
                r@ == linked_tags(self.tags@, self.links@.take(k as int), bid),
            decreases self.links@.len() - k,
        {
            let l = self.links[k];
            assert(self.links@.take(k + 1).drop_last() =~= self.links@.take(k as int));
            if l.bookmark_id == bid {
                match find_tag(&self.tags, l.tag_id) {
                    Some(t) => r.push(t),
                    None => {},
                }
            }
            k = k + 1;
        }
        assert(self.links@.take(k as int) =~= self.links@);
        r
    }

    /// Every bookmark with its tags loaded; with a non-empty `filter`, only
    /// those carrying at least one tag whose identifier is in `filter`.
    pub fn fetch_all(&self, filter: Vec<Tag>) -> (r: Vec<Bookmark>)
        ensures
            r@.len() == self@.selected(filter@).len(),
            forall|i: int|
                0 <= i < r@.len() ==> shows(self@, #[trigger] r@[i], self@.selected(filter@)[i]),
    {
        let ghost pred = |r: BookmarkRow| passes_filter(self@.tags_of(r.id), filter@);
        let mut r: Vec<Bookmark> = Vec::new();
        let mut i: usize = 0;
        while i < self.bookmarks.len()
            invariant
                i <= self.bookmarks@.len(),
                pred == (|r: BookmarkRow| passes_filter(self@.tags_of(r.id), filter@)),
                r@.len() == self.bookmarks@.take(i as int).filter(pred).len(),
                forall|k: int|
                    0 <= k < r@.len() ==> shows(
                        self@,
                        #[trigger] r@[k],
                        self.bookmarks@.take(i as int).filter(pred)[k],
                    ),
            decreases self.bookmarks@.len() - i,
        {
            let row = &self.bookmarks[i];
            let tags = self.tags_of(row.id);
            assert(self.bookmarks@.take(i + 1).drop_last() =~= self.bookmarks@.take(i as int));
            reveal(Seq::filter);
            if matches_filter(&tags, &filter) {
                r.push(
                    Bookmark {
                        id: row.id,
                        title: clone_title(&row.title),
                        url: row.url.clone(),
                        tags: Some(tags),
                    },
                );
            }
            i = i + 1;
        }
        assert(self.bookmarks@.take(i as int) =~= self.bookmarks@);
        r
    }
}

} // verus!

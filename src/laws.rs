//! Properties that relate several operations of the store.
use vstd::prelude::*;

use crate::bookmarks::NewBookmarkParams;
use crate::error::Error;
use crate::model::{lemma_tag_with_id, linked_tags, links_for, BookmarkRow, RepoState, TagLink};
use crate::tags::{passes_filter, tag_named, Tag};

verus! {


proof fn lemma_filter_all<A>(s: Seq<A>, p: spec_fn(A) -> bool)
    requires
        forall|i: int| 0 <= i < s.len() ==> p(#[trigger] s[i]),
    ensures
        s.filter(p) == s,
    decreases s.len(),
{
    reveal(Seq::filter);
    if s.len() > 0 {
        lemma_filter_all(s.drop_last(), p);
        assert(s.drop_last().push(s.last()) =~= s);
    }
}

/// `fetch_all` with tag filter `filter` lists exactly the stored bookmarks
/// that pass the filter, in table order; with an empty filter, all of them.
pub proof fn lemma_fetch_all_filter(s: RepoState, filter: Seq<Tag>)
    ensures
        forall|row: BookmarkRow|
            s.bookmarks.contains(row) ==> (s.selected(filter).contains(row) <==> passes_filter(
                s.tags_of(row.id),
                filter,
            )),
        forall|i: int|
            0 <= i < s.selected(filter).len() ==> s.bookmarks.contains(#[trigger] s.selected(filter)[i])
                && passes_filter(s.tags_of(s.selected(filter)[i].id), filter),
        filter.len() == 0 ==> s.selected(filter) == s.bookmarks,
{
    let p = |r: BookmarkRow| passes_filter(s.tags_of(r.id), filter);
    assert forall|row: BookmarkRow| s.bookmarks.contains(row) implies (s.selected(filter).contains(row)
        <==> passes_filter(s.tags_of(row.id), filter)) by {
        if s.selected(filter).contains(row) {
            s.bookmarks.lemma_filter_contains_rev(p, row);
        }
        if passes_filter(s.tags_of(row.id), filter) {
            let k = choose|k: int| 0 <= k < s.bookmarks.len() && s.bookmarks[k] == row;
            s.bookmarks.lemma_filter_contains(p, k);
        }
    }
    assert forall|i: int| 0 <= i < s.selected(filter).len() implies s.bookmarks.contains(
        #[trigger] s.selected(filter)[i],
    ) && passes_filter(s.tags_of(s.selected(filter)[i].id), filter) by {
        s.bookmarks.lemma_filter_pred(p, i);
        s.bookmarks.lemma_filter_contains_rev(p, s.selected(filter)[i]);
    }
    if filter.len() == 0 {
        lemma_filter_all(s.bookmarks, p);
    }
}

/// Creating a bookmark and then deleting it by the identifier it got leaves
/// the bookmark, tag and junction tables as they were.
pub proof fn lemma_create_then_delete(s: RepoState, row: BookmarkRow, given: Seq<Tag>)
    requires
        s.wf(),
        row.id == s.next_bookmark_id,
    ensures
        s.with_row(row, given).without_bookmark(row.id).bookmarks == s.bookmarks,
        s.with_row(row, given).without_bookmark(row.id).links == s.links,
        s.with_row(row, given).without_bookmark(row.id).tags == s.tags,
{
    let pb = |r: BookmarkRow| r.id != row.id;
    let pl = |l: TagLink| l.bookmark_id != row.id;
    let nl = links_for(row.id, given);
    reveal(Seq::filter);
    assert(s.bookmarks.push(row).drop_last() =~= s.bookmarks);
    lemma_filter_all(s.bookmarks, pb);
    assert forall|k: int| 0 <= k < s.links.len() implies pl(#[trigger] s.links[k]) by {
        let m = choose|m: int| 0 <= m < s.bookmark_ids().len() && s.bookmark_ids()[m] == s.links[k].bookmark_id;
        assert(s.bookmarks[m].id < row.id);
    }
    lemma_filter_all(s.links, pl);
    Seq::filter_distributes_over_add(s.links, nl, pl);
    assert forall|k: int| 0 <= k < nl.len() implies !pl(#[trigger] nl[k]) by {}
    nl.lemma_all_neg_filter_empty(pl);
    assert(s.links.filter(pl) + nl.filter(pl) =~= s.links);
}

/// A bookmark created in a store is listed by an unfiltered `fetch_all`,
/// last, with the title and URL text it was created with.
pub proof fn lemma_created_is_listed(s: RepoState, row: BookmarkRow, given: Seq<Tag>)
    ensures
        s.with_row(row, given).selected(Seq::empty()).last() == row,
        s.with_row(row, given).selected(Seq::empty()).len() == s.bookmarks.len() + 1,
{
    let n = s.with_row(row, given);
    lemma_fetch_all_filter(n, Seq::empty());
}


/// A batch of two bookmarks that both carry one tag, by the same name, which
/// the store does not hold yet, adds two bookmark rows, exactly one tag row
/// and two junction rows.
pub proof fn lemma_batch_shared_tag(s: RepoState, a: NewBookmarkParams, b: NewBookmarkParams)
    requires
        s.wf(),
        a.tags@.len() == 1,
        b.tags@.len() == 1,
        a.tags@[0]@ == b.tags@[0]@,
        tag_named(s.tags, a.tags@[0]@) is None,
        s.add_items(seq![a, b]) is Ok,
    ensures
        s.add_items(seq![a, b])->Ok_0.bookmarks.len() == s.bookmarks.len() + 2,
        s.add_items(seq![a, b])->Ok_0.tags.len() == s.tags.len() + 1,
        s.add_items(seq![a, b])->Ok_0.links.len() == s.links.len() + 2,
{
    let items = seq![a, b];
    assert(items.drop_last() =~= seq![a]);
    assert(seq![a].drop_last() =~= Seq::<NewBookmarkParams>::empty());
    assert(a.tags@.drop_last() =~= Seq::<String>::empty());
    assert(b.tags@.drop_last() =~= Seq::<String>::empty());
    assert(s.add_items(Seq::<NewBookmarkParams>::empty()) == Ok::<RepoState, Error>(s));
    assert(s.add_items(seq![a]) == s.add_item(a));
    assert(s.add_items(items) == match s.add_item(a) {
        Ok(s1) => s1.add_item(b),
        Err(e) => Err(e),
    });
    assert(s.add_item(a) is Ok);
    let s1 = s.add_item(a)->Ok_0;
    let name = a.tags@[0];
    let bid = s.next_bookmark_id as i64;
    let base = s.with_row(BookmarkRow { id: bid, title: a.title, url: a.url }, Seq::empty());
    assert(base.attach_names(bid, Seq::<String>::empty()) == Ok::<RepoState, Error>(base));
    assert(s.add_item(a) == base.attach_names(bid, a.tags@));
    assert(base.attach_names(bid, a.tags@) == base.attach_name(bid, name));
    assert(base.tags == s.tags);
    let t = Tag { id: s.next_tag_id as i64, name };
    assert(s1.tags == s.tags.push(t));
    assert(s1.links.len() == s.links.len() + 1);
    assert(tag_named(s1.tags, b.tags@[0]@) == Some(t));
    let bid2 = s1.next_bookmark_id as i64;
    let base2 = s1.with_row(BookmarkRow { id: bid2, title: b.title, url: b.url }, Seq::empty());
    assert(base2.attach_names(bid2, Seq::<String>::empty()) == Ok::<RepoState, Error>(base2));
    assert(s1.add_item(b) == base2.attach_names(bid2, b.tags@));
    assert(base2.attach_names(bid2, b.tags@) == base2.attach_name(bid2, b.tags@[0]));
    assert(base2.tags == s1.tags);
}


/// Whether some tag of `ts` has identifier `x`.
pub open spec fn has_tag_id(ts: Seq<Tag>, x: i64) -> bool {
    exists|i: int| 0 <= i < ts.len() && #[trigger] ts[i].id == x
}

proof fn lemma_linked_ids(tags: Seq<Tag>, links: Seq<TagLink>, bid: i64, x: i64)
    requires
        forall|k: int| 0 <= k < links.len() ==> has_tag_id(tags, #[trigger] links[k].tag_id),
    ensures
        has_tag_id(linked_tags(tags, links, bid), x) <==> links.contains(TagLink { bookmark_id: bid, tag_id: x }),
    decreases links.len(),
{
    if links.len() > 0 {
        let d = links.drop_last();
        let l = links.last();
        assert forall|k: int| 0 <= k < d.len() implies has_tag_id(tags, #[trigger] d[k].tag_id) by {
            assert(d[k] == links[k]);
        }
        lemma_linked_ids(tags, d, bid, x);
        let rest = linked_tags(tags, d, bid);
        let target = TagLink { bookmark_id: bid, tag_id: x };
        assert(has_tag_id(tags, links[links.len() - 1].tag_id));
        lemma_tag_with_id(tags, l.tag_id);
        let cur = linked_tags(tags, links, bid);
        if has_tag_id(rest, x) {
            let i = choose|i: int| 0 <= i < rest.len() && #[trigger] rest[i].id == x;
            assert(cur[i] == rest[i]);
            let k = choose|k: int| 0 <= k < d.len() && d[k] == target;
            assert(links[k] == target);
        }
        if links.contains(target) {
            let k = choose|k: int| 0 <= k < links.len() && links[k] == target;
            if k < d.len() {
                assert(d[k] == target);
                let i = choose|i: int| 0 <= i < rest.len() && #[trigger] rest[i].id == x;
                assert(cur[i] == rest[i]);
            } else {
                assert(cur[rest.len() as int].id == x);
            }
        }
        if has_tag_id(cur, x) {
            let i = choose|i: int| 0 <= i < cur.len() && #[trigger] cur[i].id == x;
            if i < rest.len() {
                assert(rest[i] == cur[i]);
            } else {
                assert(l == target);
                assert(links[links.len() - 1] == target);
            }
        }
    }
}

/// In every store, the tags that `fetch_all` attaches to bookmark `bid`
/// carry exactly the tag identifiers that its junction rows name; so the tag
/// filter matches a bookmark exactly when its set of tag identifiers meets
/// the filter's.
pub proof fn lemma_tags_of_are_links(s: RepoState, bid: i64, x: i64)
    requires
        s.wf(),
    ensures
        has_tag_id(s.tags_of(bid), x) <==> s.links.contains(TagLink { bookmark_id: bid, tag_id: x }),
{
    assert forall|k: int| 0 <= k < s.links.len() implies has_tag_id(s.tags, #[trigger] s.links[k].tag_id) by {
        assert(s.tag_ids().contains(s.links[k].tag_id));
        let m = choose|m: int| 0 <= m < s.tag_ids().len() && s.tag_ids()[m] == s.links[k].tag_id;
        assert(s.tags[m].id == s.links[k].tag_id);
    }
    lemma_linked_ids(s.tags, s.links, bid, x);
}

} // verus!

//! Tags, lookups in tag lists, and the tag filter.
use vstd::prelude::*;

use crate::error::Error;
use crate::store::Repo;

verus! {

/// A named label that can be attached to many bookmarks.
#[derive(Debug)]
pub struct Tag {
    pub id: i64,
    pub name: String,
}

impl Tag {
    pub fn new(id: i64, name: String) -> (r: Tag)
        ensures
            r.id == id,
            r.name == name,
    {
        Tag { id, name }
    }
}

impl Clone for Tag {
    fn clone(&self) -> (r: Tag)
        ensures
            r == *self,
    {
        Tag { id: self.id, name: self.name.clone() }
    }
}

} // verus!

verus! {

impl Tag {
    /// See [`Repo::fetch_all_tags`].
    pub fn fetch_all(repo: &Repo) -> (r: Vec<Tag>)
        ensures
            r@ == repo@.tags,
    {
        repo.fetch_all_tags()
    }

    /// See [`Repo::create_tag`].
    pub fn create(repo: &mut Repo, name: String) -> (r: Result<Tag, Error>)
        ensures
            r is Ok <==> tag_named(old(repo)@.tags, name@) is None && old(repo)@.next_tag_id < i64::MAX,
            tag_named(old(repo)@.tags, name@) is Some ==> r == Err::<Tag, Error>(Error::TagNameTaken),
            r is Err ==> final(repo)@ == old(repo)@,
            r matches Ok(t) ==> t.id == old(repo)@.next_tag_id && t.name == name
                && final(repo)@ == old(repo)@.with_tag(t),
    {
        repo.create_tag(name)
    }

    /// See [`Repo::get_tag`].
    pub fn get(repo: &Repo, id: i64) -> (r: Result<Tag, Error>)
        ensures
            r == match tag_with_id(repo@.tags, id) {
                Some(t) => Ok::<Tag, Error>(t),
                None => Err(Error::NotFound),
            },
    {
        repo.get_tag(id)
    }

    /// See [`Repo::get_tag_by_name`].
    pub fn get_by_name(repo: &Repo, name: String) -> (r: Result<Tag, Error>)
        ensures
            r == match tag_named(repo@.tags, name@) {
                Some(t) => Ok::<Tag, Error>(t),
                None => Err(Error::NotFound),
            },
    {
        repo.get_tag_by_name(name)
    }

    /// See [`Repo::delete_tag`].
    pub fn delete(repo: &mut Repo, id: i64) -> (r: Result<Tag, Error>)
        ensures
            r == match tag_with_id(old(repo)@.tags, id) {
                Some(t) => Ok::<Tag, Error>(t),
                None => Err(Error::NotFound),
            },
            r is Err ==> final(repo)@ == old(repo)@,
            r is Ok ==> final(repo)@ == old(repo)@.without_tag(id),
    {
        repo.delete_tag(id)
    }
}

/// A copy of a tag list.
pub fn clone_tags(v: &Vec<Tag>) -> (r: Vec<Tag>)
    ensures
        r@ == v@,
{
    let mut r: Vec<Tag> = Vec::new();
    let mut i: usize = 0;
    while i < v.len()
        invariant
            i <= v@.len(),
            r@ == v@.take(i as int),
        decreases v@.len() - i,
    {
        r.push(v[i].clone());
        i = i + 1;
        assert(r@ =~= v@.take(i as int));
    }
    assert(v@.take(i as int) =~= v@);
    r
}

} // verus!

verus! {

/// The tag of `tags` with identifier `id`, the last one where several share it.
pub open spec fn tag_with_id(tags: Seq<Tag>, id: i64) -> Option<Tag>
    decreases tags.len(),
{
    if tags.len() == 0 {
        None
    } else if tags.last().id == id {
        Some(tags.last())
    } else {
        tag_with_id(tags.drop_last(), id)
    }
}

/// The tag of `tags` named `name`, the last one where several share it.
pub open spec fn tag_named(tags: Seq<Tag>, name: Seq<char>) -> Option<Tag>
    decreases tags.len(),
{
    if tags.len() == 0 {
        None
    } else if tags.last().name@ == name {
        Some(tags.last())
    } else {
        tag_named(tags.drop_last(), name)
    }
}

/// Whether some tag of `tags` has the identifier of some tag of `filter`.
pub open spec fn shares_tag(tags: Seq<Tag>, filter: Seq<Tag>) -> bool {
    exists|i: int, j: int|
        0 <= i < tags.len() && 0 <= j < filter.len() && #[trigger] tags[i].id == #[trigger] filter[j].id
}

/// The tag filter: an empty filter lets everything through, any other one
/// the tag lists that share at least one identifier with it.
pub open spec fn passes_filter(tags: Seq<Tag>, filter: Seq<Tag>) -> bool {
    filter.len() == 0 || shares_tag(tags, filter)
}

/// The tag of `tags` with identifier `id`.
pub fn find_tag(tags: &Vec<Tag>, id: i64) -> (r: Option<Tag>)
    ensures
        r == tag_with_id(tags@, id),
{
    let mut i: usize = tags.len();
    assert(tags@.take(i as int) =~= tags@);
    while i > 0
        invariant
            i <= tags@.len(),
            tag_with_id(tags@, id) == tag_with_id(tags@.take(i as int), id),
        decreases i,
    {
        assert(tags@.take(i as int).drop_last() =~= tags@.take(i - 1));
        if tags[i - 1].id == id {
            return Some(tags[i - 1].clone());
        }
        i = i - 1;
    }
    None
}

/// The tag of `tags` named `name`.
pub fn find_tag_by_name(tags: &Vec<Tag>, name: &String) -> (r: Option<Tag>)
    ensures
        r == tag_named(tags@, name@),
{
    let mut i: usize = tags.len();
    assert(tags@.take(i as int) =~= tags@);
    while i > 0
        invariant
            i <= tags@.len(),
            tag_named(tags@, name@) == tag_named(tags@.take(i as int), name@),
        decreases i,
    {
        assert(tags@.take(i as int).drop_last() =~= tags@.take(i - 1));
        if tags[i - 1].name == *name {
            return Some(tags[i - 1].clone());
        }
        i = i - 1;
    }
    None
}

/// Whether a bookmark carrying `tags` passes the tag filter `filter`.
pub fn matches_filter(tags: &Vec<Tag>, filter: &Vec<Tag>) -> (r: bool)
    ensures
        r == passes_filter(tags@, filter@),
{
    if filter.len() == 0 {
        return true;
    }
    let mut i: usize = 0;
    while i < tags.len()
        invariant
            i <= tags@.len(),
            filter@.len() > 0,
            forall|a: int, b: int|
                0 <= a < i && 0 <= b < filter@.len() ==> tags@[a].id != filter@[b].id,
        decreases tags@.len() - i,
    {
        let mut j: usize = 0;
        while j < filter.len()
            invariant
                i < tags@.len(),
                j <= filter@.len(),
                forall|b: int| 0 <= b < j ==> tags@[i as int].id != filter@[b].id,
            decreases filter@.len() - j,
        {
            if tags[i].id == filter[j].id {
                assert(tags@[i as int].id == filter@[j as int].id);
                return true;
            }
            j = j + 1;
        }
        i = i + 1;
    }
    false
}

} // verus!

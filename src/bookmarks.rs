//! Bookmarks, their validated URLs, and the parameters for creating them.
use vstd::prelude::*;

use crate::error::Error;
use crate::store::{batch_result, distinct_ids, given_tags, shows, BookmarkRow, Repo, RepoState};
use crate::tags::{clone_tags, Tag};

verus! {

#[verifier::external_type_specification]
#[verifier::external_body]
pub struct ExParseError(url::ParseError);

/// What `url::Url::parse` makes of a string: `None` where it rejects it,
/// else the serialization of the parsed URL.
pub uninterp spec fn parsed_url(s: Seq<char>) -> Option<Seq<char>>;

/// Relies on `url::Url::parse`, which accepts exactly the absolute URLs, and on
/// `Url::as_str`, which gives the serialization of what was parsed.
#[verifier::external_body]
fn parse_url(s: &str) -> (r: Result<String, url::ParseError>)
    ensures
        r is Ok <==> parsed_url(s@) is Some,
        r matches Ok(t) ==> parsed_url(s@) == Some(t@),
{
    match url::Url::parse(s) {
        Ok(u) => Ok(u.as_str().to_string()),
        Err(e) => Err(e),
    }
}

/// A string that is the serialization of some parsed absolute URL.
pub open spec fn is_url_text(t: Seq<char>) -> bool {
    exists|s: Seq<char>| parsed_url(s) == Some(t)
}

/// The text of a valid absolute URL; only [`BookmarkUrl::parse`] makes one.
#[derive(Debug)]
pub struct BookmarkUrl {
    inner: String,
}

impl View for BookmarkUrl {
    type V = Seq<char>;

    closed spec fn view(&self) -> Seq<char> {
        self.inner@
    }
}

impl BookmarkUrl {
    #[verifier::type_invariant]
    spec fn inv(self) -> bool {
        is_url_text(self.inner@)
    }

    /// Parses `s` as an absolute URL and keeps its serialization.
    pub fn parse(s: &str) -> (r: Result<BookmarkUrl, Error>)
        ensures
            r is Ok <==> parsed_url(s@) is Some,
            r matches Ok(u) ==> parsed_url(s@) == Some(u@),
            r matches Err(e) ==> e == Error::InvalidUrl,
    {
        match parse_url(s) {
            Ok(t) => Ok(BookmarkUrl { inner: t }),
            Err(_) => Err(Error::InvalidUrl),
        }
    }

    /// The URL text; it is always the serialization of a parsed URL.
    pub fn as_str(&self) -> (r: &str)
        ensures
            r@ == self@,
            is_url_text(r@),
    {
        proof {
            use_type_invariant(self);
        }
        self.inner.as_str()
    }

    /// The URL text, taken out.
    pub fn into_string(self) -> (r: String)
        ensures
            r@ == self@,
            is_url_text(r@),
    {
        proof {
            use_type_invariant(&self);
        }
        self.inner
    }
}

impl Clone for BookmarkUrl {
    fn clone(&self) -> (r: BookmarkUrl)
        ensures
            r == *self,
    {
        proof {
            use_type_invariant(self);
        }
        BookmarkUrl { inner: self.inner.clone() }
    }
}

/// What a caller hands in to create a bookmark whose tags are given by name.
#[derive(Debug)]
pub struct NewBookmarkParams {
    pub title: Option<String>,
    pub url: BookmarkUrl,
    pub tags: Vec<String>,
}

impl NewBookmarkParams {
    pub fn new(title: Option<String>, url: BookmarkUrl, tags: Vec<String>) -> (r: Self)
        ensures
            r.title == title,
            r.url == url,
            r.tags == tags,
    {
        NewBookmarkParams { title, url, tags }
    }
}

/// A stored bookmark; `tags` is `None` where they were not loaded.
#[derive(Debug)]
pub struct Bookmark {
    pub id: i64,
    pub title: Option<String>,
    pub url: BookmarkUrl,
    pub tags: Option<Vec<Tag>>,
}

/// Both tag lists absent, or both present with the same tags.
pub open spec fn same_tags(a: Option<Vec<Tag>>, b: Option<Vec<Tag>>) -> bool {
    match (a, b) {
        (Some(x), Some(y)) => x@ == y@,
        (None, None) => true,
        _ => false,
    }
}

impl Bookmark {
    pub fn new(id: i64, title: Option<String>, url: BookmarkUrl, tags: Option<Vec<Tag>>) -> (r: Self)
        ensures
            r.id == id,
            r.title == title,
            r.url == url,
            r.tags == tags,
    {
        Bookmark { id, title, url, tags }
    }

    /// Equal in every field that a reader can observe.
    pub open spec fn same_as(self, o: Bookmark) -> bool {
        &&& self.id == o.id
        &&& self.title == o.title
        &&& self.url@ == o.url@
        &&& same_tags(self.tags, o.tags)
    }
}

impl Bookmark {
    /// See [`Repo::fetch_all`].
    pub fn fetch_all(repo: &Repo, tags_filter: Vec<Tag>) -> (r: Vec<Bookmark>)
        ensures
            r@.len() == repo@.selected(tags_filter@).len(),
            forall|i: int|
                0 <= i < r@.len() ==> shows(repo@, #[trigger] r@[i], repo@.selected(tags_filter@)[i]),
    {
        repo.fetch_all(tags_filter)
    }

    /// See [`Repo::create`].
    pub fn create(repo: &mut Repo, title: Option<String>, url: BookmarkUrl, tags: Option<Vec<Tag>>) -> (r: Result<Bookmark, Error>)
        ensures
            old(repo)@.next_bookmark_id == i64::MAX ==> r == Err::<Bookmark, Error>(Error::IdsExhausted),
            old(repo)@.next_bookmark_id < i64::MAX && !old(repo)@.all_known(given_tags(tags))
                ==> r == Err::<Bookmark, Error>(Error::NotFound),
            old(repo)@.next_bookmark_id < i64::MAX && old(repo)@.all_known(given_tags(tags))
                && !distinct_ids(given_tags(tags)) ==> r == Err::<Bookmark, Error>(Error::DuplicateLink),
            r is Ok <==> old(repo)@.next_bookmark_id < i64::MAX && old(repo)@.all_known(given_tags(tags))
                && distinct_ids(given_tags(tags)),
            r is Err ==> final(repo)@ == old(repo)@,
            r matches Ok(b) ==> b.id == old(repo)@.next_bookmark_id && b.title == title && b.url == url
                && b.tags == tags && final(repo)@ == old(repo)@.with_row(
                BookmarkRow { id: b.id, title, url },
                given_tags(tags),
            ),
    {
        repo.create(title, url, tags)
    }

    /// See [`Repo::batch_create`].
    pub fn batch_create(repo: &mut Repo, params: Vec<NewBookmarkParams>) -> (r: Result<Vec<Bookmark>, Error>)
        ensures
            r is Ok <==> old(repo)@.add_items(params@) is Ok,
            r matches Err(e) ==> old(repo)@.add_items(params@) == Err::<RepoState, Error>(e)
                && final(repo)@ == old(repo)@,
            r matches Ok(v) ==> {
                &&& final(repo)@ == old(repo)@.add_items(params@)->Ok_0
                &&& v@.len() == params@.len()
                &&& forall|k: int|
                    0 <= k < v@.len() ==> batch_result(final(repo)@, old(repo)@.next_bookmark_id + k, #[trigger] v@[k], params@[k])
            },
    {
        repo.batch_create(params)
    }

    /// See [`Repo::delete`].
    pub fn delete(repo: &mut Repo, id: i64)
        ensures
            final(repo)@ == old(repo)@.without_bookmark(id),
    {
        repo.delete(id)
    }
}

/// A copy of an optional title.
pub fn clone_title(t: &Option<String>) -> (r: Option<String>)
    ensures
        r == *t,
{
    match t {
        Some(s) => Some(s.clone()),
        None => None,
    }
}

impl Clone for Bookmark {
    fn clone(&self) -> (r: Bookmark)
        ensures
            r.same_as(*self),
    {
        let tags = match &self.tags {
            Some(v) => Some(clone_tags(v)),
            None => None,
        };
        Bookmark { id: self.id, title: clone_title(&self.title), url: self.url.clone(), tags }
    }
}

} // verus!

//! The remote bookmark source's data, and what it becomes for import.
use vstd::prelude::*;

use crate::bookmarks::{BookmarkUrl, NewBookmarkParams};
use crate::error::Error;

verus! {

#[verifier::external_type_specification]
#[verifier::external_body]
pub struct ExDateParseError(chrono::ParseError);

/// What `chrono::NaiveDate::parse_from_str` makes of `s` under format `fmt`:
/// `None` where it rejects it, else the year, month and day.
pub uninterp spec fn parsed_date(s: Seq<char>, fmt: Seq<char>) -> Option<(i32, u32, u32)>;

/// Relies on `chrono::NaiveDate::parse_from_str`, and on `Datelike::year`,
/// `Datelike::month` (1 to 12) and `Datelike::day` (1 to 31) of its result.
#[verifier::external_body]
fn parse_date(s: &str, fmt: &str) -> (r: Result<(i32, u32, u32), chrono::ParseError>)
    ensures
        r is Ok <==> parsed_date(s@, fmt@) is Some,
        r matches Ok(d) ==> parsed_date(s@, fmt@) == Some(d) && 1 <= d.1 <= 12 && 1 <= d.2 <= 31,
{
    match chrono::NaiveDate::parse_from_str(s, fmt) {
        Ok(d) => Ok((chrono::Datelike::year(&d), chrono::Datelike::month(&d), chrono::Datelike::day(&d))),
        Err(e) => Err(e),
    }
}

/// How the remote source writes the day a link was created: "Mar 14, 21".
pub const CREATED_AT_FORMAT: &'static str = "%b %d, %y";

/// The day a link was created; it stands for midnight UTC of that day.
#[derive(Debug, Clone, Copy, PartialEq, Eq, Structural)]
pub struct LinkDate {
    pub year: i32,
    pub month: u32,
    pub day: u32,
}

impl LinkDate {
    /// Reads a date written as the remote source writes it.
    pub fn parse(s: &str) -> (r: Result<LinkDate, Error>)
        ensures
            r is Ok <==> parsed_date(s@, CREATED_AT_FORMAT@) is Some,
            r matches Ok(d) ==> parsed_date(s@, CREATED_AT_FORMAT@) == Some((d.year, d.month, d.day))
                && 1 <= d.month <= 12 && 1 <= d.day <= 31,
            r matches Err(e) ==> e == Error::InvalidDate,
    {
        match parse_date(s, CREATED_AT_FORMAT) {
            Ok((year, month, day)) => Ok(LinkDate { year, month, day }),
            Err(_) => Err(Error::InvalidDate),
        }
    }
}

/// A tag pack of the remote source.
#[derive(Debug)]
pub struct Pack {
    pub id: String,
    pub name: String,
    pub color: u16,
}

/// A tag as the remote source describes it.
#[derive(Debug)]
pub struct Tag {
    pub id: String,
    pub name: String,
    pub url: String,
    pub pack: Option<Pack>,
}

/// A link as the remote source describes it.
#[derive(Debug)]
pub struct Link {
    pub id: String,
    pub title: String,
    pub description: Option<String>,
    pub source_url: BookmarkUrl,
    pub is_private: bool,
    pub thumbnail_source: Option<String>,
    pub thumbnail_source_url: Option<String>,
    pub thumbnail_id: Option<String>,
    pub thumbnail_url: Option<String>,
    pub url: String,
    pub created_at: LinkDate,
    pub tags: Vec<Tag>,
}

/// Whether `p` is what `link` becomes for a batch import: its title, its
/// source URL and the names of its tags, in order.
pub open spec fn imports(link: Link, p: NewBookmarkParams) -> bool {
    &&& p.title == Some(link.title)
    &&& p.url == link.source_url
    &&& p.tags@.len() == link.tags@.len()
    &&& forall|i: int| 0 <= i < p.tags@.len() ==> #[trigger] p.tags@[i] == link.tags@[i].name
}

impl Link {
    /// The bookmark to create for this link.
    pub fn into_params(self) -> (r: NewBookmarkParams)
        ensures
            imports(self, r),
    {
        let mut names: Vec<String> = Vec::new();
        let mut i: usize = 0;
        while i < self.tags.len()
            invariant
                i <= self.tags@.len(),
                names@.len() == i,
                forall|k: int| 0 <= k < i ==> #[trigger] names@[k] == self.tags@[k].name,
            decreases self.tags@.len() - i,
        {
            names.push(self.tags[i].name.clone());
            i = i + 1;
        }
        NewBookmarkParams::new(Some(self.title), self.source_url, names)
    }
}

/// The bookmarks to create for `links`, one for each, in order.
pub fn links_to_params(links: Vec<Link>) -> (r: Vec<NewBookmarkParams>)
    ensures
        r@.len() == links@.len(),
        forall|i: int| 0 <= i < r@.len() ==> imports(links@[i], #[trigger] r@[i]),
{
    let mut links = links;
    let ghost all = links@;
    let mut rev: Vec<NewBookmarkParams> = Vec::new();
    while links.len() > 0
        invariant
            links@ == all.take(links@.len() as int),
            links@.len() + rev@.len() == all.len(),
            forall|k: int| 0 <= k < rev@.len() ==> imports(all[all.len() - 1 - k], #[trigger] rev@[k]),
        decreases links@.len(),
    {
        let link = links.pop().unwrap();
        assert(link == all[links@.len() as int]);
        rev.push(link.into_params());
        assert(links@ =~= all.take(links@.len() as int));
    }
    let mut r: Vec<NewBookmarkParams> = Vec::new();
    while rev.len() > 0
        invariant
            r@.len() + rev@.len() == all.len(),
            forall|k: int| 0 <= k < rev@.len() ==> imports(all[all.len() - 1 - k], #[trigger] rev@[k]),
            forall|i: int| 0 <= i < r@.len() ==> imports(all[i], #[trigger] r@[i]),
        decreases rev@.len(),
    {
        let ghost j = rev@.len() - 1;
        let p = rev.pop().unwrap();
        assert(imports(all[all.len() - 1 - j], p));
        r.push(p);
    }
    r
}

} // verus!

//! Fuzzy search over the loaded bookmarks, by title or by URL.
use vstd::prelude::*;
use vstd::string::StringExecFns;

use simsearch::{SearchOptions, SimSearch};

use crate::bookmarks::Bookmark;
use crate::error::Error;

verus! {

#[verifier::external_type_specification]
#[verifier::external_body]
#[verifier::reject_recursive_types(Id)]
pub struct ExSimSearch<Id: Eq + PartialEq + Clone + core::hash::Hash + Ord>(SimSearch<Id>);

/// The entries that a search engine holds: for each identifier, the text
/// last inserted under it.
pub uninterp spec fn indexed_texts(e: SimSearch<u32>) -> Map<u32, Seq<char>>;

/// The stop words that a search engine was made with.
pub uninterp spec fn engine_stop_words(e: SimSearch<u32>) -> Seq<Seq<char>>;

/// Whether `SimSearch::search`, with the default options and stop words
/// `stop_words`, counts an entry holding `text` as a match for `query`: some
/// token of the text is close enough to some token of the query.
pub uninterp spec fn fuzzy_hit(stop_words: Seq<Seq<char>>, text: Seq<char>, query: Seq<char>) -> bool;

/// Relies on `SearchOptions::new`, `SearchOptions::stop_words` and
/// `SimSearch::new_with`: a new engine holds no entry and keeps the stop words.
#[verifier::external_body]
fn new_engine(stop_words: Vec<String>) -> (r: SimSearch<u32>)
    ensures
        indexed_texts(r).dom() == Set::<u32>::empty(),
        engine_stop_words(r) == stop_words@.map_values(|w: String| w@),
{
    SimSearch::new_with(SearchOptions::new().stop_words(stop_words))
}

/// Relies on `SimSearch::insert`: afterwards `id` holds `content` (in place of
/// what it held) and every other entry stays.
#[verifier::external_body]
fn engine_insert(e: &mut SimSearch<u32>, id: u32, content: &str)
    ensures
        indexed_texts(*final(e)) == indexed_texts(*old(e)).insert(id, content@),
        engine_stop_words(*final(e)) == engine_stop_words(*old(e)),
{
    e.insert(id, content)
}

/// Relies on `SimSearch::search`: the identifiers of exactly the entries that
/// match, each once, best first. Which entries match depends on their texts
/// and the pattern alone; their order comes from floating-point scores summed
/// in hash map order, so it is not stated.
#[verifier::external_body]
fn engine_search(e: &SimSearch<u32>, pattern: &str) -> (r: Vec<u32>)
    ensures
        r@.no_duplicates(),
        forall|x: u32|
            r@.contains(x) <==> (indexed_texts(*e).contains_key(x) && fuzzy_hit(
                engine_stop_words(*e),
                indexed_texts(*e)[x],
                pattern@,
            )),
{
    e.search(pattern)
}

/// At most this many bookmarks come out of a non-empty search.
pub const RESULT_LIMIT: usize = 15;

/// Whether search by title (`for_titles`) or by URL indexes bookmark `b`.
pub open spec fn is_indexed(b: Bookmark, for_titles: bool) -> bool {
    !for_titles || b.title is Some
}

/// The text that a search by title (`for_titles`) or URL indexes `b` under.
pub open spec fn indexed_text(b: Bookmark, for_titles: bool) -> Seq<char> {
    if for_titles {
        b.title->Some_0@
    } else {
        b.url@
    }
}

/// The stop words of every search.
pub open spec fn search_stop_words() -> Seq<Seq<char>> {
    seq!["/"@, "\\\\"@]
}

/// The entries of the index that a search by title (`for_titles`) or URL
/// builds of `corpus`: each indexed bookmark's text under its identifier,
/// later bookmarks replacing earlier ones of the same identifier.
pub open spec fn search_index(corpus: Seq<Bookmark>, for_titles: bool) -> Map<u32, Seq<char>>
    decreases corpus.len(),
{
    if corpus.len() == 0 {
        Map::empty()
    } else {
        let m = search_index(corpus.drop_last(), for_titles);
        let b = corpus.last();
        if is_indexed(b, for_titles) {
            m.insert(b.id as u32, indexed_text(b, for_titles))
        } else {
            m
        }
    }
}

/// The first bookmark of `corpus` with identifier `id` that a search by
/// title (`for_titles`) or URL indexes.
pub open spec fn first_with_id(corpus: Seq<Bookmark>, id: int, for_titles: bool) -> Option<Bookmark>
    decreases corpus.len(),
{
    if corpus.len() == 0 {
        None
    } else if corpus[0].id == id && is_indexed(corpus[0], for_titles) {
        Some(corpus[0])
    } else {
        first_with_id(corpus.skip(1), id, for_titles)
    }
}

/// The indexed bookmarks that ranked identifiers `ids` stand for in
/// `corpus`, in rank order; an identifier with no such bookmark is passed over.
pub open spec fn hits(corpus: Seq<Bookmark>, ids: Seq<u32>, for_titles: bool) -> Seq<Bookmark>
    decreases ids.len(),
{
    if ids.len() == 0 {
        Seq::empty()
    } else {
        let rest = hits(corpus, ids.drop_last(), for_titles);
        match first_with_id(corpus, ids.last() as int, for_titles) {
            Some(b) => rest.push(b),
            None => rest,
        }
    }
}

/// The smaller of `a` and `b`.
pub open spec fn min_len(a: int, b: int) -> int {
    if a < b {
        a
    } else {
        b
    }
}

/// Whether `ids` ranks, each once, exactly the identifiers that the index a
/// search by title (`for_titles`) or URL builds of `corpus` holds a text for
/// that is a fuzzy hit for `query`.
pub open spec fn ranks_matches(corpus: Seq<Bookmark>, ids: Seq<u32>, query: Seq<char>, for_titles: bool) -> bool {
    &&& ids.no_duplicates()
    &&& forall|x: u32|
        ids.contains(x) <==> (search_index(corpus, for_titles).contains_key(x) && fuzzy_hit(
            search_stop_words(),
            search_index(corpus, for_titles)[x],
            query,
        ))
}

/// Whether `a` and `b` hold bookmarks that are equal in every observable field.
pub open spec fn same_bookmarks(a: Seq<Bookmark>, b: Seq<Bookmark>) -> bool {
    a.len() == b.len() && forall|i: int| 0 <= i < a.len() ==> (#[trigger] a[i]).same_as(b[i])
}

/// Whether searching `corpus` for `query` fails: the query is not empty and
/// an indexed bookmark has an identifier that does not fit a `u32`.
pub open spec fn search_fails(corpus: Seq<Bookmark>, query: Seq<char>, for_titles: bool) -> bool {
    query.len() > 0 && exists|i: int|
        0 <= i < corpus.len() && is_indexed(#[trigger] corpus[i], for_titles) && !(0 <= corpus[i].id
            <= u32::MAX)
}

/// Whether `v` can come out of searching `corpus` for `query`: the corpus
/// itself for an empty query; else the indexed bookmarks that some ranking
/// of exactly the matching identifiers stands for, cut at [`RESULT_LIMIT`].
pub open spec fn search_outcome(corpus: Seq<Bookmark>, query: Seq<char>, for_titles: bool, v: Seq<Bookmark>) -> bool {
    if query.len() == 0 {
        same_bookmarks(v, corpus)
    } else {
        &&& forall|k: int| 0 <= k < v.len() ==> is_indexed(#[trigger] v[k], for_titles)
        &&& exists|ids: Seq<u32>|
            ranks_matches(corpus, ids, query, for_titles) && same_bookmarks(
                v,
                hits(corpus, ids, for_titles).take(
                    min_len(RESULT_LIMIT as int, hits(corpus, ids, for_titles).len() as int),
                ),
            )
    }
}

proof fn lemma_first_with_id_equiv(a: Seq<Bookmark>, b: Seq<Bookmark>, id: int, for_titles: bool)
    requires
        same_bookmarks(a, b),
    ensures
        match (first_with_id(a, id, for_titles), first_with_id(b, id, for_titles)) {
            (Some(x), Some(y)) => x.same_as(y),
            (None, None) => true,
            _ => false,
        },
    decreases a.len(),
{
    if a.len() > 0 {
        assert(a[0].same_as(b[0]));
        assert forall|i: int| 0 <= i < a.skip(1).len() implies (#[trigger] a.skip(1)[i]).same_as(b.skip(1)[i]) by {
            assert(a[i + 1].same_as(b[i + 1]));
        }
        lemma_first_with_id_equiv(a.skip(1), b.skip(1), id, for_titles);
    }
}

proof fn lemma_hits_equiv(a: Seq<Bookmark>, b: Seq<Bookmark>, ids: Seq<u32>, for_titles: bool)
    requires
        same_bookmarks(a, b),
    ensures
        same_bookmarks(hits(a, ids, for_titles), hits(b, ids, for_titles)),
    decreases ids.len(),
{
    if ids.len() > 0 {
        lemma_hits_equiv(a, b, ids.drop_last(), for_titles);
        lemma_first_with_id_equiv(a, b, ids.last() as int, for_titles);
        let ra = hits(a, ids.drop_last(), for_titles);
        let rb = hits(b, ids.drop_last(), for_titles);
        assert forall|i: int| 0 <= i < hits(a, ids, for_titles).len() implies (#[trigger] hits(
            a,
            ids,
            for_titles,
        )[i]).same_as(hits(b, ids, for_titles)[i]) by {
            if i < ra.len() {
                assert(ra[i].same_as(rb[i]));
            }
        }
    }
}

proof fn lemma_search_index_equiv(a: Seq<Bookmark>, b: Seq<Bookmark>, for_titles: bool)
    requires
        same_bookmarks(a, b),
    ensures
        search_index(a, for_titles) == search_index(b, for_titles),
    decreases a.len(),
{
    if a.len() > 0 {
        assert forall|i: int| 0 <= i < a.drop_last().len() implies (#[trigger] a.drop_last()[i]).same_as(
            b.drop_last()[i],
        ) by {
            assert(a[i].same_as(b[i]));
        }
        lemma_search_index_equiv(a.drop_last(), b.drop_last(), for_titles);
        assert(a.last().same_as(b.last()));
    }
}

proof fn lemma_first_with_id_indexed(corpus: Seq<Bookmark>, id: int, for_titles: bool)
    ensures
        first_with_id(corpus, id, for_titles) matches Some(b) ==> is_indexed(b, for_titles) && corpus.contains(b),
    decreases corpus.len(),
{
    if corpus.len() > 0 {
        lemma_first_with_id_indexed(corpus.skip(1), id, for_titles);
        if first_with_id(corpus.skip(1), id, for_titles) is Some {
            let b = first_with_id(corpus.skip(1), id, for_titles)->Some_0;
            if corpus.skip(1).contains(b) {
                let k = choose|k: int| 0 <= k < corpus.skip(1).len() && corpus.skip(1)[k] == b;
                assert(corpus[k + 1] == b);
            }
        }
        assert(corpus[0] == corpus[0]);
    }
}

/// Every hit is an indexed bookmark of the corpus.
proof fn lemma_hits_indexed(corpus: Seq<Bookmark>, ids: Seq<u32>, for_titles: bool)
    ensures
        forall|k: int|
            0 <= k < hits(corpus, ids, for_titles).len() ==> is_indexed(
                #[trigger] hits(corpus, ids, for_titles)[k],
                for_titles,
            ) && corpus.contains(hits(corpus, ids, for_titles)[k]),
    decreases ids.len(),
{
    if ids.len() > 0 {
        lemma_hits_indexed(corpus, ids.drop_last(), for_titles);
        lemma_first_with_id_indexed(corpus, ids.last() as int, for_titles);
        let rest = hits(corpus, ids.drop_last(), for_titles);
        assert forall|k: int| 0 <= k < hits(corpus, ids, for_titles).len() implies is_indexed(
            #[trigger] hits(corpus, ids, for_titles)[k],
            for_titles,
        ) && corpus.contains(hits(corpus, ids, for_titles)[k]) by {
            if k < rest.len() {
                assert(hits(corpus, ids, for_titles)[k] == rest[k]);
            }
        }
    }
}

/// Searching two lists that hold equal bookmarks fails on the same queries.
pub proof fn lemma_search_fails_equiv(a: Seq<Bookmark>, b: Seq<Bookmark>, query: Seq<char>, for_titles: bool)
    requires
        same_bookmarks(a, b),
    ensures
        search_fails(a, query, for_titles) == search_fails(b, query, for_titles),
{
    if search_fails(b, query, for_titles) {
        let i = choose|i: int| 0 <= i < b.len() && is_indexed(#[trigger] b[i], for_titles) && !(0 <= b[i].id <= u32::MAX);
        assert(a[i].same_as(b[i]));
    }
    if search_fails(a, query, for_titles) {
        let i = choose|i: int| 0 <= i < a.len() && is_indexed(#[trigger] a[i], for_titles) && !(0 <= a[i].id <= u32::MAX);
        assert(a[i].same_as(b[i]));
    }
}

/// Searching two lists that hold equal bookmarks can give the same outcomes.
pub proof fn lemma_search_outcome_equiv(a: Seq<Bookmark>, b: Seq<Bookmark>, query: Seq<char>, for_titles: bool, v: Seq<Bookmark>)
    requires
        same_bookmarks(a, b),
        search_outcome(b, query, for_titles, v),
    ensures
        search_outcome(a, query, for_titles, v),
{
    if query.len() > 0 {
        let ids = choose|ids: Seq<u32>|
            ranks_matches(b, ids, query, for_titles) && same_bookmarks(
                v,
                hits(b, ids, for_titles).take(min_len(RESULT_LIMIT as int, hits(b, ids, for_titles).len() as int)),
            );
        lemma_hits_equiv(a, b, ids, for_titles);
        lemma_search_index_equiv(a, b, for_titles);
        let n = min_len(RESULT_LIMIT as int, hits(b, ids, for_titles).len() as int);
        assert forall|i: int| 0 <= i < v.len() implies (#[trigger] v[i]).same_as(hits(a, ids, for_titles).take(n)[i]) by {
            assert(v[i].same_as(hits(b, ids, for_titles).take(n)[i]));
            assert(hits(a, ids, for_titles)[i].same_as(hits(b, ids, for_titles)[i]));
        }
        assert(ranks_matches(a, ids, query, for_titles));
    } else {
        assert forall|i: int| 0 <= i < v.len() implies (#[trigger] v[i]).same_as(a[i]) by {
            assert(v[i].same_as(b[i]));
            assert(a[i].same_as(b[i]));
        }
    }
}

/// What a non-empty search shows: at most [`RESULT_LIMIT`] bookmarks, each
/// equal in every observable field to an indexed bookmark of the corpus (so
/// titled, for a search by title). Typing into the title or link field of the search mode shows
/// such a list of the loaded bookmarks.
pub proof fn lemma_search_outcome_bounds(corpus: Seq<Bookmark>, query: Seq<char>, for_titles: bool, v: Seq<Bookmark>)
    requires
        query.len() > 0,
        search_outcome(corpus, query, for_titles, v),
    ensures
        v.len() <= RESULT_LIMIT,
        forall|k: int|
            0 <= k < v.len() ==> is_indexed(#[trigger] v[k], for_titles) && exists|j: int|
                0 <= j < corpus.len() && v[k].same_as(corpus[j]),
{
    let ids = choose|ids: Seq<u32>|
        ranks_matches(corpus, ids, query, for_titles) && same_bookmarks(
            v,
            hits(corpus, ids, for_titles).take(min_len(RESULT_LIMIT as int, hits(corpus, ids, for_titles).len() as int)),
        );
    lemma_hits_indexed(corpus, ids, for_titles);
    let h = hits(corpus, ids, for_titles);
    assert forall|k: int| 0 <= k < v.len() implies is_indexed(#[trigger] v[k], for_titles) && exists|j: int|
        0 <= j < corpus.len() && v[k].same_as(corpus[j]) by {
        assert(v[k].same_as(h[k]));
        assert(corpus.contains(h[k]));
        let j = choose|j: int| 0 <= j < corpus.len() && corpus[j] == h[k];
        assert(v[k].same_as(corpus[j]));
    }
}

proof fn lemma_hits_prefix(corpus: Seq<Bookmark>, ids: Seq<u32>, i: int, for_titles: bool)
    requires
        0 <= i <= ids.len(),
    ensures
        hits(corpus, ids.take(i), for_titles).len() <= hits(corpus, ids, for_titles).len(),
        forall|k: int|
            0 <= k < hits(corpus, ids.take(i), for_titles).len() ==> #[trigger] hits(corpus, ids, for_titles)[k]
                == hits(corpus, ids.take(i), for_titles)[k],
    decreases ids.len(),
{
    if i == ids.len() {
        assert(ids.take(i) =~= ids);
    } else {
        assert(ids.drop_last().take(i) =~= ids.take(i));
        lemma_hits_prefix(corpus, ids.drop_last(), i, for_titles);
    }
}

fn find_by_id(corpus: &Vec<Bookmark>, id: i64, for_titles: bool) -> (r: Option<Bookmark>)
    ensures
        match (r, first_with_id(corpus@, id as int, for_titles)) {
            (Some(a), Some(b)) => a.same_as(b),
            (None, None) => true,
            _ => false,
        },
{
    let mut i: usize = 0;
    assert(corpus@.skip(0) =~= corpus@);
    while i < corpus.len()
        invariant
            i <= corpus@.len(),
            first_with_id(corpus@, id as int, for_titles) == first_with_id(corpus@.skip(i as int), id as int, for_titles),
        decreases corpus@.len() - i,
    {
        assert(corpus@.skip(i as int)[0] == corpus@[i as int]);
        assert(corpus@.skip(i as int).skip(1) =~= corpus@.skip(i + 1));
        if corpus[i].id == id && (!for_titles || corpus[i].title.is_some()) {
            return Some(corpus[i].clone());
        }
        i = i + 1;
    }
    None
}

/// The indexed bookmarks that the ranked identifiers `ids` stand for in
/// `corpus`, in rank order, cut at [`RESULT_LIMIT`].
pub fn collect_hits(corpus: &Vec<Bookmark>, ids: &Vec<u32>, for_titles: bool) -> (r: Vec<Bookmark>)
    ensures
        r@.len() == min_len(RESULT_LIMIT as int, hits(corpus@, ids@, for_titles).len() as int),
        forall|k: int| 0 <= k < r@.len() ==> (#[trigger] r@[k]).same_as(hits(corpus@, ids@, for_titles)[k]),
        forall|k: int| 0 <= k < r@.len() ==> is_indexed(#[trigger] r@[k], for_titles),
{
    let mut r: Vec<Bookmark> = Vec::new();
    let mut i: usize = 0;
    assert(ids@.take(0) =~= Seq::<u32>::empty());
    while i < ids.len() && r.len() < RESULT_LIMIT
        invariant
            i <= ids@.len(),
            r@.len() <= RESULT_LIMIT,
            r@.len() == hits(corpus@, ids@.take(i as int), for_titles).len(),
            forall|k: int|
                0 <= k < r@.len() ==> (#[trigger] r@[k]).same_as(hits(corpus@, ids@.take(i as int), for_titles)[k]),
        decreases ids@.len() - i,
    {
        assert(ids@.take(i + 1).drop_last() =~= ids@.take(i as int));
        match find_by_id(corpus, ids[i] as i64, for_titles) {
            Some(b) => r.push(b),
            None => {},
        }
        i = i + 1;
    }
    proof {
        lemma_hits_prefix(corpus@, ids@, i as int, for_titles);
        lemma_hits_indexed(corpus@, ids@, for_titles);
        if i == ids@.len() {
            assert(ids@.take(i as int) =~= ids@);
        }
        assert forall|k: int| 0 <= k < r@.len() implies is_indexed(#[trigger] r@[k], for_titles) by {
            assert(r@[k].same_as(hits(corpus@, ids@, for_titles)[k]));
            assert(is_indexed(hits(corpus@, ids@, for_titles)[k], for_titles));
        }
    }
    r
}

/// Fuzzy search of `bookmarks` by title (`for_titles`) or by URL. An empty
/// query hands `bookmarks` back unchanged. Any other query builds a fresh
/// index of the bookmarks (those with a title, for a search by title) and
/// returns those whose indexed text matches, best first, at most
/// [`RESULT_LIMIT`]; an indexed bookmark whose identifier does not fit a
/// `u32` makes it fail.
pub fn search(bookmarks: Vec<Bookmark>, query: &str, for_titles: bool) -> (r: Result<Vec<Bookmark>, Error>)
    ensures
        query@.len() == 0 ==> r == Ok::<Vec<Bookmark>, Error>(bookmarks),
        r is Err <==> search_fails(bookmarks@, query@, for_titles),
        r matches Err(e) ==> e == Error::IdOutOfRange,
        r matches Ok(v) ==> search_outcome(bookmarks@, query@, for_titles, v@),
{
    if query.is_empty() {
        return Ok(bookmarks);
    }
    let mut stop_words: Vec<String> = Vec::new();
    stop_words.push(String::from_str("/"));
    stop_words.push(String::from_str("\\\\"));
    let mut engine = new_engine(stop_words);
    assert(indexed_texts(engine) =~= search_index(bookmarks@.take(0), for_titles));
    assert(engine_stop_words(engine) =~= search_stop_words());
    let mut i: usize = 0;
    while i < bookmarks.len()
        invariant
            i <= bookmarks@.len(),
            query@.len() > 0,
            forall|j: int|
                0 <= j < i && is_indexed(#[trigger] bookmarks@[j], for_titles) ==> 0 <= bookmarks@[j].id <= u32::MAX,
            indexed_texts(engine) == search_index(bookmarks@.take(i as int), for_titles),
            engine_stop_words(engine) == search_stop_words(),
        decreases bookmarks@.len() - i,
    {
        let b = &bookmarks[i];
        assert(bookmarks@.take(i + 1).drop_last() =~= bookmarks@.take(i as int));
        assert(bookmarks@.take(i + 1).last() == *b);
        let text: Option<&str> = if for_titles {
            match &b.title {
                Some(t) => Some(t.as_str()),
                None => None,
            }
        } else {
            Some(b.url.as_str())
        };
        match text {
            Some(t) => {
                if b.id < 0 || b.id > u32::MAX as i64 {
                    return Err(Error::IdOutOfRange);
                }
                engine_insert(&mut engine, b.id as u32, t);
            },
            None => {},
        }
        i = i + 1;
    }
    assert(bookmarks@.take(i as int) =~= bookmarks@);
    let ids = engine_search(&engine, query);
    assert(ranks_matches(bookmarks@, ids@, query@, for_titles));
    let v = collect_hits(&bookmarks, &ids, for_titles);
    assert(same_bookmarks(
        v@,
        hits(bookmarks@, ids@, for_titles).take(min_len(RESULT_LIMIT as int, hits(bookmarks@, ids@, for_titles).len() as int)),
    ));
    Ok(v)
}

} // verus!

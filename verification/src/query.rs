//! The questions the journal answers: which wines pass a set of filters,
//! and how many wines, rated wines and rating points it holds.
use vstd::prelude::*;

use crate::text::{chars_of, chars_occur_in, lowercase, occurs_in, to_lowercase};
use crate::wine::{rating_in_range, Wine};

verus! {

/// The filters of a listing; each one that is given must hold of a wine.
/// Texts are compared without regard to case.
#[derive(Debug)]
pub struct ListFilter {
    /// A tag the wine carries.
    pub tag: Option<String>,
    /// A grape of the wine.
    pub grape: Option<String>,
    /// The wine's country.
    pub country: Option<String>,
    /// The lowest rating the wine may have; an unrated wine fails.
    pub min_rating: Option<u8>,
    /// A text found in one of the wine's texts: name, producer, region,
    /// country, grapes, notes or tags.
    pub query: Option<String>,
}

/// Whether some text of `texts`, in lower case, is `target_lower`.
pub open spec fn any_lower_equals(texts: Seq<Seq<char>>, target_lower: Seq<char>) -> bool {
    exists|i: int| 0 <= i < texts.len() && lowercase(#[trigger] texts[i]) == target_lower
}

/// Whether some item of `items` equals `target` without regard to case.
pub open spec fn some_item_equals(items: Option<Seq<Seq<char>>>, target: Seq<char>) -> bool {
    match items {
        Some(v) => any_lower_equals(v, lowercase(target)),
        None => false,
    }
}

/// Whether the lower-case pattern `q` occurs in `text` taken in lower case.
pub open spec fn text_has(text: Seq<char>, q: Seq<char>) -> bool {
    occurs_in(lowercase(text), q)
}

/// Whether the lower-case pattern `q` occurs in an optional text.
pub open spec fn some_text_has(text: Option<Seq<char>>, q: Seq<char>) -> bool {
    match text {
        Some(t) => text_has(t, q),
        None => false,
    }
}

/// Whether the lower-case pattern `q` occurs in some text of `texts`.
pub open spec fn any_text_has(texts: Seq<Seq<char>>, q: Seq<char>) -> bool {
    exists|i: int| 0 <= i < texts.len() && text_has(#[trigger] texts[i], q)
}

/// Whether the lower-case pattern `q` occurs in some item of `items`.
pub open spec fn some_item_has(items: Option<Seq<Seq<char>>>, q: Seq<char>) -> bool {
    match items {
        Some(v) => any_text_has(v, q),
        None => false,
    }
}

/// Whether the lower-case pattern `q` occurs in one of the texts of `w`.
pub open spec fn wine_has(w: Wine, q: Seq<char>) -> bool {
    ||| text_has(w.name@, q)
    ||| some_text_has(w.producer.deep_view(), q)
    ||| some_text_has(w.region.deep_view(), q)
    ||| some_text_has(w.country.deep_view(), q)
    ||| some_item_has(w.grapes.deep_view(), q)
    ||| some_text_has(w.notes.deep_view(), q)
    ||| some_item_has(w.tags.deep_view(), q)
}

/// Whether `w` passes every filter of `f` that is given.
pub open spec fn passes(w: Wine, f: ListFilter) -> bool {
    &&& (f.tag matches Some(t) ==> some_item_equals(w.tags.deep_view(), t@))
    &&& (f.grape matches Some(g) ==> some_item_equals(w.grapes.deep_view(), g@))
    &&& (f.country matches Some(c) ==> (w.country matches Some(wc) && lowercase(wc@)
        == lowercase(c@)))
    &&& (f.min_rating matches Some(m) ==> (w.rating matches Some(r) && r >= m))
    &&& (f.query matches Some(q) ==> wine_has(w, lowercase(q@)))
}

/// The positions in `wines` of the wines that pass `f`, in order.
pub open spec fn matching(wines: Seq<Wine>, f: ListFilter) -> Seq<usize>
    decreases wines.len(),
{
    if wines.len() == 0 {
        Seq::empty()
    } else if passes(wines.last(), f) {
        matching(wines.drop_last(), f).push((wines.len() - 1) as usize)
    } else {
        matching(wines.drop_last(), f)
    }
}

/// A listing holds exactly the positions of the wines that pass the
/// filters, each once, in increasing order.
pub proof fn lemma_matching_is_passing_wines(wines: Seq<Wine>, f: ListFilter)
    requires
        wines.len() <= usize::MAX,
    ensures
        forall|k: int|
            0 <= k < matching(wines, f).len() ==> #[trigger] matching(wines, f)[k] < wines.len()
                && passes(wines[matching(wines, f)[k] as int], f),
        forall|i: int|
            0 <= i < wines.len() && passes(#[trigger] wines[i], f) ==> matching(
                wines,
                f,
            ).contains(i as usize),
        forall|k1: int, k2: int|
            0 <= k1 < k2 < matching(wines, f).len() ==> #[trigger] matching(wines, f)[k1]
                < #[trigger] matching(wines, f)[k2],
    decreases wines.len(),
{
    if wines.len() > 0 {
        let rest = wines.drop_last();
        lemma_matching_is_passing_wines(rest, f);
        let m = matching(wines, f);
        let mr = matching(rest, f);
        assert forall|k: int| 0 <= k < m.len() implies #[trigger] m[k] < wines.len() && passes(
            wines[m[k] as int],
            f,
        ) by {
            if k < mr.len() {
                assert(m[k] == mr[k]);
                assert(wines[mr[k] as int] == rest[mr[k] as int]);
            }
        }
        assert forall|i: int| 0 <= i < wines.len() && passes(#[trigger] wines[i], f) implies m.contains(
            i as usize,
        ) by {
            if i < wines.len() - 1 {
                assert(wines[i] == rest[i]);
                let k = choose|k: int| 0 <= k < mr.len() && mr[k] == i as usize;
                assert(m[k] == mr[k]);
            } else {
                assert(m[m.len() - 1] == i as usize);
            }
        }
        assert forall|k1: int, k2: int| 0 <= k1 < k2 < m.len() implies #[trigger] m[k1]
            < #[trigger] m[k2] by {
            if k2 < mr.len() {
                assert(m[k1] == mr[k1] && m[k2] == mr[k2]);
            } else {
                assert(m[k1] == mr[k1]);
                assert(mr[k1] < rest.len());
            }
        }
    }
}

/// A wine is in a listing exactly where it passes the filters.
proof fn lemma_listed_iff_passes(wines: Seq<Wine>, f: ListFilter, i: int)
    requires
        wines.len() <= usize::MAX,
        0 <= i < wines.len(),
    ensures
        matching(wines, f).contains(i as usize) <==> passes(wines[i], f),
{
    lemma_matching_is_passing_wines(wines, f);
    let m = matching(wines, f);
    if m.contains(i as usize) {
        let k = choose|k: int| 0 <= k < m.len() && m[k] == i as usize;
        assert(m[k] < wines.len() && passes(wines[m[k] as int], f));
    }
}

/// The items of a list of texts, each by its view.
proof fn lemma_deep_items(v: Vec<String>)
    ensures
        v.deep_view().len() == v@.len(),
        forall|k: int| 0 <= k < v@.len() ==> #[trigger] v.deep_view()[k] == v@[k]@,
{
}

/// With only a text query given, a wine is listed exactly where the query,
/// in lower case, occurs in its name, producer, region, country, one of its
/// grapes, its notes or one of its tags, each taken in lower case.
pub proof fn lemma_query_searches_every_text(wines: Seq<Wine>, f: ListFilter, i: int)
    requires
        wines.len() <= usize::MAX,
        0 <= i < wines.len(),
        f.tag is None,
        f.grape is None,
        f.country is None,
        f.min_rating is None,
        f.query is Some,
    ensures
        matching(wines, f).contains(i as usize) <==> {
            let q = lowercase(f.query->0@);
            let w = wines[i];
            ||| occurs_in(lowercase(w.name@), q)
            ||| (w.producer is Some && occurs_in(lowercase(w.producer->0@), q))
            ||| (w.region is Some && occurs_in(lowercase(w.region->0@), q))
            ||| (w.country is Some && occurs_in(lowercase(w.country->0@), q))
            ||| (w.grapes is Some && exists|k: int|
                0 <= k < w.grapes->0@.len() && occurs_in(lowercase(#[trigger] w.grapes->0@[k]@), q))
            ||| (w.notes is Some && occurs_in(lowercase(w.notes->0@), q))
            ||| (w.tags is Some && exists|k: int|
                0 <= k < w.tags->0@.len() && occurs_in(lowercase(#[trigger] w.tags->0@[k]@), q))
        },
{
    lemma_listed_iff_passes(wines, f, i);
    let w = wines[i];
    let q = lowercase(f.query->0@);
    if w.grapes is Some {
        let g = w.grapes->0;
        lemma_deep_items(g);
        if any_text_has(g.deep_view(), q) {
            let k = choose|k: int| 0 <= k < g.deep_view().len() && text_has(#[trigger] g.deep_view()[k], q);
            assert(occurs_in(lowercase(g@[k]@), q));
        }
        if exists|k: int| 0 <= k < g@.len() && occurs_in(lowercase(#[trigger] g@[k]@), q) {
            let k = choose|k: int| 0 <= k < g@.len() && occurs_in(lowercase(#[trigger] g@[k]@), q);
            assert(text_has(g.deep_view()[k], q));
        }
    }
    if w.tags is Some {
        let g = w.tags->0;
        lemma_deep_items(g);
        if any_text_has(g.deep_view(), q) {
            let k = choose|k: int| 0 <= k < g.deep_view().len() && text_has(#[trigger] g.deep_view()[k], q);
            assert(occurs_in(lowercase(g@[k]@), q));
        }
        if exists|k: int| 0 <= k < g@.len() && occurs_in(lowercase(#[trigger] g@[k]@), q) {
            let k = choose|k: int| 0 <= k < g@.len() && occurs_in(lowercase(#[trigger] g@[k]@), q);
            assert(text_has(g.deep_view()[k], q));
        }
    }
}

/// With only a country given, a wine is listed exactly where it has a
/// country equal to the given one without regard to case.
pub proof fn lemma_country_filter(wines: Seq<Wine>, f: ListFilter, i: int)
    requires
        wines.len() <= usize::MAX,
        0 <= i < wines.len(),
        f.tag is None,
        f.grape is None,
        f.country is Some,
        f.min_rating is None,
        f.query is None,
    ensures
        matching(wines, f).contains(i as usize) <==> (wines[i].country is Some && lowercase(
            wines[i].country->0@,
        ) == lowercase(f.country->0@)),
{
    lemma_listed_iff_passes(wines, f, i);
}

/// With only a minimum rating given, a wine is listed exactly where it is
/// rated at least that.
pub proof fn lemma_min_rating_filter(wines: Seq<Wine>, f: ListFilter, i: int)
    requires
        wines.len() <= usize::MAX,
        0 <= i < wines.len(),
        f.tag is None,
        f.grape is None,
        f.country is None,
        f.min_rating is Some,
        f.query is None,
    ensures
        matching(wines, f).contains(i as usize) <==> (wines[i].rating is Some && wines[i].rating->0
            >= f.min_rating->0),
{
    lemma_listed_iff_passes(wines, f, i);
}

/// With only a tag given, a wine is listed exactly where one of its tags
/// equals it without regard to case.
pub proof fn lemma_tag_filter(wines: Seq<Wine>, f: ListFilter, i: int)
    requires
        wines.len() <= usize::MAX,
        0 <= i < wines.len(),
        f.tag is Some,
        f.grape is None,
        f.country is None,
        f.min_rating is None,
        f.query is None,
    ensures
        matching(wines, f).contains(i as usize) <==> (wines[i].tags is Some && exists|k: int|
            0 <= k < wines[i].tags->0@.len() && lowercase(#[trigger] wines[i].tags->0@[k]@)
                == lowercase(f.tag->0@)),
{
    lemma_listed_iff_passes(wines, f, i);
    let w = wines[i];
    let t = lowercase(f.tag->0@);
    if w.tags is Some {
        let g = w.tags->0;
        lemma_deep_items(g);
        if any_lower_equals(g.deep_view(), t) {
            let k = choose|k: int| 0 <= k < g.deep_view().len() && lowercase(#[trigger] g.deep_view()[k]) == t;
            assert(lowercase(g@[k]@) == t);
        }
        if exists|k: int| 0 <= k < g@.len() && lowercase(#[trigger] g@[k]@) == t {
            let k = choose|k: int| 0 <= k < g@.len() && lowercase(#[trigger] g@[k]@) == t;
            assert(lowercase(g.deep_view()[k]) == t);
        }
    }
}

/// With only a grape given, a wine is listed exactly where one of its
/// grapes equals it without regard to case.
pub proof fn lemma_grape_filter(wines: Seq<Wine>, f: ListFilter, i: int)
    requires
        wines.len() <= usize::MAX,
        0 <= i < wines.len(),
        f.tag is None,
        f.grape is Some,
        f.country is None,
        f.min_rating is None,
        f.query is None,
    ensures
        matching(wines, f).contains(i as usize) <==> (wines[i].grapes is Some && exists|k: int|
            0 <= k < wines[i].grapes->0@.len() && lowercase(#[trigger] wines[i].grapes->0@[k]@)
                == lowercase(f.grape->0@)),
{
    lemma_listed_iff_passes(wines, f, i);
    let w = wines[i];
    let t = lowercase(f.grape->0@);
    if w.grapes is Some {
        let g = w.grapes->0;
        lemma_deep_items(g);
        if any_lower_equals(g.deep_view(), t) {
            let k = choose|k: int| 0 <= k < g.deep_view().len() && lowercase(#[trigger] g.deep_view()[k]) == t;
            assert(lowercase(g@[k]@) == t);
        }
        if exists|k: int| 0 <= k < g@.len() && lowercase(#[trigger] g@[k]@) == t {
            let k = choose|k: int| 0 <= k < g@.len() && lowercase(#[trigger] g@[k]@) == t;
            assert(lowercase(g.deep_view()[k]) == t);
        }
    }
}

/// The filter that gives only the tag of `f`.
pub open spec fn tag_part(f: ListFilter) -> ListFilter {
    ListFilter { tag: f.tag, grape: None, country: None, min_rating: None, query: None }
}

/// The filter that gives only the grape of `f`.
pub open spec fn grape_part(f: ListFilter) -> ListFilter {
    ListFilter { tag: None, grape: f.grape, country: None, min_rating: None, query: None }
}

/// The filter that gives only the country of `f`.
pub open spec fn country_part(f: ListFilter) -> ListFilter {
    ListFilter { tag: None, grape: None, country: f.country, min_rating: None, query: None }
}

/// The filter that gives only the minimum rating of `f`.
pub open spec fn rating_part(f: ListFilter) -> ListFilter {
    ListFilter { tag: None, grape: None, country: None, min_rating: f.min_rating, query: None }
}

/// The filter that gives only the query of `f`.
pub open spec fn query_part(f: ListFilter) -> ListFilter {
    ListFilter { tag: None, grape: None, country: None, min_rating: None, query: f.query }
}

/// Filters combine: a wine is listed under several filters exactly where it
/// is listed under each of them alone.
pub proof fn lemma_filters_combine(wines: Seq<Wine>, f: ListFilter, i: int)
    requires
        wines.len() <= usize::MAX,
        0 <= i < wines.len(),
    ensures
        matching(wines, f).contains(i as usize) <==> {
            &&& matching(wines, tag_part(f)).contains(i as usize)
            &&& matching(wines, grape_part(f)).contains(i as usize)
            &&& matching(wines, country_part(f)).contains(i as usize)
            &&& matching(wines, rating_part(f)).contains(i as usize)
            &&& matching(wines, query_part(f)).contains(i as usize)
        },
{
    lemma_listed_iff_passes(wines, f, i);
    lemma_listed_iff_passes(wines, tag_part(f), i);
    lemma_listed_iff_passes(wines, grape_part(f), i);
    lemma_listed_iff_passes(wines, country_part(f), i);
    lemma_listed_iff_passes(wines, rating_part(f), i);
    lemma_listed_iff_passes(wines, query_part(f), i);
}

/// Whether `f` gives no filter at all.
pub open spec fn no_filter(f: ListFilter) -> bool {
    &&& f.tag is None
    &&& f.grape is None
    &&& f.country is None
    &&& f.min_rating is None
    &&& f.query is None
}

/// A listing without filters holds every wine, in order.
pub proof fn lemma_no_filter_lists_all(wines: Seq<Wine>, f: ListFilter)
    requires
        wines.len() <= usize::MAX,
        no_filter(f),
    ensures
        matching(wines, f) == Seq::new(wines.len(), |i: int| i as usize),
    decreases wines.len(),
{
    if wines.len() > 0 {
        lemma_no_filter_lists_all(wines.drop_last(), f);
        assert(matching(wines, f) == Seq::new(wines.len(), |i: int| i as usize));
    }
}

/// Whether some item of `items`, in lower case, equals `target_lower`.
fn some_item_equals_lower(items: &Option<Vec<String>>, target_lower: &String) -> (b: bool)
    ensures
        b == match items.deep_view() {
            Some(v) => any_lower_equals(v, target_lower@),
            None => false,
        },
{
    match items {
        Some(v) => {
            let ghost dv = v.deep_view();
            let mut i: usize = 0;
            while i < v.len()
                invariant
                    i <= v.len(),
                    dv == v.deep_view(),
                    dv.len() == v.len(),
                    items.deep_view() == Some(dv),
                    forall|j: int| 0 <= j < i ==> lowercase(#[trigger] dv[j]) != target_lower@,
                decreases v.len() - i,
            {
                let l = to_lowercase(v[i].as_str());
                if l == *target_lower {
                    assert(lowercase(dv[i as int]) == target_lower@);
                    return true;
                }
                i = i + 1;
            }
            false
        },
        None => false,
    }
}

/// Whether the lower-case pattern `q` occurs in `text` taken in lower case.
fn lower_text_has(text: &str, q: &Vec<char>) -> (b: bool)
    ensures
        b == text_has(text@, q@),
{
    let l = to_lowercase(text);
    let c = chars_of(l.as_str());
    chars_occur_in(&c, q)
}

/// Whether the lower-case pattern `q` occurs in an optional text.
fn lower_some_text_has(text: &Option<String>, q: &Vec<char>) -> (b: bool)
    ensures
        b == some_text_has(text.deep_view(), q@),
{
    match text {
        Some(t) => lower_text_has(t.as_str(), q),
        None => false,
    }
}

/// Whether the lower-case pattern `q` occurs in some item of `items`.
fn lower_some_item_has(items: &Option<Vec<String>>, q: &Vec<char>) -> (b: bool)
    ensures
        b == some_item_has(items.deep_view(), q@),
{
    match items {
        Some(v) => {
            let ghost dv = v.deep_view();
            let mut i: usize = 0;
            while i < v.len()
                invariant
                    i <= v.len(),
                    dv == v.deep_view(),
                    dv.len() == v.len(),
                    items.deep_view() == Some(dv),
                    forall|j: int| 0 <= j < i ==> !text_has(#[trigger] dv[j], q@),
                decreases v.len() - i,
            {
                if lower_text_has(v[i].as_str(), q) {
                    assert(text_has(dv[i as int], q@));
                    return true;
                }
                i = i + 1;
            }
            false
        },
        None => false,
    }
}

/// The filter texts in lower case, computed once for a listing.
struct LoweredFilter {
    tag: Option<String>,
    grape: Option<String>,
    country: Option<String>,
    query: Option<Vec<char>>,
}

/// Whether `lowered` holds the texts of `f` in lower case.
spec fn lowered_from(lowered: LoweredFilter, f: ListFilter) -> bool {
    &&& (lowered.tag is Some <==> f.tag is Some)
    &&& (f.tag matches Some(t) ==> lowered.tag->0@ == lowercase(t@))
    &&& (lowered.grape is Some <==> f.grape is Some)
    &&& (f.grape matches Some(g) ==> lowered.grape->0@ == lowercase(g@))
    &&& (lowered.country is Some <==> f.country is Some)
    &&& (f.country matches Some(c) ==> lowered.country->0@ == lowercase(c@))
    &&& (lowered.query is Some <==> f.query is Some)
    &&& (f.query matches Some(q) ==> lowered.query->0@ == lowercase(q@))
}

fn lower_some(s: &Option<String>) -> (r: Option<String>)
    ensures
        r is Some <==> s is Some,
        s matches Some(t) ==> r->0@ == lowercase(t@),
{
    match s {
        Some(t) => Some(to_lowercase(t.as_str())),
        None => None,
    }
}

fn lower_filter(f: &ListFilter) -> (r: LoweredFilter)
    ensures
        lowered_from(r, *f),
{
    let query = match &f.query {
        Some(q) => {
            let l = to_lowercase(q.as_str());
            Some(chars_of(l.as_str()))
        },
        None => None,
    };
    LoweredFilter {
        tag: lower_some(&f.tag),
        grape: lower_some(&f.grape),
        country: lower_some(&f.country),
        query,
    }
}

/// Decides `passes(*w, *f)`, given `f`'s texts in lower case.
fn wine_passes(w: &Wine, f: &ListFilter, lowered: &LoweredFilter) -> (b: bool)
    requires
        lowered_from(*lowered, *f),
    ensures
        b == passes(*w, *f),
{
    match &lowered.tag {
        Some(t) => {
            if !some_item_equals_lower(&w.tags, t) {
                return false;
            }
        },
        None => {},
    }
    match &lowered.grape {
        Some(g) => {
            if !some_item_equals_lower(&w.grapes, g) {
                return false;
            }
        },
        None => {},
    }
    match &lowered.country {
        Some(c) => {
            match &w.country {
                Some(wc) => {
                    let l = to_lowercase(wc.as_str());
                    if !(l == *c) {
                        return false;
                    }
                },
                None => {
                    return false;
                },
            }
        },
        None => {},
    }
    match f.min_rating {
        Some(m) => {
            match w.rating {
                Some(r) => {
                    if r < m {
                        return false;
                    }
                },
                None => {
                    return false;
                },
            }
        },
        None => {},
    }
    match &lowered.query {
        Some(q) => {
            lower_text_has(w.name.as_str(), q) || lower_some_text_has(&w.producer, q)
                || lower_some_text_has(&w.region, q) || lower_some_text_has(&w.country, q)
                || lower_some_item_has(&w.grapes, q) || lower_some_text_has(&w.notes, q)
                || lower_some_item_has(&w.tags, q)
        },
        None => true,
    }
}

/// The positions of the wines that pass every filter of `filter` that is
/// given, in their order in the journal.
pub fn matching_wines(wines: &[Wine], filter: &ListFilter) -> (r: Vec<usize>)
    ensures
        r@ == matching(wines@, *filter),
{
    let lowered = lower_filter(filter);
    let mut out: Vec<usize> = Vec::new();
    let mut i: usize = 0;
    while i < wines.len()
        invariant
            i <= wines.len(),
            lowered_from(lowered, *filter),
            out@ == matching(wines@.take(i as int), *filter),
        decreases wines.len() - i,
    {
        let ghost prefix = wines@.take(i + 1);
        assert(prefix.drop_last() == wines@.take(i as int));
        assert(prefix.last() == wines@[i as int]);
        if wine_passes(&wines[i], filter, &lowered) {
            out.push(i);
        }
        i = i + 1;
    }
    assert(wines@.take(wines.len() as int) == wines@);
    out
}

/// How many wines the journal holds, how many of them are rated, and the
/// sum of their ratings.
#[derive(Debug, Clone, Copy)]
pub struct RatingStats {
    pub total: usize,
    pub rated: usize,
    pub rating_sum: u128,
}

/// How many wines of `wines` are rated.
pub open spec fn rated_count(wines: Seq<Wine>) -> nat
    decreases wines.len(),
{
    if wines.len() == 0 {
        0
    } else {
        rated_count(wines.drop_last()) + if wines.last().rating is Some {
            1nat
        } else {
            0nat
        }
    }
}

/// The sum of the ratings of the rated wines of `wines`.
pub open spec fn rating_total(wines: Seq<Wine>) -> nat
    decreases wines.len(),
{
    if wines.len() == 0 {
        0
    } else {
        rating_total(wines.drop_last()) + match wines.last().rating {
            Some(r) => r as nat,
            None => 0nat,
        }
    }
}

/// At most every wine is rated, and each rating adds at most 255.
proof fn lemma_stats_bounds(wines: Seq<Wine>)
    ensures
        rated_count(wines) <= wines.len(),
        rating_total(wines) <= 255 * rated_count(wines),
    decreases wines.len(),
{
    if wines.len() > 0 {
        lemma_stats_bounds(wines.drop_last());
    }
}

/// The count of wines, of rated wines, and the sum of the ratings.
pub fn rating_stats(wines: &[Wine]) -> (s: RatingStats)
    ensures
        s.total == wines.len(),
        s.rated == rated_count(wines@),
        s.rating_sum == rating_total(wines@),
{
    let mut rated: usize = 0;
    let mut sum: u128 = 0;
    let mut i: usize = 0;
    while i < wines.len()
        invariant
            i <= wines.len(),
            rated == rated_count(wines@.take(i as int)),
            sum == rating_total(wines@.take(i as int)),
        decreases wines.len() - i,
    {
        let ghost prefix = wines@.take(i + 1);
        assert(prefix.drop_last() == wines@.take(i as int));
        proof {
            lemma_stats_bounds(prefix);
        }
        match wines[i].rating {
            Some(r) => {
                rated = rated + 1;
                sum = sum + r as u128;
            },
            None => {},
        }
        i = i + 1;
    }
    assert(wines@.take(wines.len() as int) == wines@);
    RatingStats { total: wines.len(), rated, rating_sum: sum }
}

/// The counts take in every wine: an empty journal counts nothing, and a
/// wine added at the end adds one rated wine and its rating where it is
/// rated, and nothing where it is not.
pub proof fn lemma_stats_count_every_wine(wines: Seq<Wine>, w: Wine)
    ensures
        rated_count(Seq::empty()) == 0,
        rating_total(Seq::empty()) == 0,
        rated_count(wines.push(w)) == rated_count(wines) + (if w.rating is Some {
            1int
        } else {
            0int
        }),
        rating_total(wines.push(w)) == rating_total(wines) + (if w.rating is Some {
            w.rating->0 as int
        } else {
            0int
        }),
{
    assert(wines.push(w).drop_last() == wines);
}

/// The counts take in every wine wherever it stands: rated wines are
/// counted exactly once each, and the sum covers each rating once.
pub proof fn lemma_stats_of_concat(a: Seq<Wine>, b: Seq<Wine>)
    ensures
        rated_count(a + b) == rated_count(a) + rated_count(b),
        rating_total(a + b) == rating_total(a) + rating_total(b),
    decreases b.len(),
{
    if b.len() > 0 {
        lemma_stats_of_concat(a, b.drop_last());
        assert((a + b).drop_last() == a + b.drop_last());
        assert((a + b).last() == b.last());
    } else {
        assert(a + b == a);
    }
}

/// Where every rating of `wines` lies on the 1 to 5 scale, the sum of the
/// ratings lies between the number of rated wines and five times it, so the
/// average rating lies on the scale too.
pub proof fn lemma_rating_total_on_scale(wines: Seq<Wine>)
    requires
        forall|i: int| 0 <= i < wines.len() ==> (#[trigger] wines[i].rating matches Some(r)
            ==> rating_in_range(r)),
    ensures
        rated_count(wines) <= rating_total(wines) <= 5 * rated_count(wines),
        rated_count(wines) <= wines.len(),
    decreases wines.len(),
{
    if wines.len() > 0 {
        let rest = wines.drop_last();
        assert forall|i: int| 0 <= i < rest.len() implies (#[trigger] rest[i].rating matches Some(
            r,
        ) ==> rating_in_range(r)) by {
            assert(rest[i] == wines[i]);
        }
        lemma_rating_total_on_scale(rest);
        assert(wines[wines.len() - 1] == wines.last());
    }
}

} // verus!

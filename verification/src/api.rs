//! The server's progress messages, and the local filtering and sorting of the
//! media library.
use crate::models::{
    element_views, filter_active, Element, ElementV, MetadataFilter, MetadataFilterV, SortBy,
};
use crate::std_text::{to_lower, unicode_lower};
use crate::text::{
    chars_of, contains_chars, contains_seq, lemma_lex_less_irreflexive, lemma_lex_less_transitive,
    lex_less, lex_less_chars, trim, trim_chars,
};
use vstd::prelude::*;
use vstd::seq_lib::to_multiset_insert;

verus! {

/// Progress frame received over the scan WebSocket: each message after the
/// first also carries the newly scanned item.
#[derive(Debug)]
pub struct ScanProgressData {
    pub current: u32,
    pub total: u32,
    pub item: Option<Element>,
}

/// Thumbnail progress.
#[derive(Clone, Debug)]
pub struct ThumbProgressMsg {
    pub current: u32,
    pub total: u32,
    pub active: bool,
    pub phase: String,
    /// The video IDs currently being thumbnailed (empty when the server does
    /// not say).
    pub current_ids: Vec<String>,
}

/// Sprite progress.
#[derive(Clone, Debug)]
pub struct SpriteProgressMsg {
    pub current: u32,
    pub total: u32,
    pub active: bool,
    /// The video IDs currently getting sprite sheets (empty when the server
    /// does not say).
    pub current_ids: Vec<String>,
}

/// Pre-cache progress.
#[derive(Clone, Debug)]
pub struct PrecacheProgressMsg {
    pub current: u32,
    pub total: u32,
    pub active: bool,
    /// The video ID currently being pre-cached, if any.
    pub current_id: Option<String>,
}

/// Combined progress update.
#[derive(Clone, Debug)]
pub struct ProgressUpdate {
    pub thumb: ThumbProgressMsg,
    pub sprite: SpriteProgressMsg,
    pub precache: PrecacheProgressMsg,
}

/// Hardware acceleration info.
#[derive(Clone, Debug)]
pub struct HwAccelInfo {
    pub label: String,
    pub encoder: String,
}

/// The authentication status.
#[derive(Clone, Copy, Debug, PartialEq, Eq, Structural)]
pub struct AuthStatus {
    pub password_protection: bool,
    pub password_set: bool,
    pub authenticated: bool,
}

// ── Filtering ────────────────────────────────────────────────────────────────

/// The texts a search looks in: title, description, genre, director, then the
/// tags, actors and categories.
pub open spec fn searchable(e: ElementV) -> Seq<Seq<char>> {
    seq![e.title, e.description, e.genre, e.director] + e.tags + e.actors + e.categories
}

/// What a search for `query` looks for: the query trimmed and lower-cased
/// (nothing, for a query that is blank).
pub open spec fn search_key(query: Seq<char>) -> Seq<char> {
    if trim(query).len() == 0 {
        Seq::empty()
    } else {
        unicode_lower(trim(query))
    }
}

/// Whether some text of `texts` contains `q`.
pub open spec fn some_contains(texts: Seq<Seq<char>>, q: Seq<char>) -> bool {
    exists|i: int| 0 <= i < texts.len() && #[trigger] contains_seq(texts[i], q)
}

/// Whether the item matches the search key `q`: an empty key matches all;
/// otherwise some searchable text, lower-cased, contains it.
pub open spec fn query_hit(e: ElementV, q: Seq<char>) -> bool {
    q.len() == 0 || some_contains(searchable(e).map_values(|t: Seq<char>| unicode_lower(t)), q)
}

/// Whether `items` holds at least one of `selected`.
pub open spec fn has_any(items: Seq<Seq<char>>, selected: Seq<Seq<char>>) -> bool {
    exists|k: int| 0 <= k < selected.len() && items.contains(#[trigger] selected[k])
}

/// Whether the item passes the metadata filter: a favorite when only favorites
/// are shown; rated at least the minimum; and, for each of tags, actors and
/// categories with a selection, holding one of the selected values.
pub open spec fn meta_hit(e: ElementV, f: MetadataFilterV) -> bool {
    &&& (f.only_favorites ==> e.favorite)
    &&& (f.min_rating > 0 ==> e.rating_rounded >= f.min_rating)
    &&& (f.tag.len() > 0 ==> has_any(e.tags, f.tag))
    &&& (f.actor.len() > 0 ==> has_any(e.actors, f.actor))
    &&& (f.category.len() > 0 ==> has_any(e.categories, f.category))
}

/// The items that match the search key `q` and pass the filter, in order.
pub open spec fn kept(s: Seq<ElementV>, q: Seq<char>, f: MetadataFilterV) -> Seq<ElementV>
    decreases s.len(),
{
    if s.len() == 0 {
        s
    } else if query_hit(s.last(), q) && meta_hit(s.last(), f) {
        kept(s.drop_last(), q, f).push(s.last())
    } else {
        kept(s.drop_last(), q, f)
    }
}

// ── Sorting ──────────────────────────────────────────────────────────────────

/// Whether `a` comes strictly before `b` in the order `sort_by`.
pub open spec fn precedes(a: ElementV, b: ElementV, sort_by: SortBy) -> bool {
    match sort_by {
        SortBy::DateAddedNewest => a.date_added > b.date_added,
        SortBy::DateAddedOldest => a.date_added < b.date_added,
        SortBy::NameAsc => lex_less(a.title, b.title),
        SortBy::NameDesc => lex_less(b.title, a.title),
        SortBy::RatingHighest => a.rating_key > b.rating_key,
        SortBy::FavoritesFirst => (a.favorite && !b.favorite) || (a.favorite == b.favorite
            && a.date_added > b.date_added),
        SortBy::YearNewest => a.year > b.year,
        SortBy::YearOldest => a.year < b.year,
    }
}

/// Where `x` goes into `r`: before the first item that it precedes.
pub open spec fn insert_pos(r: Seq<ElementV>, x: ElementV, sort_by: SortBy) -> int
    decreases r.len(),
{
    if r.len() == 0 || precedes(x, r[0], sort_by) {
        0
    } else {
        1 + insert_pos(r.drop_first(), x, sort_by)
    }
}

/// The items stably sorted by `sort_by`: each item is placed after every
/// earlier item that it does not precede.
pub open spec fn sorted_by(s: Seq<ElementV>, sort_by: SortBy) -> Seq<ElementV>
    decreases s.len(),
{
    if s.len() == 0 {
        s
    } else {
        let r = sorted_by(s.drop_last(), sort_by);
        r.insert(insert_pos(r, s.last(), sort_by), s.last())
    }
}

/// No item precedes itself.
pub proof fn lemma_precedes_irreflexive(a: ElementV, sort_by: SortBy)
    ensures
        !precedes(a, a, sort_by),
{
    lemma_lex_less_irreflexive(a.title);
}

/// The order is transitive.
pub proof fn lemma_precedes_transitive(a: ElementV, b: ElementV, c: ElementV, sort_by: SortBy)
    requires
        precedes(a, b, sort_by),
        precedes(b, c, sort_by),
    ensures
        precedes(a, c, sort_by),
{
    match sort_by {
        SortBy::NameAsc => lemma_lex_less_transitive(a.title, b.title, c.title),
        SortBy::NameDesc => lemma_lex_less_transitive(c.title, b.title, a.title),
        _ => {},
    }
}

/// The insert position is where the first item that `x` precedes stands.
proof fn lemma_insert_pos(r: Seq<ElementV>, x: ElementV, sort_by: SortBy, i: int)
    requires
        0 <= i <= r.len(),
        forall|k: int| 0 <= k < i ==> !precedes(x, #[trigger] r[k], sort_by),
        i == r.len() || precedes(x, r[i], sort_by),
    ensures
        insert_pos(r, x, sort_by) == i,
    decreases i,
{
    if i > 0 {
        assert(!precedes(x, r[0], sort_by));
        assert forall|k: int| 0 <= k < i - 1 implies !precedes(
            x,
            #[trigger] r.drop_first()[k],
            sort_by,
        ) by {
            assert(r.drop_first()[k] == r[k + 1]);
        }
        if i < r.len() {
            assert(r.drop_first()[i - 1] == r[i]);
        }
        lemma_insert_pos(r.drop_first(), x, sort_by, i - 1);
    }
}

/// The insert position lies within the sequence.
proof fn lemma_insert_pos_bounds(r: Seq<ElementV>, x: ElementV, sort_by: SortBy)
    ensures
        0 <= insert_pos(r, x, sort_by) <= r.len(),
    decreases r.len(),
{
    if r.len() > 0 && !precedes(x, r[0], sort_by) {
        lemma_insert_pos_bounds(r.drop_first(), x, sort_by);
    }
}

/// Items before the insert position are not preceded by `x`; the item at it is.
proof fn lemma_insert_pos_facts(r: Seq<ElementV>, x: ElementV, sort_by: SortBy)
    ensures
        forall|k: int| 0 <= k < insert_pos(r, x, sort_by) ==> !precedes(x, #[trigger] r[k], sort_by),
        insert_pos(r, x, sort_by) < r.len() ==> precedes(x, r[insert_pos(r, x, sort_by)], sort_by),
    decreases r.len(),
{
    lemma_insert_pos_bounds(r, x, sort_by);
    if r.len() > 0 && !precedes(x, r[0], sort_by) {
        let t = r.drop_first();
        lemma_insert_pos_facts(t, x, sort_by);
        assert forall|k: int| 0 <= k < insert_pos(r, x, sort_by) implies !precedes(
            x,
            #[trigger] r[k],
            sort_by,
        ) by {
            if k > 0 {
                assert(r[k] == t[k - 1]);
            }
        }
        lemma_insert_pos_bounds(t, x, sort_by);
        let q = insert_pos(t, x, sort_by);
        assert(insert_pos(r, x, sort_by) == q + 1);
        if q < t.len() {
            assert(r[q + 1] == t[q]);
        }
    }
}

/// Whether no later item of `s` precedes an earlier one.
pub open spec fn in_order(s: Seq<ElementV>, sort_by: SortBy) -> bool {
    forall|i: int, j: int| 0 <= i < j < s.len() ==> !precedes(#[trigger] s[j], #[trigger] s[i], sort_by)
}

/// Sorting lists every item as often as it was given: the result is a
/// rearrangement of the input.
pub proof fn lemma_sorted_by_permutes(s: Seq<ElementV>, sort_by: SortBy)
    ensures
        sorted_by(s, sort_by).to_multiset() == s.to_multiset(),
    decreases s.len(),
{
    if s.len() > 0 {
        let r = sorted_by(s.drop_last(), sort_by);
        lemma_sorted_by_permutes(s.drop_last(), sort_by);
        lemma_insert_pos_bounds(r, s.last(), sort_by);
        to_multiset_insert(r, insert_pos(r, s.last(), sort_by), s.last());
        vstd::seq_lib::to_multiset_build(s.drop_last(), s.last());
        assert(s.drop_last().push(s.last()) =~= s);
    }
}

/// Sorting puts the items in order: no item is listed after one that it precedes.
pub proof fn lemma_sorted_by_in_order(s: Seq<ElementV>, sort_by: SortBy)
    ensures
        in_order(sorted_by(s, sort_by), sort_by),
    decreases s.len(),
{
    if s.len() > 0 {
        let r = sorted_by(s.drop_last(), sort_by);
        let x = s.last();
        let p = insert_pos(r, x, sort_by);
        lemma_sorted_by_in_order(s.drop_last(), sort_by);
        lemma_insert_pos_bounds(r, x, sort_by);
        lemma_insert_pos_facts(r, x, sort_by);
        let t = r.insert(p, x);
        assert(t == sorted_by(s, sort_by));
        assert forall|i: int, j: int| 0 <= i < j < t.len() implies !precedes(
            #[trigger] t[j],
            #[trigger] t[i],
            sort_by,
        ) by {
            if j < p {
                assert(t[i] == r[i] && t[j] == r[j]);
            } else if j == p {
                assert(t[i] == r[i] && t[j] == x);
            } else if i == p {
                assert(t[i] == x && t[j] == r[j - 1]);
                assert(precedes(x, r[p], sort_by));
                if precedes(r[j - 1], x, sort_by) {
                    if j - 1 == p {
                        lemma_precedes_transitive(r[p], x, r[p], sort_by);
                        lemma_precedes_irreflexive(r[p], sort_by);
                    } else {
                        lemma_precedes_transitive(r[j - 1], x, r[p], sort_by);
                    }
                }
            } else if i < p {
                assert(t[i] == r[i] && t[j] == r[j - 1]);
            } else {
                assert(t[i] == r[i - 1] && t[j] == r[j - 1]);
            }
        }
    }
}

/// An item is kept exactly when it is one of the items, matches the search
/// and passes the filter.
pub proof fn lemma_kept_contains(s: Seq<ElementV>, q: Seq<char>, f: MetadataFilterV, x: ElementV)
    ensures
        kept(s, q, f).contains(x) <==> (s.contains(x) && query_hit(x, q) && meta_hit(x, f)),
    decreases s.len(),
{
    if s.len() > 0 {
        let t = s.drop_last();
        lemma_kept_contains(t, q, f, x);
        assert(s =~= t.push(s.last()));
        if s.contains(x) && x != s.last() {
            let i = choose|i: int| 0 <= i < s.len() && s[i] == x;
            assert(t[i] == x);
        }
        if t.contains(x) {
            let i = choose|i: int| 0 <= i < t.len() && t[i] == x;
            assert(s[i] == x);
        }
        let k = kept(t, q, f);
        if query_hit(s.last(), q) && meta_hit(s.last(), f) {
            assert(kept(s, q, f) == k.push(s.last()));
            if k.contains(x) {
                let i = choose|i: int| 0 <= i < k.len() && k[i] == x;
                assert(k.push(s.last())[i] == x);
            }
            if k.push(s.last()).contains(x) && x != s.last() {
                let i = choose|i: int| 0 <= i < k.len() + 1 && k.push(s.last())[i] == x;
                assert(k[i] == x);
            }
            assert(k.push(s.last())[k.len() as int] == s.last());
        }
    }
}

/// With no search and no active filter, every item is kept, in order.
pub proof fn lemma_kept_all(s: Seq<ElementV>, f: MetadataFilterV)
    requires
        !filter_active(f),
    ensures
        kept(s, Seq::empty(), f) == s,
    decreases s.len(),
{
    if s.len() > 0 {
        lemma_kept_all(s.drop_last(), f);
        assert(s.drop_last().push(s.last()) =~= s);
    }
}

/// A blank search with no active filter removes nothing: the listing is the
/// items themselves, only put in the chosen order.
pub proof fn law_blank_search_keeps_all(
    s: Seq<ElementV>,
    query: Seq<char>,
    f: MetadataFilterV,
    sort_by: SortBy,
)
    requires
        trim(query).len() == 0,
        !filter_active(f),
    ensures
        kept(s, search_key(query), f) == s,
        sorted_by(kept(s, search_key(query), f), sort_by).to_multiset() == s.to_multiset(),
        sorted_by(kept(s, search_key(query), f), sort_by).len() == s.len(),
{
    assert(search_key(query) =~= Seq::<char>::empty());
    lemma_kept_all(s, f);
    lemma_sorted_by_permutes(s, sort_by);
    s.to_multiset_ensures();
    sorted_by(s, sort_by).to_multiset_ensures();
}

/// Whether some text of `texts`, lower-cased, contains `q`.
pub open spec fn some_lowered_contains(texts: Seq<Seq<char>>, q: Seq<char>) -> bool {
    exists|k: int| 0 <= k < texts.len() && contains_seq(unicode_lower(#[trigger] texts[k]), q)
}

/// An item matches a non-empty search exactly when the search occurs in its
/// title, description, genre or director, or in one of its tags, actors or
/// categories, all lower-cased.
proof fn lemma_query_hit_fields(x: ElementV, q: Seq<char>)
    requires
        q.len() > 0,
    ensures
        query_hit(x, q) <==> (contains_seq(unicode_lower(x.title), q) || contains_seq(
            unicode_lower(x.description),
            q,
        ) || contains_seq(unicode_lower(x.genre), q) || contains_seq(unicode_lower(x.director), q)
            || some_lowered_contains(x.tags, q) || some_lowered_contains(x.actors, q)
            || some_lowered_contains(x.categories, q)),
{
    let t = searchable(x);
    let lt = t.map_values(|u: Seq<char>| unicode_lower(u));
    let nt = x.tags.len() as int;
    let na = x.actors.len() as int;
    assert(t.len() == 4 + nt + na + x.categories.len());
    assert(t[0] == x.title && t[1] == x.description && t[2] == x.genre && t[3] == x.director);
    assert forall|k: int| 0 <= k < nt implies t[4 + k] == #[trigger] x.tags[k] by {}
    assert forall|k: int| 0 <= k < na implies t[4 + nt + k] == #[trigger] x.actors[k] by {}
    assert forall|k: int| 0 <= k < x.categories.len() implies t[4 + nt + na + k]
        == #[trigger] x.categories[k] by {}
    if query_hit(x, q) {
        let i = choose|i: int| 0 <= i < lt.len() && #[trigger] contains_seq(lt[i], q);
        assert(lt[i] == unicode_lower(t[i]));
        if 4 <= i < 4 + nt {
            assert(x.tags[i - 4] == t[i]);
        } else if 4 + nt <= i < 4 + nt + na {
            assert(x.actors[i - 4 - nt] == t[i]);
        } else if 4 + nt + na <= i {
            assert(x.categories[i - 4 - nt - na] == t[i]);
        }
    }
    if contains_seq(unicode_lower(x.title), q) {
        assert(contains_seq(lt[0], q));
    }
    if contains_seq(unicode_lower(x.description), q) {
        assert(contains_seq(lt[1], q));
    }
    if contains_seq(unicode_lower(x.genre), q) {
        assert(contains_seq(lt[2], q));
    }
    if contains_seq(unicode_lower(x.director), q) {
        assert(contains_seq(lt[3], q));
    }
    if some_lowered_contains(x.tags, q) {
        let k = choose|k: int| 0 <= k < x.tags.len() && contains_seq(unicode_lower(#[trigger] x.tags[k]), q);
        assert(contains_seq(lt[4 + k], q));
    }
    if some_lowered_contains(x.actors, q) {
        let k = choose|k: int| 0 <= k < x.actors.len() && contains_seq(unicode_lower(#[trigger] x.actors[k]), q);
        assert(contains_seq(lt[4 + nt + k], q));
    }
    if some_lowered_contains(x.categories, q) {
        let k = choose|k: int| 0 <= k < x.categories.len() && contains_seq(unicode_lower(#[trigger] x.categories[k]), q);
        assert(contains_seq(lt[4 + nt + na + k], q));
    }
}

/// Whether `items` holds at least one of the selected values.
pub open spec fn holds_one_of(items: Seq<Seq<char>>, selected: Seq<Seq<char>>) -> bool {
    exists|k: int| 0 <= k < selected.len() && items.contains(#[trigger] selected[k])
}

/// The listing holds an item of the library exactly when the item passes
/// every part of the search and filter: a non-empty search occurs in one of
/// its texts (lower-cased); it is a favorite when only favorites are shown;
/// its rounded rating reaches a set minimum; and for each of tags, actors
/// and categories with a selection, it holds one of the selected values.
pub proof fn law_listing_passes_filters(
    s: Seq<ElementV>,
    q: Seq<char>,
    f: MetadataFilterV,
    sort_by: SortBy,
    x: ElementV,
)
    ensures
        sorted_by(kept(s, q, f), sort_by).contains(x) <==> {
            &&& s.contains(x)
            &&& (q.len() > 0 ==> (contains_seq(unicode_lower(x.title), q) || contains_seq(
                unicode_lower(x.description),
                q,
            ) || contains_seq(unicode_lower(x.genre), q) || contains_seq(
                unicode_lower(x.director),
                q,
            ) || some_lowered_contains(x.tags, q) || some_lowered_contains(x.actors, q)
                || some_lowered_contains(x.categories, q)))
            &&& (f.only_favorites ==> x.favorite)
            &&& (f.min_rating > 0 ==> x.rating_rounded >= f.min_rating)
            &&& (f.tag.len() > 0 ==> holds_one_of(x.tags, f.tag))
            &&& (f.actor.len() > 0 ==> holds_one_of(x.actors, f.actor))
            &&& (f.category.len() > 0 ==> holds_one_of(x.categories, f.category))
        },
{
    lemma_listing_members(s, q, f, sort_by, x);
    if q.len() > 0 {
        lemma_query_hit_fields(x, q);
    }
}

/// The listing holds exactly the items that match the search and pass the
/// filter, each as often as it occurs among the items.
pub proof fn lemma_listing_members(
    s: Seq<ElementV>,
    q: Seq<char>,
    f: MetadataFilterV,
    sort_by: SortBy,
    x: ElementV,
)
    ensures
        sorted_by(kept(s, q, f), sort_by).contains(x) <==> (s.contains(x) && query_hit(x, q)
            && meta_hit(x, f)),
{
    let k = kept(s, q, f);
    lemma_sorted_by_permutes(k, sort_by);
    vstd::seq_lib::to_multiset_contains(k, x);
    vstd::seq_lib::to_multiset_contains(sorted_by(k, sort_by), x);
    lemma_kept_contains(s, q, f, x);
}

/// Whether `a` comes strictly before `b` in the order `sort_by`.
fn precedes_exec(a: &Element, b: &Element, sort_by: SortBy) -> (r: bool)
    ensures
        r == precedes(a@, b@, sort_by),
{
    match sort_by {
        SortBy::DateAddedNewest => a.date_added > b.date_added,
        SortBy::DateAddedOldest => a.date_added < b.date_added,
        SortBy::NameAsc => {
            let at = chars_of(a.title.as_str());
            let bt = chars_of(b.title.as_str());
            lex_less_chars(at.as_slice(), bt.as_slice())
        },
        SortBy::NameDesc => {
            let at = chars_of(a.title.as_str());
            let bt = chars_of(b.title.as_str());
            lex_less_chars(bt.as_slice(), at.as_slice())
        },
        SortBy::RatingHighest => a.rating_key > b.rating_key,
        SortBy::FavoritesFirst => (a.favorite && !b.favorite) || (a.favorite == b.favorite
            && a.date_added > b.date_added),
        SortBy::YearNewest => a.year > b.year,
        SortBy::YearOldest => a.year < b.year,
    }
}

/// Sorts the items by `sort_by`, keeping the order of items that neither
/// precedes the other.
pub fn sort_elements(items: Vec<Element>, sort_by: SortBy) -> (r: Vec<Element>)
    ensures
        element_views(r@) == sorted_by(element_views(items@), sort_by),
{
    let ghost orig = items@;
    let ghost s = element_views(items@);
    let mut rest = items;
    let mut out: Vec<Element> = Vec::new();
    let n = rest.len();
    let mut taken: usize = 0;
    while taken < n
        invariant
            n == orig.len(),
            s == element_views(orig),
            taken <= n,
            rest@ == orig.subrange(taken as int, n as int),
            element_views(out@) == sorted_by(s.take(taken as int), sort_by),
        decreases n - taken,
    {
        let x = rest.remove(0);
        assert(x@ == s[taken as int]);
        let mut pos: usize = 0;
        while pos < out.len() && !precedes_exec(&x, &out[pos], sort_by)
            invariant
                pos <= out@.len(),
                forall|k: int| 0 <= k < pos ==> !precedes(x@, #[trigger] element_views(out@)[k], sort_by),
            decreases out.len() - pos,
        {
            pos += 1;
        }
        let ghost before = element_views(out@);
        proof {
            lemma_insert_pos(before, x@, sort_by, pos as int);
            assert(s.take(taken + 1).drop_last() =~= s.take(taken as int));
            assert(s.take(taken + 1).last() == x@);
        }
        out.insert(pos, x);
        assert(element_views(out@) =~= before.insert(pos as int, s[taken as int]));
        taken += 1;
        assert(rest@ =~= orig.subrange(taken as int, n as int));
    }
    assert(s.take(n as int) =~= s);
    out
}

/// Appends the lower-cased form of each text of `texts` to `out`.
fn push_lowered(out: &mut Vec<Vec<char>>, texts: &Vec<String>)
    ensures
        final(out)@.len() == old(out)@.len() + texts@.len(),
        forall|k: int| 0 <= k < old(out)@.len() ==> #[trigger] final(out)@[k] == old(out)@[k],
        forall|k: int|
            0 <= k < texts@.len() ==> (#[trigger] final(out)@[old(out)@.len() + k])@
                == unicode_lower(texts@[k]@),
{
    let ghost start = out@.len();
    let mut i: usize = 0;
    while i < texts.len()
        invariant
            i <= texts@.len(),
            out@.len() == start + i,
            start == old(out)@.len(),
            forall|k: int| 0 <= k < start ==> #[trigger] out@[k] == old(out)@[k],
            forall|k: int| 0 <= k < i ==> (#[trigger] out@[start + k])@ == unicode_lower(texts@[k]@),
        decreases texts.len() - i,
    {
        let t = chars_of(texts[i].as_str());
        out.push(to_lower(t.as_slice()));
        i += 1;
    }
}

/// The searchable texts of an item, lower-cased.
fn lowered_fields(e: &Element) -> (r: Vec<Vec<char>>)
    ensures
        r.deep_view() == searchable(e@).map_values(|t: Seq<char>| unicode_lower(t)),
{
    let mut out: Vec<Vec<char>> = Vec::new();
    let title = chars_of(e.title.as_str());
    out.push(to_lower(title.as_slice()));
    let description = chars_of(e.description.as_str());
    out.push(to_lower(description.as_slice()));
    let genre = chars_of(e.genre.as_str());
    out.push(to_lower(genre.as_slice()));
    let director = chars_of(e.director.as_str());
    out.push(to_lower(director.as_slice()));
    let ghost o4 = out@;
    push_lowered(&mut out, &e.tags);
    let ghost o5 = out@;
    push_lowered(&mut out, &e.actors);
    let ghost o6 = out@;
    push_lowered(&mut out, &e.categories);
    proof {
        let target = searchable(e@).map_values(|t: Seq<char>| unicode_lower(t));
        let nt = e.tags@.len() as int;
        let na = e.actors@.len() as int;
        assert forall|k: int| 0 <= k < out@.len() implies #[trigger] out.deep_view()[k]
            == target[k] by {
            if k < 4 {
                assert(out@[k] == o5[k] && o5[k] == o4[k]);
            } else if k < 4 + nt {
                assert(out@[k] == o5[k]);
                assert(o5[4 + (k - 4)]@ == unicode_lower(e.tags@[k - 4]@));
                assert(e.tags.deep_view()[k - 4] == e.tags@[k - 4]@);
            } else if k < 4 + nt + na {
                assert(out@[k] == o6[k]);
                assert(o6[(4 + nt) + (k - 4 - nt)]@ == unicode_lower(e.actors@[k - 4 - nt]@));
                assert(e.actors.deep_view()[k - 4 - nt] == e.actors@[k - 4 - nt]@);
            } else {
                assert(out@[(4 + nt + na) + (k - 4 - nt - na)]@ == unicode_lower(
                    e.categories@[k - 4 - nt - na]@,
                ));
                assert(e.categories.deep_view()[k - 4 - nt - na] == e.categories@[k - 4 - nt
                    - na]@);
            }
        }
        assert(out.deep_view() =~= target);
    }
    out
}

/// Whether some text of `texts` contains `q`.
pub fn any_contains(texts: &Vec<Vec<char>>, q: &[char]) -> (r: bool)
    ensures
        r == some_contains(texts.deep_view(), q@),
{
    let mut i: usize = 0;
    while i < texts.len()
        invariant
            i <= texts@.len(),
            forall|k: int| 0 <= k < i ==> !contains_seq(#[trigger] texts.deep_view()[k], q@),
        decreases texts.len() - i,
    {
        if contains_chars(texts[i].as_slice(), q) {
            assert(texts.deep_view()[i as int] == texts@[i as int]@);
            return true;
        }
        assert(texts.deep_view()[i as int] == texts@[i as int]@);
        i += 1;
    }
    false
}

/// Whether the item matches the search key `q` (already trimmed and
/// lower-cased).
pub fn matches_query(e: &Element, q: &[char]) -> (r: bool)
    ensures
        r == query_hit(e@, q@),
{
    if q.len() == 0 {
        return true;
    }
    let texts = lowered_fields(e);
    any_contains(&texts, q)
}

/// Whether `items` holds at least one of `selected`.
fn has_any_selected(items: &Vec<String>, selected: &Vec<String>) -> (r: bool)
    ensures
        r == has_any(items.deep_view(), selected.deep_view()),
{
    let mut k: usize = 0;
    while k < selected.len()
        invariant
            k <= selected@.len(),
            forall|j: int| 0 <= j < k ==> !items.deep_view().contains(#[trigger] selected.deep_view()[j]),
        decreases selected.len() - k,
    {
        let mut i: usize = 0;
        while i < items.len()
            invariant
                i <= items@.len(),
                k < selected@.len(),
                forall|m: int| 0 <= m < i ==> items@[m]@ != selected@[k as int]@,
            decreases items.len() - i,
        {
            if items[i] == selected[k] {
                assert(items.deep_view()[i as int] == selected.deep_view()[k as int]);
                return true;
            }
            i += 1;
        }
        assert(!items.deep_view().contains(selected.deep_view()[k as int])) by {
            if items.deep_view().contains(selected.deep_view()[k as int]) {
                let m = choose|m: int| 0 <= m < items.deep_view().len() && items.deep_view()[m]
                    == selected.deep_view()[k as int];
                assert(items@[m]@ == selected@[k as int]@);
            }
        }
        k += 1;
    }
    false
}

/// Whether the item passes the metadata filter.
pub fn matches_metadata(e: &Element, f: &MetadataFilter) -> (r: bool)
    ensures
        r == meta_hit(e@, f@),
{
    if f.only_favorites && !e.favorite {
        return false;
    }
    if f.min_rating > 0 && e.rating_rounded < f.min_rating {
        return false;
    }
    if f.tag.len() > 0 && !has_any_selected(&e.tags, &f.tag) {
        return false;
    }
    if f.actor.len() > 0 && !has_any_selected(&e.actors, &f.actor) {
        return false;
    }
    if f.category.len() > 0 && !has_any_selected(&e.categories, &f.category) {
        return false;
    }
    true
}

/// The items that match the search `query` and pass the metadata filter,
/// sorted by `sort_by`. The search is case-insensitive (Unicode lower case)
/// and looks for the trimmed query in the title, description, genre,
/// director, tags, actors and categories; an empty query matches every item.
pub fn apply_filters(
    data: &[Element],
    query: &str,
    sort_by: SortBy,
    meta_filter: &MetadataFilter,
) -> (r: Vec<Element>)
    ensures
        element_views(r@) == sorted_by(
            kept(element_views(data@), search_key(query@), meta_filter@),
            sort_by,
        ),
{
    let qc = chars_of(query);
    let t = trim_chars(qc.as_slice());
    let q: Vec<char> = if t.len() == 0 {
        Vec::new()
    } else {
        to_lower(t)
    };
    let ghost s = element_views(data@);
    let mut result: Vec<Element> = Vec::new();
    let mut i: usize = 0;
    while i < data.len()
        invariant
            i <= data@.len(),
            s == element_views(data@),
            q@ == search_key(query@),
            element_views(result@) == kept(s.take(i as int), q@, meta_filter@),
        decreases data.len() - i,
    {
        proof {
            assert(s.take(i + 1).drop_last() =~= s.take(i as int));
            assert(s.take(i + 1).last() == data@[i as int]@);
        }
        if matches_query(&data[i], q.as_slice()) && matches_metadata(&data[i], meta_filter) {
            let ghost before = element_views(result@);
            result.push(data[i].copied());
            assert(element_views(result@) =~= before.push(data@[i as int]@));
        }
        i += 1;
    }
    assert(s.take(i as int) =~= s);
    sort_elements(result, sort_by)
}

} // verus!

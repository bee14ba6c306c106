//! Edits of the loaded library listing: an item the server sent back takes
//! the place of the listed one, and the favorite flag is flipped ahead of the
//! server's answer and set back when the request fails.
use crate::models::{element_views, Element, ElementV};
use vstd::prelude::*;

verus! {

/// Whether `i` is the position of the first item of `s` whose id is `id`.
pub open spec fn first_with_id(s: Seq<ElementV>, id: Seq<char>, i: int) -> bool {
    &&& 0 <= i < s.len()
    &&& s[i].id == id
    &&& forall|j: int| 0 <= j < i ==> s[j].id != id
}

/// Whether some item of `s` has the id `id`.
pub open spec fn listed(s: Seq<ElementV>, id: Seq<char>) -> bool {
    exists|i: int| first_with_id(s, id, i)
}

/// The position of the first item with the id `id` (meaningful when `listed`).
pub open spec fn pos_of(s: Seq<ElementV>, id: Seq<char>) -> int {
    choose|i: int| first_with_id(s, id, i)
}

/// The item `e` with its favorite flag set to `fav`.
pub open spec fn with_favorite(e: ElementV, fav: bool) -> ElementV {
    ElementV {
        id: e.id,
        title: e.title,
        description: e.description,
        genre: e.genre,
        tags: e.tags,
        rating_rounded: e.rating_rounded,
        rating_key: e.rating_key,
        year: e.year,
        duration_secs: e.duration_secs,
        director: e.director,
        date_added: e.date_added,
        favorite: fav,
        actors: e.actors,
        categories: e.categories,
    }
}

/// The favorite flag of the first item with the id `id` (`false` when none
/// is listed).
pub open spec fn favorite_of(s: Seq<ElementV>, id: Seq<char>) -> bool {
    if listed(s, id) {
        s[pos_of(s, id)].favorite
    } else {
        false
    }
}

/// The listing with the favorite flag of the first item with the id `id` set
/// to `fav`; unchanged when no item has that id.
pub open spec fn favorite_set(s: Seq<ElementV>, id: Seq<char>, fav: bool) -> Seq<ElementV> {
    if listed(s, id) {
        let i = pos_of(s, id);
        s.update(i, with_favorite(s[i], fav))
    } else {
        s
    }
}

/// The listing with the first item that has the id of `e` replaced by `e`;
/// unchanged when no item has that id.
pub open spec fn replaced(s: Seq<ElementV>, e: ElementV) -> Seq<ElementV> {
    if listed(s, e.id) {
        s.update(pos_of(s, e.id), e)
    } else {
        s
    }
}

/// The first position is unique.
proof fn lemma_first_unique(s: Seq<ElementV>, id: Seq<char>, i: int, k: int)
    requires
        first_with_id(s, id, i),
        first_with_id(s, id, k),
    ensures
        i == k,
{
    if i < k {
        assert(s[i].id != id);
    } else if k < i {
        assert(s[k].id != id);
    }
}

/// An item with the id `id` at `j` makes `id` listed: some item with that id
/// comes first.
proof fn lemma_some_first(s: Seq<ElementV>, id: Seq<char>, j: int)
    requires
        0 <= j < s.len(),
        s[j].id == id,
    ensures
        listed(s, id),
    decreases j,
{
    if forall|m: int| 0 <= m < j ==> s[m].id != id {
        assert(first_with_id(s, id, j));
    } else {
        let m = choose|m: int| 0 <= m < j && s[m].id == id;
        lemma_some_first(s, id, m);
    }
}

/// When the first item with `id` stands at `i`, `pos_of` names it.
proof fn lemma_pos_of(s: Seq<ElementV>, id: Seq<char>, i: int)
    requires
        first_with_id(s, id, i),
    ensures
        listed(s, id),
        pos_of(s, id) == i,
{
    assert(listed(s, id));
    lemma_first_unique(s, id, i, pos_of(s, id));
}

/// Writing an item with the same id at the first position of that id keeps
/// the position.
proof fn lemma_update_keeps_pos(s: Seq<ElementV>, id: Seq<char>, i: int, e: ElementV)
    requires
        first_with_id(s, id, i),
        e.id == id,
    ensures
        first_with_id(s.update(i, e), id, i),
        pos_of(s.update(i, e), id) == i,
{
    let t = s.update(i, e);
    assert forall|j: int| 0 <= j < i implies t[j].id != id by {
        assert(t[j] == s[j]);
    }
    lemma_pos_of(t, id, i);
}

/// The position of the first item whose id is `id`.
fn position_of_id(list: &Vec<Element>, id: &String) -> (r: Option<usize>)
    ensures
        match r {
            Some(i) => first_with_id(element_views(list@), id@, i as int),
            None => !listed(element_views(list@), id@),
        },
{
    let ghost s = element_views(list@);
    let mut i: usize = 0;
    while i < list.len()
        invariant
            i <= list@.len(),
            s == element_views(list@),
            forall|j: int| 0 <= j < i ==> s[j].id != id@,
        decreases list.len() - i,
    {
        if list[i].id == *id {
            assert(s[i as int].id == id@);
            return Some(i);
        }
        i += 1;
    }
    proof {
        if listed(s, id@) {
            let k = pos_of(s, id@);
            assert(s[k].id == id@);
        }
    }
    None
}

/// Sets the favorite flag of the listed item with the id `id` (the first
/// one, ids being unique) to `favorite`; the listing is unchanged when no
/// item has that id.
pub fn set_favorite(list: &mut Vec<Element>, id: &str, favorite: bool)
    ensures
        element_views(final(list)@) == favorite_set(element_views(old(list)@), id@, favorite),
{
    let key = id.to_owned();
    match position_of_id(list, &key) {
        Some(i) => {
            let ghost s = element_views(list@);
            proof {
                lemma_pos_of(s, id@, i as int);
            }
            list[i].favorite = favorite;
            assert(element_views(list@) =~= s.update(i as int, with_favorite(s[i as int], favorite)));
        },
        None => {},
    }
}

/// Puts `updated` in the place of the listed item with the same id (the
/// first one); the listing is unchanged when no item has that id.
pub fn replace_element(list: &mut Vec<Element>, updated: Element)
    ensures
        element_views(final(list)@) == replaced(element_views(old(list)@), updated@),
{
    match position_of_id(list, &updated.id) {
        Some(i) => {
            let ghost s = element_views(list@);
            let ghost u = updated@;
            proof {
                lemma_pos_of(s, u.id, i as int);
            }
            list[i] = updated;
            assert(element_views(list@) =~= s.update(i as int, u));
        },
        None => {},
    }
}

/// The listing with `e` in the place of the first item with its id, or `e`
/// added at the end when no item has that id.
pub open spec fn upserted(s: Seq<ElementV>, e: ElementV) -> Seq<ElementV> {
    if listed(s, e.id) {
        replaced(s, e)
    } else {
        s.push(e)
    }
}

/// Puts `item` in the place of the listed item with the same id, or adds it
/// at the end when no item has that id (an item streamed in by a scan).
pub fn upsert_element(list: &mut Vec<Element>, item: Element)
    ensures
        element_views(final(list)@) == upserted(element_views(old(list)@), item@),
{
    match position_of_id(list, &item.id) {
        Some(i) => {
            let ghost s = element_views(list@);
            let ghost u = item@;
            proof {
                lemma_pos_of(s, u.id, i as int);
            }
            list[i] = item;
            assert(element_views(list@) =~= s.update(i as int, u));
        },
        None => {
            let ghost s = element_views(list@);
            let ghost u = item@;
            list.push(item);
            assert(element_views(list@) =~= s.push(u));
        },
    }
}

/// The favorite flag of the listed item with the id `id` (the first one), or
/// `fallback` when no item has that id.
pub fn current_favorite(list: &Vec<Element>, id: &str, fallback: bool) -> (r: bool)
    ensures
        r == if listed(element_views(list@), id@) {
            favorite_of(element_views(list@), id@)
        } else {
            fallback
        },
{
    let key = id.to_owned();
    match position_of_id(list, &key) {
        Some(i) => {
            proof {
                lemma_pos_of(element_views(list@), id@, i as int);
            }
            list[i].favorite
        },
        None => fallback,
    }
}

/// After an item is put in the listing, it is listed, and the first item
/// with its id is that item; the listing grew by one exactly when no item had
/// that id before.
pub proof fn law_upserted_reads_back(s: Seq<ElementV>, e: ElementV)
    ensures
        listed(upserted(s, e), e.id),
        upserted(s, e)[pos_of(upserted(s, e), e.id)] == e,
        upserted(s, e).len() == if listed(s, e.id) {
            s.len()
        } else {
            s.len() + 1
        },
{
    if listed(s, e.id) {
        let i = pos_of(s, e.id);
        lemma_pos_of(s, e.id, i);
        lemma_update_keeps_pos(s, e.id, i, e);
    } else {
        let t = s.push(e);
        assert forall|j: int| 0 <= j < s.len() implies t[j].id != e.id by {
            if s[j].id == e.id {
                lemma_some_first(s, e.id, j);
            }
        }
        lemma_pos_of(t, e.id, s.len() as int);
    }
}

/// Flipping an item's favorite flag and then setting it back to what it was
/// gives the listing back unchanged (the roll-back after a failed request).
pub proof fn law_favorite_rollback(s: Seq<ElementV>, id: Seq<char>, fav: bool)
    ensures
        favorite_set(favorite_set(s, id, fav), id, favorite_of(s, id)) == s,
{
    if listed(s, id) {
        let i = pos_of(s, id);
        lemma_pos_of(s, id, i);
        let t = s.update(i, with_favorite(s[i], fav));
        lemma_update_keeps_pos(s, id, i, with_favorite(s[i], fav));
        let u = t.update(i, with_favorite(t[i], s[i].favorite));
        assert(with_favorite(t[i], s[i].favorite) == s[i]);
        assert(u =~= s);
    }
}

/// The server's copy of an item, once it is put in place, decides the
/// listing: it is the same whether or not the favorite flag of that item was
/// flipped ahead of the answer.
pub proof fn law_reconcile_overrides_flip(s: Seq<ElementV>, e: ElementV, fav: bool)
    ensures
        replaced(favorite_set(s, e.id, fav), e) == replaced(s, e),
{
    if listed(s, e.id) {
        let i = pos_of(s, e.id);
        lemma_pos_of(s, e.id, i);
        let t = s.update(i, with_favorite(s[i], fav));
        lemma_update_keeps_pos(s, e.id, i, with_favorite(s[i], fav));
        assert(t.update(i, e) =~= s.update(i, e));
    }
}

/// After the server's copy is put in place, the listing's first item with
/// that id is the server's copy, and no other item changes.
pub proof fn law_replaced_reads_back(s: Seq<ElementV>, e: ElementV)
    requires
        listed(s, e.id),
    ensures
        first_with_id(replaced(s, e), e.id, pos_of(s, e.id)),
        replaced(s, e)[pos_of(s, e.id)] == e,
        replaced(s, e).len() == s.len(),
        forall|j: int| 0 <= j < s.len() && j != pos_of(s, e.id) ==> replaced(s, e)[j] == s[j],
{
    let i = pos_of(s, e.id);
    lemma_pos_of(s, e.id, i);
    lemma_update_keeps_pos(s, e.id, i, e);
}

} // verus!

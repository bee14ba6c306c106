//! The library grid's virtual window, and the editing of an item's tags,
//! actors and categories: selections, additions, suggestions, star ratings and
//! the lists of known values.
use crate::std_text::{to_lower, unicode_lower};
use crate::text::{
    chars_of, has_prefix, lemma_lex_less_irreflexive, lemma_lex_less_total,
    lemma_lex_less_transitive, lex_less, lex_less_chars, starts_with_str, trim, trim_chars,
    string_of,
};
use vstd::prelude::*;

verus! {

/// How many cards the grid keeps in the page at a time.
pub const WINDOW_SIZE: usize = 30;

/// The part of the grid that is rendered: items `start..end`, with spacer
/// rows above and below.
#[derive(Clone, Copy, Debug, PartialEq, Eq, Structural)]
pub struct GridWindow {
    pub start: usize,
    pub end: usize,
    pub top_rows: usize,
    pub bottom_rows: usize,
}

/// The rendered part of a grid of `total` items in `col_count` columns: all of
/// them when a search or filter is active or they fit the window; else the
/// window from `window_start`, with the rows hidden above (whole rows) and
/// below (partial rows counted).
pub fn grid_window(total: usize, filtered: bool, window_start: usize, col_count: usize) -> (r: GridWindow)
    requires
        col_count >= 1,
        total + col_count <= usize::MAX,
        filtered || total <= WINDOW_SIZE || window_start <= total,
    ensures
        filtered || total <= WINDOW_SIZE ==> r == (GridWindow {
            start: 0,
            end: total,
            top_rows: 0,
            bottom_rows: 0,
        }),
        !(filtered || total <= WINDOW_SIZE) ==> {
            let end = if window_start + WINDOW_SIZE <= total {
                window_start + WINDOW_SIZE
            } else {
                total as int
            };
            &&& r.start == window_start
            &&& r.end == end
            &&& r.top_rows == window_start / col_count
            &&& r.bottom_rows == (total - end + col_count - 1) / col_count as int
        },
{
    if filtered || total <= WINDOW_SIZE {
        return GridWindow { start: 0, end: total, top_rows: 0, bottom_rows: 0 };
    }
    let end = if window_start <= total - WINDOW_SIZE {
        window_start + WINDOW_SIZE
    } else {
        total
    };
    let bottom_items = total - end;
    GridWindow {
        start: window_start,
        end,
        top_rows: window_start / col_count,
        bottom_rows: (bottom_items + (col_count - 1)) / col_count,
    }
}

/// Where the window starts after scrolling: one row above the first row in
/// view (`rows_above` rows past the window's start), aligned to a row, and no
/// later than the last full window.
pub fn next_window_start(current_start: usize, rows_above: usize, col_count: usize, total: usize) -> (r: usize)
    requires
        col_count >= 1,
        current_start + rows_above * col_count <= usize::MAX,
    ensures
        ({
            let top = current_start + rows_above * col_count;
            let behind = if top >= col_count {
                top - col_count
            } else {
                0
            };
            let aligned = behind / col_count as int * col_count;
            let last = if total >= WINDOW_SIZE {
                total - WINDOW_SIZE
            } else {
                0
            };
            r == if aligned <= last {
                aligned
            } else {
                last
            }
        }),
{
    assert(rows_above * col_count <= usize::MAX);
    let top = current_start + rows_above * col_count;
    let behind = if top >= col_count {
        top - col_count
    } else {
        0
    };
    let rows = behind / col_count;
    assert(rows * col_count <= behind) by (nonlinear_arith)
        requires
            rows == behind / col_count,
            col_count >= 1,
            behind >= 0,
    ;
    let aligned = rows * col_count;
    let last = if total >= WINDOW_SIZE {
        total - WINDOW_SIZE
    } else {
        0
    };
    if aligned <= last {
        aligned
    } else {
        last
    }
}

/// How many video slots the swipe view rotates through.
pub const SLOT_COUNT: usize = 3;

/// The slot next to `cur` in the swipe direction (`forward`: towards the next
/// video), the slots standing in a ring.
pub open spec fn slot_after(cur: int, forward: bool) -> int {
    if forward {
        (cur + 1) % 3
    } else {
        (cur + 2) % 3
    }
}

/// The slots after a swipe from the active slot `cur` (`direction` below zero:
/// to the next video, else to the previous one): the slot that becomes active,
/// and the slot on the other side of `cur`, which is recycled for a new video.
pub fn swipe_slots(cur: usize, direction: i32) -> (r: (usize, usize))
    requires
        cur < SLOT_COUNT,
    ensures
        r.0 == slot_after(cur as int, direction < 0),
        r.1 == slot_after(cur as int, direction >= 0),
{
    let next = (cur + 1) % SLOT_COUNT;
    let prev = (cur + SLOT_COUNT - 1) % SLOT_COUNT;
    if direction < 0 {
        (next, prev)
    } else {
        (prev, next)
    }
}

/// A swipe makes a slot other than the active one active and recycles the
/// third one: the three are distinct slots.
pub proof fn law_swipe_slots_distinct(cur: int, forward: bool)
    requires
        0 <= cur < SLOT_COUNT,
    ensures
        0 <= slot_after(cur, forward) < SLOT_COUNT,
        0 <= slot_after(cur, !forward) < SLOT_COUNT,
        slot_after(cur, forward) != cur,
        slot_after(cur, !forward) != cur,
        slot_after(cur, forward) != slot_after(cur, !forward),
{
}

/// A swipe back after a swipe returns to the slot that was active.
pub proof fn law_swipe_back_returns(cur: int, forward: bool)
    requires
        0 <= cur < SLOT_COUNT,
    ensures
        slot_after(slot_after(cur, forward), !forward) == cur,
{
}

/// The next star rating when `stars` is clicked: clicking the current rating
/// clears it.
pub fn next_rating(current: u8, stars: u8) -> (r: u8)
    ensures
        r == if current == stars {
            0
        } else {
            stars
        },
{
    if current == stars {
        0
    } else {
        stars
    }
}

/// The position of the first occurrence of `value` in `list`.
fn position_of(list: &Vec<String>, value: &String) -> (r: Option<usize>)
    ensures
        match r {
            Some(i) => i < list@.len() && list@[i as int]@ == value@ && forall|j: int|
                0 <= j < i ==> list@[j]@ != value@,
            None => forall|j: int| 0 <= j < list@.len() ==> list@[j]@ != value@,
        },
{
    let mut i: usize = 0;
    while i < list.len()
        invariant
            i <= list@.len(),
            forall|j: int| 0 <= j < i ==> list@[j]@ != value@,
        decreases list.len() - i,
    {
        if list[i] == *value {
            return Some(i);
        }
        i += 1;
    }
    None
}

/// A selection with `value` toggled: its first occurrence removed when it is
/// selected, else the value added at the end.
pub fn toggle_value(selected: &Vec<String>, value: &str) -> (r: Vec<String>)
    ensures
        selected.deep_view().contains(value@) ==> exists|i: int|
            0 <= i < selected@.len() && selected@[i]@ == value@ && (forall|j: int|
                0 <= j < i ==> selected@[j]@ != value@) && r.deep_view()
                == selected.deep_view().remove(i),
        !selected.deep_view().contains(value@) ==> r.deep_view() == selected.deep_view().push(
            value@,
        ),
{
    let v = value.to_owned();
    let mut next = crate::models::copy_strings(selected);
    match position_of(selected, &v) {
        Some(i) => {
            next.remove(i);
            proof {
                assert(next.deep_view() =~= selected.deep_view().remove(i as int));
                assert(selected.deep_view()[i as int] == value@);
            }
        },
        None => {
            proof {
                assert(!selected.deep_view().contains(value@)) by {
                    if selected.deep_view().contains(value@) {
                        let k = choose|k: int| 0 <= k < selected.deep_view().len() && selected.deep_view()[k] == value@;
                        assert(selected@[k]@ == value@);
                    }
                }
            }
            let ghost before = next.deep_view();
            next.push(v);
            assert(next.deep_view() =~= before.push(value@));
        },
    }
    next
}

/// A selection without `value`.
pub fn remove_value(selected: &Vec<String>, value: &str) -> (r: Vec<String>)
    ensures
        r.deep_view() == selected.deep_view().filter(|s: Seq<char>| s != value@),
{
    let v = value.to_owned();
    let mut out: Vec<String> = Vec::new();
    let mut i: usize = 0;
    while i < selected.len()
        invariant
            i <= selected@.len(),
            v@ == value@,
            out.deep_view() == selected.deep_view().take(i as int).filter(|s: Seq<char>| s != value@),
        decreases selected.len() - i,
    {
        let ghost before = out.deep_view();
        proof {
            let t = selected.deep_view().take(i + 1);
            assert(t.drop_last() =~= selected.deep_view().take(i as int));
            assert(t.last() == selected@[i as int]@);
            assert(t.drop_last().push(t.last()) =~= t);
            t.drop_last().lemma_filter_push(t.last(), |s: Seq<char>| s != value@);
        }
        if selected[i] != v {
            out.push(selected[i].clone());
            assert(out.deep_view() =~= before.push(selected@[i as int]@));
        }
        i += 1;
    }
    assert(selected.deep_view().take(i as int) =~= selected.deep_view());
    out
}

/// A list without its entry at `idx` (the chip that was clicked away);
/// the later entries move up by one.
pub fn remove_at(list: &Vec<String>, idx: usize) -> (r: Vec<String>)
    requires
        idx < list@.len(),
    ensures
        r.deep_view() == list.deep_view().remove(idx as int),
{
    let mut next = crate::models::copy_strings(list);
    assert(next.deep_view().len() == next@.len());
    assert(list.deep_view().len() == list@.len());
    next.remove(idx);
    assert(next.deep_view() =~= list.deep_view().remove(idx as int));
    next
}

/// A list with the trimmed input added at the end, unless it is empty or
/// already listed.
pub fn add_entry(list: &Vec<String>, input: &str) -> (r: Vec<String>)
    ensures
        (trim(input@).len() > 0 && !list.deep_view().contains(trim(input@))) ==> r.deep_view()
            == list.deep_view().push(trim(input@)),
        !(trim(input@).len() > 0 && !list.deep_view().contains(trim(input@))) ==> r.deep_view()
            == list.deep_view(),
{
    let cs = chars_of(input);
    let t = trim_chars(cs.as_slice());
    let val = string_of(t);
    let mut next = crate::models::copy_strings(list);
    if t.len() == 0 {
        return next;
    }
    match position_of(list, &val) {
        Some(i) => {
            assert(list.deep_view()[i as int] == trim(input@));
            next
        },
        None => {
            assert(!list.deep_view().contains(trim(input@))) by {
                if list.deep_view().contains(trim(input@)) {
                    let k = choose|k: int| 0 <= k < list.deep_view().len() && list.deep_view()[k] == trim(input@);
                    assert(list@[k]@ == trim(input@));
                }
            }
            let ghost before = next.deep_view();
            next.push(val);
            assert(next.deep_view() =~= before.push(trim(input@)));
            next
        },
    }
}

/// Whether `t` is suggested for the input `input` (lower-cased: `q`) beside
/// the values already added: its lower-case form starts with `q`, it is not
/// the input itself, and it is not added yet.
pub open spec fn suggestible(t: Seq<char>, q: Seq<char>, input: Seq<char>, existing: Seq<Seq<char>>) -> bool {
    has_prefix(unicode_lower(t), q) && t != input && !existing.contains(t)
}

/// The values of `all` that are suggested, in order.
pub open spec fn suggestible_values(
    all: Seq<Seq<char>>,
    q: Seq<char>,
    input: Seq<char>,
    existing: Seq<Seq<char>>,
) -> Seq<Seq<char>>
    decreases all.len(),
{
    if all.len() == 0 {
        all
    } else if suggestible(all.last(), q, input, existing) {
        suggestible_values(all.drop_last(), q, input, existing).push(all.last())
    } else {
        suggestible_values(all.drop_last(), q, input, existing)
    }
}

/// The number of suggestions shown.
pub const MAX_SUGGESTIONS: usize = 6;

/// Autocomplete suggestions for `input`: the first six known values whose
/// lower-case form starts with the lower-cased input, other than the input
/// itself and the values already added; none for an empty input (which is
/// not lower-cased at all).
pub fn suggestions(all: &Vec<String>, input: &str, existing: &Vec<String>) -> (r: Vec<String>)
    ensures
        input@.len() == 0 ==> r.deep_view().len() == 0,
        unicode_lower(input@).len() == 0 ==> r.deep_view().len() == 0,
        input@.len() > 0 && unicode_lower(input@).len() > 0 ==> {
            let s = suggestible_values(
                all.deep_view(),
                unicode_lower(input@),
                input@,
                existing.deep_view(),
            );
            r.deep_view() == if s.len() <= MAX_SUGGESTIONS {
                s
            } else {
                s.take(MAX_SUGGESTIONS as int)
            }
        },
{
    let ic = chars_of(input);
    let mut out: Vec<String> = Vec::new();
    if ic.len() == 0 {
        assert(out.deep_view().len() == 0);
        return out;
    }
    let q = to_lower(ic.as_slice());
    if q.len() == 0 {
        assert(out.deep_view().len() == 0);
        return out;
    }
    let ghost av = all.deep_view();
    let ghost ev = existing.deep_view();
    let mut i: usize = 0;
    while i < all.len()
        invariant
            i <= all@.len(),
            av == all.deep_view(),
            ev == existing.deep_view(),
            ic@ == input@,
            q@ == unicode_lower(input@),
            out.deep_view() == suggestible_values(av.take(i as int), q@, input@, ev),
        decreases all.len() - i,
    {
        proof {
            assert(av.take(i + 1).drop_last() =~= av.take(i as int));
            assert(av.take(i + 1).last() == all@[i as int]@);
        }
        let tc = chars_of(all[i].as_str());
        let lower = to_lower(tc.as_slice());
        let prefix_ok = lower.len() >= q.len() && crate::text::eq_chars(
            &lower.as_slice()[0..q.len()],
            q.as_slice(),
        );
        proof {
            if lower.len() >= q.len() {
                assert(lower@.subrange(0, q@.len() as int) =~= lower@.take(q@.len() as int));
            }
        }
        let is_input = crate::text::eq_chars(tc.as_slice(), ic.as_slice());
        let added = match position_of(existing, &all[i]) {
            Some(k) => {
                assert(ev[k as int] == all@[i as int]@);
                true
            },
            None => {
                assert(!ev.contains(all@[i as int]@)) by {
                    if ev.contains(all@[i as int]@) {
                        let k = choose|k: int| 0 <= k < ev.len() && ev[k] == all@[i as int]@;
                        assert(existing@[k]@ == all@[i as int]@);
                    }
                }
                false
            },
        };
        if prefix_ok && !is_input && !added {
            let ghost before = out.deep_view();
            out.push(all[i].clone());
            assert(out.deep_view() =~= before.push(all@[i as int]@));
        }
        i += 1;
    }
    assert(av.take(i as int) =~= av);
    let ghost full = out.deep_view();
    out.truncate(MAX_SUGGESTIONS);
    proof {
        if full.len() > MAX_SUGGESTIONS {
            assert(out.deep_view() =~= full.take(MAX_SUGGESTIONS as int));
        } else {
            assert(out.deep_view() =~= full);
        }
    }
    out
}

/// Whether `s` is in strictly increasing text order (so without repeats).
pub open spec fn strictly_sorted(s: Seq<Seq<char>>) -> bool {
    forall|i: int, j: int| 0 <= i < j < s.len() ==> lex_less(#[trigger] s[i], #[trigger] s[j])
}

/// The position of the first text of `list` that does not sort before `x`.
fn first_not_before(list: &Vec<String>, x: &[char]) -> (p: usize)
    ensures
        p <= list@.len(),
        forall|j: int| 0 <= j < p ==> lex_less(#[trigger] list.deep_view()[j], x@),
        p < list@.len() ==> !lex_less(list.deep_view()[p as int], x@),
{
    let mut p: usize = 0;
    while p < list.len()
        invariant
            p <= list@.len(),
            forall|j: int| 0 <= j < p ==> lex_less(#[trigger] list.deep_view()[j], x@),
        decreases list.len() - p,
    {
        let oc = chars_of(list[p].as_str());
        assert(list.deep_view()[p as int] == oc@);
        if !lex_less_chars(oc.as_slice(), x) {
            return p;
        }
        p += 1;
    }
    p
}

/// Inserting `x` where the first text not before it stands keeps a strictly
/// sorted list strictly sorted, when `x` is not there yet.
proof fn lemma_sorted_insert(r: Seq<Seq<char>>, x: Seq<char>, p: int)
    requires
        strictly_sorted(r),
        0 <= p <= r.len(),
        forall|j: int| 0 <= j < p ==> lex_less(#[trigger] r[j], x),
        p < r.len() ==> !lex_less(r[p], x) && r[p] != x,
    ensures
        strictly_sorted(r.insert(p, x)),
        forall|t: Seq<char>| #[trigger] r.insert(p, x).contains(t) <==> (r.contains(t) || t == x),
{
    let r2 = r.insert(p, x);
    if p < r.len() {
        lemma_lex_less_total(r[p], x);
    }
    assert forall|a: int, b: int| 0 <= a < b < r2.len() implies lex_less(
        #[trigger] r2[a],
        #[trigger] r2[b],
    ) by {
        if b < p {
            assert(r2[a] == r[a] && r2[b] == r[b]);
        } else if b == p {
            assert(r2[a] == r[a] && r2[b] == x);
        } else if a < p {
            assert(r2[a] == r[a] && r2[b] == r[b - 1]);
        } else if a == p {
            assert(r2[a] == x && r2[b] == r[b - 1]);
            if b - 1 > p {
                lemma_lex_less_transitive(x, r[p], r[b - 1]);
            }
        } else {
            assert(r2[a] == r[a - 1] && r2[b] == r[b - 1]);
        }
    }
    assert forall|t: Seq<char>| #[trigger] r2.contains(t) <==> (r.contains(t) || t == x) by {
        if r2.contains(t) {
            let k = choose|k: int| 0 <= k < r2.len() && r2[k] == t;
            if k < p {
                assert(r[k] == t);
            } else if k > p {
                assert(r[k - 1] == t);
            }
        }
        if r.contains(t) {
            let k = choose|k: int| 0 <= k < r.len() && r[k] == t;
            if k < p {
                assert(r2[k] == t);
            } else {
                assert(r2[k + 1] == t);
            }
        }
        if t == x {
            assert(r2[p] == x);
        }
    }
}

/// The distinct lower-case forms of `values`, in text order (the order of
/// `String`): what a sorted set of them holds.
pub fn distinct_sorted_lower(values: &Vec<String>) -> (r: Vec<String>)
    ensures
        strictly_sorted(r.deep_view()),
        forall|t: Seq<char>| #[trigger] r.deep_view().contains(t) <==> exists|k: int|
            0 <= k < values@.len() && t == unicode_lower(values@[k]@),
{
    let mut out: Vec<String> = Vec::new();
    let mut i: usize = 0;
    while i < values.len()
        invariant
            i <= values@.len(),
            strictly_sorted(out.deep_view()),
            forall|t: Seq<char>| #[trigger] out.deep_view().contains(t) <==> exists|k: int|
                0 <= k < i && t == unicode_lower(values@[k]@),
        decreases values.len() - i,
    {
        let vc = chars_of(values[i].as_str());
        let lower = to_lower(vc.as_slice());
        let ghost x = lower@;
        let ghost r = out.deep_view();
        assert(x == unicode_lower(values@[i as int]@));
        let p = first_not_before(&out, lower.as_slice());
        let mut found = false;
        if p < out.len() {
            let oc = chars_of(out[p].as_str());
            assert(r[p as int] == oc@);
            found = crate::text::eq_chars(oc.as_slice(), lower.as_slice());
        }
        if !found {
            let text = string_of(lower.as_slice());
            out.insert(p, text);
            proof {
                lemma_sorted_insert(r, x, p as int);
                assert(out.deep_view() =~= r.insert(p as int, x));
            }
        }
        proof {
            let r2 = out.deep_view();
            assert forall|t: Seq<char>| #[trigger] r2.contains(t) <==> exists|k: int|
                0 <= k < i + 1 && t == unicode_lower(values@[k]@) by {
                if r2.contains(t) && t != x {
                    assert(r.contains(t));
                }
                if exists|k: int| 0 <= k < i + 1 && t == unicode_lower(values@[k]@) {
                    if t != x {
                        let k = choose|k: int| 0 <= k < i + 1 && t == unicode_lower(values@[k]@);
                        assert(k < i);
                        assert(r.contains(t));
                    } else if found {
                        assert(r2[p as int] == x);
                    }
                }
                if r2.contains(t) && t == x {
                    assert(0 <= i < i + 1 && t == unicode_lower(values@[i as int]@));
                }
            }
        }
        i += 1;
    }
    out
}

} // verus!

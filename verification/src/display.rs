//! Text that the interface shows (durations, clock times, dates) and the
//! choice of a random next video.
use crate::models::{element_views, Element, ElementV};
use crate::text::{decimal, decimal_chars, push_chars, push_str, string_of};
use vstd::prelude::*;

verus! {

/// A duration as the library cards show it: `"{h}h {m}m"` from one hour on,
/// else `"{m}m"` (seconds are dropped).
pub open spec fn duration_text(secs: u32) -> Seq<char> {
    let h = secs / 3600;
    let m = (secs % 3600) / 60;
    if h > 0 {
        decimal(h as nat) + "h "@ + decimal(m as nat) + "m"@
    } else {
        decimal(m as nat) + "m"@
    }
}

/// Formats a duration in seconds for a library card.
pub fn format_duration(secs: u32) -> (r: String)
    ensures
        r@ == duration_text(secs),
{
    let h = secs / 3600;
    let m = (secs % 3600) / 60;
    let mut out: Vec<char> = Vec::new();
    if h > 0 {
        let hd = decimal_chars(h as u64);
        push_chars(&mut out, hd.as_slice());
        push_str(&mut out, "h ");
    }
    let md = decimal_chars(m as u64);
    push_chars(&mut out, md.as_slice());
    push_str(&mut out, "m");
    assert(out@ =~= duration_text(secs));
    string_of(out.as_slice())
}

/// A number below 100 in at least two digits.
pub open spec fn two_digits(n: nat) -> Seq<char> {
    if n < 10 {
        "0"@ + decimal(n)
    } else {
        decimal(n)
    }
}

/// A playback position as the player shows it: `"H:MM:SS"` from one hour on,
/// else `"M:SS"`.
pub open spec fn clock_text(total_secs: u64) -> Seq<char> {
    let hours = total_secs / 3600;
    let mins = (total_secs % 3600) / 60;
    let secs = total_secs % 60;
    if hours > 0 {
        decimal(hours as nat) + ":"@ + two_digits(mins as nat) + ":"@ + two_digits(secs as nat)
    } else {
        decimal(mins as nat) + ":"@ + two_digits(secs as nat)
    }
}

/// Appends `n` in at least two digits.
fn push_two_digits(out: &mut Vec<char>, n: u64)
    requires
        n < 100,
    ensures
        final(out)@ == old(out)@ + two_digits(n as nat),
{
    if n < 10 {
        push_str(out, "0");
    }
    let d = decimal_chars(n);
    push_chars(out, d.as_slice());
}

/// Formats a playback position, in whole seconds.
pub fn format_time(total_secs: u64) -> (r: String)
    ensures
        r@ == clock_text(total_secs),
{
    let hours = total_secs / 3600;
    let mins = (total_secs % 3600) / 60;
    let secs = total_secs % 60;
    let mut out: Vec<char> = Vec::new();
    if hours > 0 {
        let hd = decimal_chars(hours);
        push_chars(&mut out, hd.as_slice());
        push_str(&mut out, ":");
        push_two_digits(&mut out, mins);
    } else {
        let md = decimal_chars(mins);
        push_chars(&mut out, md.as_slice());
    }
    push_str(&mut out, ":");
    push_two_digits(&mut out, secs);
    assert(out@ =~= clock_text(total_secs));
    string_of(out.as_slice())
}

/// What `chrono` gives as the `%b %d, %Y` text (such as `May 15, 2015`) of the
/// UTC date `secs` seconds after the Unix epoch; `None` when the date is out of
/// its range.
pub uninterp spec fn utc_date_text(secs: i64) -> Option<Seq<char>>;

/// Calls `chrono::DateTime::from_timestamp(secs, 0)` and formats the date with
/// `%b %d, %Y`. Claimed: the result is `utc_date_text` of `secs`, a function
/// of `secs` alone (the date is taken in UTC).
#[verifier::external_body]
fn chrono_date_text(secs: i64) -> (r: Option<String>)
    ensures
        r.deep_view() == utc_date_text(secs),
{
    match chrono::DateTime::from_timestamp(secs, 0) {
        Some(dt) => Some(dt.format("%b %d, %Y").to_string()),
        None => None,
    }
}

/// Formats the date a video was added (seconds after the Unix epoch); `None`
/// when the timestamp does not fit an `i64` or the date is out of range.
pub fn format_date(timestamp: u64) -> (r: Option<String>)
    ensures
        r.deep_view() == (if timestamp <= i64::MAX {
            utc_date_text(timestamp as i64)
        } else {
            None
        }),
{
    if timestamp > 9223372036854775807u64 {
        return None;
    }
    chrono_date_text(timestamp as i64)
}

/// Whether the item at `idx` may be picked: it is the only item, nothing is
/// excluded, or it is not the excluded one.
pub open spec fn pickable(items: Seq<ElementV>, idx: int, exclude_id: Option<Seq<char>>) -> bool {
    items.len() == 1 || exclude_id is None || items[idx].id != exclude_id->0
}

/// The first position from `from` on whose item may be picked; the first
/// position when there is none.
pub open spec fn first_pickable(items: Seq<ElementV>, exclude_id: Option<Seq<char>>, from: int) -> int
    decreases items.len() - from,
{
    if from < 0 || from >= items.len() {
        0
    } else if pickable(items, from, exclude_id) {
        from
    } else {
        first_pickable(items, exclude_id, from + 1)
    }
}

/// The position picked among `items` from the random draws: the first draw
/// that is pickable, else the first item that is not the excluded one, else
/// the first item.
pub open spec fn pick_position(
    items: Seq<ElementV>,
    draws: Seq<usize>,
    exclude_id: Option<Seq<char>>,
) -> int
    decreases draws.len(),
{
    if draws.len() == 0 {
        first_pickable(items, exclude_id, 0)
    } else if pickable(items, draws[0] as int, exclude_id) {
        draws[0] as int
    } else {
        pick_position(items, draws.drop_first(), exclude_id)
    }
}

/// With a pickable item at `i` (at or after `from`), the first pickable
/// position from `from` is a pickable position among the items.
proof fn lemma_first_pickable(items: Seq<ElementV>, exclude_id: Option<Seq<char>>, from: int, i: int)
    requires
        0 <= from <= i < items.len(),
        pickable(items, i, exclude_id),
    ensures
        from <= first_pickable(items, exclude_id, from) <= i,
        pickable(items, first_pickable(items, exclude_id, from), exclude_id),
    decreases i - from,
{
    if !pickable(items, from, exclude_id) {
        lemma_first_pickable(items, exclude_id, from + 1, i);
    }
}

/// The first pickable position lies among the items.
proof fn lemma_first_pickable_in_range(items: Seq<ElementV>, exclude_id: Option<Seq<char>>, from: int)
    requires
        items.len() > 0,
    ensures
        0 <= first_pickable(items, exclude_id, from) < items.len(),
    decreases items.len() - from,
{
    if 0 <= from < items.len() && !pickable(items, from, exclude_id) {
        lemma_first_pickable_in_range(items, exclude_id, from + 1);
    }
}

/// The position picked lies among the items, whatever the draws below their
/// number.
pub proof fn lemma_pick_position_in_range(
    items: Seq<ElementV>,
    draws: Seq<usize>,
    exclude_id: Option<Seq<char>>,
)
    requires
        items.len() > 0,
        forall|k: int| 0 <= k < draws.len() ==> draws[k] < items.len(),
    ensures
        0 <= pick_position(items, draws, exclude_id) < items.len(),
    decreases draws.len(),
{
    if draws.len() == 0 {
        lemma_first_pickable_in_range(items, exclude_id, 0);
    } else if !pickable(items, draws[0] as int, exclude_id) {
        lemma_pick_position_in_range(items, draws.drop_first(), exclude_id);
    }
}

/// The position picked lies among the items, and is pickable whenever some
/// item is.
pub proof fn lemma_pick_position(
    items: Seq<ElementV>,
    draws: Seq<usize>,
    exclude_id: Option<Seq<char>>,
    i: int,
)
    requires
        0 <= i < items.len(),
        pickable(items, i, exclude_id),
        forall|k: int| 0 <= k < draws.len() ==> draws[k] < items.len(),
    ensures
        0 <= pick_position(items, draws, exclude_id) < items.len(),
        pickable(items, pick_position(items, draws, exclude_id), exclude_id),
    decreases draws.len(),
{
    if draws.len() == 0 {
        lemma_first_pickable(items, exclude_id, 0, i);
    } else if !pickable(items, draws[0] as int, exclude_id) {
        lemma_pick_position(items, draws.drop_first(), exclude_id, i);
    }
}

/// Picks an item from random draws (positions below the number of items),
/// avoiding `exclude_id` where possible: the first draw that is not the
/// excluded item, else the first item that is not, else the first item;
/// `None` when there are no items. Whenever some item's id differs from the
/// excluded one, so does the picked item's.
pub fn pick_random(items: &[Element], draws: &[usize], exclude_id: Option<&str>) -> (r: Option<
    Element,
>)
    requires
        forall|k: int| 0 <= k < draws.len() ==> draws[k] < items.len(),
    ensures
        items.len() == 0 ==> r is None,
        items.len() > 0 ==> (r matches Some(e) && e@ == element_views(items@)[pick_position(
            element_views(items@),
            draws@,
            match exclude_id {
                Some(s) => Some(s@),
                None => None,
            },
        )]),
        items.len() > 0 ==> (r is Some && exists|i: int|
            0 <= i < items.len() && #[trigger] items@[i]@ == r->0@),
        exclude_id is Some && (exists|i: int|
            0 <= i < items.len() && #[trigger] items@[i].id@ != exclude_id->0@) ==> (r is Some
            && r->0.id@ != exclude_id->0@),
{
    if items.len() == 0 {
        return None;
    }
    let ghost vs = element_views(items@);
    let ghost ex: Option<Seq<char>> = match exclude_id {
        Some(s) => Some(s@),
        None => None,
    };
    proof {
        lemma_pick_position_in_range(vs, draws@, ex);
        let p = pick_position(vs, draws@, ex);
        assert(vs[p] == items@[p]@);
        if exclude_id is Some && (exists|i: int|
            0 <= i < items.len() && #[trigger] items@[i].id@ != exclude_id->0@) {
            let i = choose|i: int| 0 <= i < items.len() && #[trigger] items@[i].id@ != exclude_id->0@;
            assert(vs[i] == items@[i]@);
            lemma_pick_position(vs, draws@, ex, i);
        }
    }
    let ex_string: Option<String> = match exclude_id {
        Some(s) => Some(s.to_owned()),
        None => None,
    };
    let mut k: usize = 0;
    assert(draws@.skip(0) =~= draws@);
    while k < draws.len()
        invariant
            k <= draws@.len(),
            items@.len() > 0,
            vs == element_views(items@),
            ex == match exclude_id {
                Some(s) => Some(s@),
                None => None::<Seq<char>>,
            },
            ex_string.deep_view() == ex,
            forall|j: int| 0 <= j < draws.len() ==> draws[j] < items.len(),
            pick_position(vs, draws@, ex) == pick_position(vs, draws@.skip(k as int), ex),
        decreases draws.len() - k,
    {
        let idx = draws[k];
        let ok = items.len() == 1 || match &ex_string {
            None => true,
            Some(x) => items[idx].id != *x,
        };
        assert(vs[idx as int] == items@[idx as int]@);
        assert(draws@.skip(k as int)[0] == idx);
        if ok {
            return Some(items[idx].copied());
        }
        assert(draws@.skip(k as int).drop_first() =~= draws@.skip(k + 1));
        k += 1;
    }
    assert(draws@.skip(k as int) =~= Seq::<usize>::empty());
    let mut j: usize = 0;
    while j < items.len()
        invariant
            j <= items@.len(),
            items@.len() > 0,
            vs == element_views(items@),
            ex == match exclude_id {
                Some(s) => Some(s@),
                None => None::<Seq<char>>,
            },
            ex_string.deep_view() == ex,
            pick_position(vs, draws@, ex) == first_pickable(vs, ex, j as int),
        decreases items.len() - j,
    {
        let ok = items.len() == 1 || match &ex_string {
            None => true,
            Some(x) => items[j].id != *x,
        };
        assert(vs[j as int] == items@[j as int]@);
        if ok {
            return Some(items[j].copied());
        }
        j += 1;
    }
    Some(items[0].copied())
}

} // verus!

use starfin::layout::{
    add_entry, distinct_sorted_lower, grid_window, next_rating, next_window_start, remove_value,
    remove_at, suggestions, swipe_slots, toggle_value, GridWindow,
};

fn strings(v: &[&str]) -> Vec<String> {
    v.iter().map(|s| s.to_string()).collect()
}

#[test]
fn grid_shows_everything_when_filtered_or_small() {
    assert_eq!(grid_window(100, true, 40, 3), GridWindow { start: 0, end: 100, top_rows: 0, bottom_rows: 0 });
    assert_eq!(grid_window(30, false, 0, 3), GridWindow { start: 0, end: 30, top_rows: 0, bottom_rows: 0 });
}

#[test]
fn grid_window_with_spacers() {
    assert_eq!(grid_window(100, false, 30, 3), GridWindow { start: 30, end: 60, top_rows: 10, bottom_rows: 14 });
    assert_eq!(grid_window(100, false, 70, 3), GridWindow { start: 70, end: 100, top_rows: 23, bottom_rows: 0 });
    assert_eq!(grid_window(31, false, 0, 2), GridWindow { start: 0, end: 30, top_rows: 0, bottom_rows: 1 });
}

#[test]
fn window_follows_scrolling() {
    // four rows of three above the viewport: one row of look-behind is kept
    assert_eq!(next_window_start(0, 4, 3, 100), 9);
    assert_eq!(next_window_start(9, 0, 3, 100), 6);
    assert_eq!(next_window_start(0, 0, 3, 100), 0);
    // never past the last full window
    assert_eq!(next_window_start(60, 10, 3, 100), 70);
    assert_eq!(next_window_start(5, 1, 2, 20), 0);
}

#[test]
fn star_ratings_toggle() {
    assert_eq!(next_rating(3, 3), 0);
    assert_eq!(next_rating(3, 5), 5);
    assert_eq!(next_rating(0, 0), 0);
}

#[test]
fn toggling_selection() {
    let s = strings(&["a", "b"]);
    assert_eq!(toggle_value(&s, "c"), strings(&["a", "b", "c"]));
    assert_eq!(toggle_value(&s, "a"), strings(&["b"]));
    let d = strings(&["x", "y", "x"]);
    assert_eq!(toggle_value(&d, "x"), strings(&["y", "x"]));
    assert_eq!(remove_value(&d, "x"), strings(&["y"]));
    assert_eq!(remove_value(&d, "z"), d);
}

#[test]
fn adding_entries() {
    let t = strings(&["hd"]);
    assert_eq!(add_entry(&t, "  4k "), strings(&["hd", "4k"]));
    assert_eq!(add_entry(&t, "hd"), t);
    assert_eq!(add_entry(&t, "   "), t);
    assert_eq!(add_entry(&t, "HD"), strings(&["hd", "HD"]));
}

#[test]
fn autocomplete_suggestions() {
    let all = strings(&["Action", "Adventure", "animation", "Comedy", "Act", "Adult", "Ace", "Ad", "Aa"]);
    let added = strings(&["Adult"]);
    assert_eq!(suggestions(&all, "a", &added), strings(&["Action", "Adventure", "animation", "Act", "Ace", "Ad"]));
    assert_eq!(suggestions(&all, "ACT", &added), strings(&["Action", "Act"]));
    assert_eq!(suggestions(&all, "Act", &added), strings(&["Action"]));
    assert!(suggestions(&all, "", &added).is_empty());
    assert!(suggestions(&all, "z", &added).is_empty());
}

#[test]
fn known_values_sorted_and_distinct() {
    let v = strings(&["Drama", "comedy", "drama", "Action", "ÉTÉ"]);
    assert_eq!(distinct_sorted_lower(&v), strings(&["action", "comedy", "drama", "été"]));
    assert!(distinct_sorted_lower(&vec![]).is_empty());
}

#[test]
fn swipe_slot_rotation() {
    // next video: the following slot becomes active, the previous one is recycled
    assert_eq!(swipe_slots(0, -1), (1, 2));
    assert_eq!(swipe_slots(1, -1), (2, 0));
    assert_eq!(swipe_slots(2, -1), (0, 1));
    // previous video
    assert_eq!(swipe_slots(0, 1), (2, 1));
    assert_eq!(swipe_slots(2, 1), (1, 0));
    // and back again
    let (t, _) = swipe_slots(1, -1);
    assert_eq!(swipe_slots(t, 1).0, 1);
}

#[test]
fn chip_removed_by_position() {
    let list: Vec<String> = ["a", "b", "a", "c"].iter().map(|s| s.to_string()).collect();
    assert_eq!(remove_at(&list, 2), vec!["a", "b", "c"]);
    assert_eq!(remove_at(&list, 0), vec!["b", "a", "c"]);
    assert_eq!(remove_at(&list, 3), vec!["a", "b", "a"]);
}

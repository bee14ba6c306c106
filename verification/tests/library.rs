use starfin::api::{apply_filters, matches_metadata, matches_query, sort_elements, AuthStatus};
use starfin::display::{format_date, format_duration, format_time, pick_random};
use starfin::listing::{current_favorite, replace_element, set_favorite, upsert_element};
use starfin::models::{Element, MetadataFilter, SortBy};

fn element(id: &str, title: &str, date_added: u64, year: u16, rating: u8, favorite: bool) -> Element {
    Element {
        id: id.to_string(),
        title: title.to_string(),
        description: format!("About {title}"),
        genre: "Drama".to_string(),
        tags: vec!["hd".to_string()],
        rating_rounded: rating,
        rating_key: rating as u64,
        year,
        duration_secs: 3600,
        director: "Someone".to_string(),
        date_added,
        favorite,
        actors: vec![],
        categories: vec![],
    }
}

fn library() -> Vec<Element> {
    let mut a = element("1", "Alpha", 300, 2001, 4, false);
    a.actors = vec!["Ann Lee".to_string()];
    let mut b = element("2", "bravo", 100, 1999, 2, true);
    b.tags = vec!["sd".to_string(), "Classic".to_string()];
    let mut c = element("3", "Charlie", 200, 2010, 5, true);
    c.categories = vec!["Docs".to_string()];
    let d = element("4", "Delta", 200, 2001, 3, false);
    vec![a, b, c, d]
}

fn no_filter() -> MetadataFilter {
    MetadataFilter::default()
}

fn ids(v: &[Element]) -> Vec<&str> {
    v.iter().map(|e| e.id.as_str()).collect()
}

#[test]
fn sort_names() {
    assert_eq!(SortBy::DateAddedNewest.as_str(), "date_newest");
    assert_eq!(SortBy::DateAddedOldest.as_str(), "date_oldest");
    assert_eq!(SortBy::NameAsc.as_str(), "name_asc");
    assert_eq!(SortBy::NameDesc.as_str(), "name_desc");
    assert_eq!(SortBy::RatingHighest.as_str(), "rating_highest");
    assert_eq!(SortBy::FavoritesFirst.as_str(), "favorites_first");
    assert_eq!(SortBy::YearNewest.as_str(), "year_newest");
    assert_eq!(SortBy::YearOldest.as_str(), "year_oldest");
}

#[test]
fn filter_activity() {
    assert!(!no_filter().is_active());
    let mut f = no_filter();
    f.only_favorites = true;
    assert!(f.is_active());
    let mut g = no_filter();
    g.min_rating = 3;
    assert!(g.is_active());
    let mut h = no_filter();
    h.category = vec!["Docs".to_string()];
    assert!(h.is_active());
}

#[test]
fn no_query_and_no_filter_lists_everything() {
    let r = apply_filters(&library(), "  ", SortBy::DateAddedNewest, &no_filter());
    // newest first; equal dates keep their order
    assert_eq!(ids(&r), vec!["1", "3", "4", "2"]);
}

#[test]
fn query_is_case_insensitive_and_trimmed() {
    let r = apply_filters(&library(), "  ALPHA ", SortBy::NameAsc, &no_filter());
    assert_eq!(ids(&r), vec!["1"]);
    let by_actor = apply_filters(&library(), "lee", SortBy::NameAsc, &no_filter());
    assert_eq!(ids(&by_actor), vec!["1"]);
    let by_tag = apply_filters(&library(), "classic", SortBy::NameAsc, &no_filter());
    assert_eq!(ids(&by_tag), vec!["2"]);
    let by_category = apply_filters(&library(), "docs", SortBy::NameAsc, &no_filter());
    assert_eq!(ids(&by_category), vec!["3"]);
    let by_description = apply_filters(&library(), "about delta", SortBy::NameAsc, &no_filter());
    assert_eq!(ids(&by_description), vec!["4"]);
    let none = apply_filters(&library(), "zzz", SortBy::NameAsc, &no_filter());
    assert!(none.is_empty());
}

#[test]
fn metadata_filters() {
    let mut fav = no_filter();
    fav.only_favorites = true;
    assert_eq!(ids(&apply_filters(&library(), "", SortBy::DateAddedOldest, &fav)), vec!["2", "3"]);
    let mut rated = no_filter();
    rated.min_rating = 4;
    assert_eq!(ids(&apply_filters(&library(), "", SortBy::DateAddedOldest, &rated)), vec!["3", "1"]);
    let mut tagged = no_filter();
    tagged.tag = vec!["sd".to_string(), "nope".to_string()];
    assert_eq!(ids(&apply_filters(&library(), "", SortBy::NameAsc, &tagged)), vec!["2"]);
    let mut acted = no_filter();
    acted.actor = vec!["Ann".to_string()];
    assert!(apply_filters(&library(), "", SortBy::NameAsc, &acted).is_empty());
    let lib = library();
    assert!(matches_metadata(&lib[2], &fav));
    assert!(!matches_metadata(&lib[0], &fav));
    assert!(matches_query(&lib[0], &['a', 'l', 'p']));
    assert!(matches_query(&lib[0], &[]));
}

#[test]
fn sort_orders() {
    let lib = library();
    let by = |s: SortBy| ids(&apply_filters(&lib, "", s, &no_filter())).into_iter().map(String::from).collect::<Vec<_>>();
    // code point order: upper case before lower case
    assert_eq!(by(SortBy::NameAsc), vec!["1", "3", "4", "2"]);
    assert_eq!(by(SortBy::NameDesc), vec!["2", "4", "3", "1"]);
    assert_eq!(by(SortBy::RatingHighest), vec!["3", "1", "4", "2"]);
    assert_eq!(by(SortBy::FavoritesFirst), vec!["3", "2", "1", "4"]);
    assert_eq!(by(SortBy::YearNewest), vec!["3", "1", "4", "2"]);
    assert_eq!(by(SortBy::YearOldest), vec!["2", "1", "4", "3"]);
    assert_eq!(by(SortBy::DateAddedOldest), vec!["2", "3", "4", "1"]);
}

#[test]
fn sorting_keeps_equal_items_in_order() {
    let items = vec![
        element("a", "Same", 1, 2000, 1, false),
        element("b", "Same", 1, 2000, 1, false),
        element("c", "Same", 1, 2000, 1, false),
    ];
    let r = sort_elements(items, SortBy::NameDesc);
    assert_eq!(ids(&r), vec!["a", "b", "c"]);
}

#[test]
fn durations_and_clock_times() {
    assert_eq!(format_duration(0), "0m");
    assert_eq!(format_duration(59), "0m");
    assert_eq!(format_duration(125 * 60), "2h 5m");
    assert_eq!(format_duration(3600), "1h 0m");
    assert_eq!(format_time(0), "0:00");
    assert_eq!(format_time(65), "1:05");
    assert_eq!(format_time(3599), "59:59");
    assert_eq!(format_time(3661), "1:01:01");
    assert_eq!(format_time(36000), "10:00:00");
}

#[test]
fn calendar_dates() {
    assert_eq!(format_date(1_431_648_000).as_deref(), Some("May 15, 2015"));
    assert_eq!(format_date(0).as_deref(), Some("Jan 01, 1970"));
    assert_eq!(format_date(u64::MAX), None);
    assert_eq!(format_date(i64::MAX as u64), None);
}

#[test]
fn random_pick_avoids_excluded() {
    let lib = library();
    assert!(pick_random(&[], &[], None).is_none());
    assert_eq!(pick_random(&lib, &[1, 2], Some("2")).map(|e| e.id), Some("3".to_string()));
    assert_eq!(pick_random(&lib, &[1], None).map(|e| e.id), Some("2".to_string()));
    assert_eq!(pick_random(&lib, &[1, 1], Some("2")).map(|e| e.id), Some("1".to_string()));
    let one = vec![element("x", "X", 0, 0, 0, false)];
    assert_eq!(pick_random(&one, &[0], Some("x")).map(|e| e.id), Some("x".to_string()));
    // every draw hits the excluded item: the first other item is picked
    let two = vec![element("a", "A", 0, 0, 0, false), element("b", "B", 0, 0, 0, false)];
    assert_eq!(pick_random(&two, &[0; 10], Some("a")).map(|e| e.id), Some("b".to_string()));
    assert_eq!(pick_random(&lib, &[0, 0], Some("1")).map(|e| e.id), Some("2".to_string()));
    // only excluded items: the first item
    let same = vec![element("a", "A", 0, 0, 0, false), element("a", "A2", 0, 0, 0, false)];
    assert_eq!(pick_random(&same, &[1], Some("a")).map(|e| e.title), Some("A".to_string()));
}

#[test]
fn auth_status_fields() {
    let s = AuthStatus { password_protection: true, password_set: false, authenticated: false };
    assert_eq!(s, AuthStatus { password_protection: true, password_set: false, authenticated: false });
}

#[test]
fn favorite_flip_and_rollback() {
    let mut list = library();
    set_favorite(&mut list, "1", true);
    assert!(list[0].favorite);
    assert_eq!(list[0].title, "Alpha");
    assert!(list[1].favorite && list[2].favorite && !list[3].favorite);
    // the request failed: set back to what it was
    set_favorite(&mut list, "1", false);
    let fresh = library();
    for (a, b) in list.iter().zip(fresh.iter()) {
        assert_eq!(a.id, b.id);
        assert_eq!(a.favorite, b.favorite);
    }
    // an id that is not listed changes nothing
    set_favorite(&mut list, "9", true);
    assert_eq!(list.iter().filter(|e| e.favorite).count(), 2);
}

#[test]
fn server_copy_replaces_listed_item() {
    let mut list = library();
    set_favorite(&mut list, "3", false);
    let mut server = element("3", "Charlie (2010)", 200, 2010, 5, true);
    server.rating_rounded = 4;
    replace_element(&mut list, server);
    assert_eq!(ids(&list), vec!["1", "2", "3", "4"]);
    assert_eq!(list[2].title, "Charlie (2010)");
    assert!(list[2].favorite);
    assert_eq!(list[2].rating_rounded, 4);
    assert_eq!(list[1].title, "bravo");
    // an item the listing does not hold is not added
    replace_element(&mut list, element("7", "Echo", 1, 2000, 1, false));
    assert_eq!(list.len(), 4);
    assert_eq!(ids(&list), vec!["1", "2", "3", "4"]);
}

#[test]
fn sort_menu_values() {
    for s in [
        SortBy::DateAddedNewest,
        SortBy::DateAddedOldest,
        SortBy::NameAsc,
        SortBy::NameDesc,
        SortBy::RatingHighest,
        SortBy::FavoritesFirst,
        SortBy::YearNewest,
        SortBy::YearOldest,
    ] {
        assert_eq!(SortBy::from_name(s.as_str()), s);
    }
    assert_eq!(SortBy::from_name("name_asc"), SortBy::NameAsc);
    assert_eq!(SortBy::from_name("bogus"), SortBy::DateAddedNewest);
    assert_eq!(SortBy::from_name(""), SortBy::DateAddedNewest);
}

#[test]
fn scanned_items_are_upserted() {
    let mut list = library();
    let mut again = element("2", "Bravo (remastered)", 100, 1999, 2, true);
    again.tags = vec![];
    upsert_element(&mut list, again);
    assert_eq!(ids(&list), vec!["1", "2", "3", "4"]);
    assert_eq!(list[1].title, "Bravo (remastered)");
    upsert_element(&mut list, element("5", "Echo", 400, 2020, 1, false));
    assert_eq!(ids(&list), vec!["1", "2", "3", "4", "5"]);
    assert_eq!(list[4].title, "Echo");
}

#[test]
fn favorite_of_selected_item() {
    let list = library();
    assert!(current_favorite(&list, "2", false));
    assert!(!current_favorite(&list, "1", true));
    assert!(current_favorite(&list, "missing", true));
    assert!(!current_favorite(&list, "missing", false));
}

#[test]
fn blank_search_keeps_everything() {
    let lib = library();
    for q in ["", "   ", "\t \n"] {
        let r = apply_filters(&lib, q, SortBy::NameAsc, &no_filter());
        assert_eq!(r.len(), lib.len());
        assert_eq!(ids(&r), vec!["1", "3", "4", "2"]);
    }
}

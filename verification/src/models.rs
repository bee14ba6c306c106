//! The media library's records and the user's filter and sort choices.
use crate::text::{chars_of, eq_str};
use vstd::prelude::*;

verus! {

/// A media item of the library.
///
/// The rating is held as two integers that the filters and sorts read: its
/// value rounded to a whole number, and an order key.
#[derive(Debug)]
pub struct Element {
    pub id: String,
    pub title: String,
    pub description: String,
    pub genre: String,
    pub tags: Vec<String>,
    /// The rating rounded to the nearest whole number.
    pub rating_rounded: u8,
    /// The rating as an order key: of two items, the one rated higher has the
    /// higher key, and equal ratings have equal keys.
    pub rating_key: u64,
    pub year: u16,
    pub duration_secs: u32,
    pub director: String,
    pub date_added: u64,
    /// Whether the user has favorited this media file.
    pub favorite: bool,
    /// User-defined list of actors / people appearing in the media.
    pub actors: Vec<String>,
    /// User-defined genre / category labels.
    pub categories: Vec<String>,
}

/// A media item as plain values.
#[verifier::ext_equal]
pub struct ElementV {
    pub id: Seq<char>,
    pub title: Seq<char>,
    pub description: Seq<char>,
    pub genre: Seq<char>,
    pub tags: Seq<Seq<char>>,
    pub rating_rounded: u8,
    pub rating_key: u64,
    pub year: u16,
    pub duration_secs: u32,
    pub director: Seq<char>,
    pub date_added: u64,
    pub favorite: bool,
    pub actors: Seq<Seq<char>>,
    pub categories: Seq<Seq<char>>,
}

impl View for Element {
    type V = ElementV;

    open spec fn view(&self) -> ElementV {
        ElementV {
            id: self.id@,
            title: self.title@,
            description: self.description@,
            genre: self.genre@,
            tags: self.tags.deep_view(),
            rating_rounded: self.rating_rounded,
            rating_key: self.rating_key,
            year: self.year,
            duration_secs: self.duration_secs,
            director: self.director@,
            date_added: self.date_added,
            favorite: self.favorite,
            actors: self.actors.deep_view(),
            categories: self.categories.deep_view(),
        }
    }
}

/// The views of a sequence of items.
pub open spec fn element_views(s: Seq<Element>) -> Seq<ElementV> {
    s.map_values(|e: Element| e@)
}

/// A copy of a list of strings.
pub fn copy_strings(v: &Vec<String>) -> (r: Vec<String>)
    ensures
        r.deep_view() == v.deep_view(),
{
    let mut out: Vec<String> = Vec::new();
    let mut i: usize = 0;
    while i < v.len()
        invariant
            i <= v@.len(),
            out@ == v@.take(i as int),
        decreases v.len() - i,
    {
        out.push(v[i].clone());
        i += 1;
        assert(out@ =~= v@.take(i as int));
    }
    assert(v@.take(i as int) =~= v@);
    assert(out.deep_view() =~= v.deep_view());
    out
}

impl Element {
    /// A copy of this item.
    pub fn copied(&self) -> (r: Element)
        ensures
            r@ == self@,
    {
        Element {
            id: self.id.clone(),
            title: self.title.clone(),
            description: self.description.clone(),
            genre: self.genre.clone(),
            tags: copy_strings(&self.tags),
            rating_rounded: self.rating_rounded,
            rating_key: self.rating_key,
            year: self.year,
            duration_secs: self.duration_secs,
            director: self.director.clone(),
            date_added: self.date_added,
            favorite: self.favorite,
            actors: copy_strings(&self.actors),
            categories: copy_strings(&self.categories),
        }
    }
}

/// The orders in which the library can be listed.
#[derive(Clone, Copy, Debug, PartialEq, Eq, Structural)]
pub enum SortBy {
    DateAddedNewest,
    DateAddedOldest,
    NameAsc,
    NameDesc,
    RatingHighest,
    FavoritesFirst,
    YearNewest,
    YearOldest,
}

/// The name of a sort order, as the server and the URL spell it.
pub open spec fn sort_name(s: SortBy) -> Seq<char> {
    match s {
        SortBy::DateAddedNewest => "date_newest"@,
        SortBy::DateAddedOldest => "date_oldest"@,
        SortBy::NameAsc => "name_asc"@,
        SortBy::NameDesc => "name_desc"@,
        SortBy::RatingHighest => "rating_highest"@,
        SortBy::FavoritesFirst => "favorites_first"@,
        SortBy::YearNewest => "year_newest"@,
        SortBy::YearOldest => "year_oldest"@,
    }
}

impl SortBy {
    /// The name of this sort order.
    pub fn as_str(&self) -> (r: &'static str)
        ensures
            r@ == sort_name(*self),
    {
        match self {
            SortBy::DateAddedNewest => "date_newest",
            SortBy::DateAddedOldest => "date_oldest",
            SortBy::NameAsc => "name_asc",
            SortBy::NameDesc => "name_desc",
            SortBy::RatingHighest => "rating_highest",
            SortBy::FavoritesFirst => "favorites_first",
            SortBy::YearNewest => "year_newest",
            SortBy::YearOldest => "year_oldest",
        }
    }
}

/// The sort order a name stands for, as the sort menu reads it: the newest
/// first for a name it does not know.
pub open spec fn sort_from_name(name: Seq<char>) -> SortBy {
    if name == "date_oldest"@ {
        SortBy::DateAddedOldest
    } else if name == "name_asc"@ {
        SortBy::NameAsc
    } else if name == "name_desc"@ {
        SortBy::NameDesc
    } else if name == "rating_highest"@ {
        SortBy::RatingHighest
    } else if name == "favorites_first"@ {
        SortBy::FavoritesFirst
    } else if name == "year_newest"@ {
        SortBy::YearNewest
    } else if name == "year_oldest"@ {
        SortBy::YearOldest
    } else {
        SortBy::DateAddedNewest
    }
}

impl SortBy {
    /// The sort order that the menu value `name` selects (the newest first
    /// for any other value).
    pub fn from_name(name: &str) -> (r: SortBy)
        ensures
            r == sort_from_name(name@),
    {
        let k = chars_of(name);
        let s = k.as_slice();
        if eq_str(s, "date_oldest") {
            SortBy::DateAddedOldest
        } else if eq_str(s, "name_asc") {
            SortBy::NameAsc
        } else if eq_str(s, "name_desc") {
            SortBy::NameDesc
        } else if eq_str(s, "rating_highest") {
            SortBy::RatingHighest
        } else if eq_str(s, "favorites_first") {
            SortBy::FavoritesFirst
        } else if eq_str(s, "year_newest") {
            SortBy::YearNewest
        } else if eq_str(s, "year_oldest") {
            SortBy::YearOldest
        } else {
            SortBy::DateAddedNewest
        }
    }
}

/// Reading back the name of a sort order gives that sort order.
pub proof fn law_sort_name_round_trip(s: SortBy)
    ensures
        sort_from_name(sort_name(s)) == s,
{
    reveal_strlit("date_newest");
    reveal_strlit("date_oldest");
    reveal_strlit("name_asc");
    reveal_strlit("name_desc");
    reveal_strlit("rating_highest");
    reveal_strlit("favorites_first");
    reveal_strlit("year_newest");
    reveal_strlit("year_oldest");
    let n = sort_name(s);
    // names of equal length differ at one of these places
    assert("date_newest"@[5] != "date_oldest"@[5]);
    assert("date_oldest"@[0] != "year_newest"@[0]);
    assert("date_oldest"@[0] != "year_oldest"@[0]);
    assert("date_newest"@[0] != "year_newest"@[0]);
    assert("date_newest"@[0] != "year_oldest"@[0]);
    assert("year_newest"@[5] != "year_oldest"@[5]);
    assert("name_asc"@[5] != "name_desc"@[5]);
    match s {
        SortBy::DateAddedNewest => {
            assert(n != "date_oldest"@);
            assert(n.len() != "name_asc"@.len());
            assert(n.len() != "name_desc"@.len());
            assert(n.len() != "rating_highest"@.len());
            assert(n.len() != "favorites_first"@.len());
            assert(n != "year_newest"@);
            assert(n != "year_oldest"@);
        },
        SortBy::YearNewest => {
            assert(n != "date_oldest"@);
        },
        SortBy::YearOldest => {
            assert(n != "date_oldest"@);
            assert(n != "year_newest"@);
        },
        SortBy::NameDesc => {
            assert(n != "name_asc"@);
        },
        _ => {},
    }
}

/// Additional filters based on user-defined metadata fields.
#[derive(Clone, Debug)]
pub struct MetadataFilter {
    /// Show only favorited items.
    pub only_favorites: bool,
    /// Show only items whose rounded rating is at least this (0 = no minimum).
    pub min_rating: u8,
    /// Selected tag values to filter by (empty = show all).  OR logic: item
    /// must have at least one of the selected tags.
    pub tag: Vec<String>,
    /// Selected actor values to filter by (empty = show all).  OR logic.
    pub actor: Vec<String>,
    /// Selected category values to filter by (empty = show all).  OR logic.
    pub category: Vec<String>,
}

/// A metadata filter as plain values.
#[verifier::ext_equal]
pub struct MetadataFilterV {
    pub only_favorites: bool,
    pub min_rating: u8,
    pub tag: Seq<Seq<char>>,
    pub actor: Seq<Seq<char>>,
    pub category: Seq<Seq<char>>,
}

impl View for MetadataFilter {
    type V = MetadataFilterV;

    open spec fn view(&self) -> MetadataFilterV {
        MetadataFilterV {
            only_favorites: self.only_favorites,
            min_rating: self.min_rating,
            tag: self.tag.deep_view(),
            actor: self.actor.deep_view(),
            category: self.category.deep_view(),
        }
    }
}

/// Whether any of the filters restricts the listing.
pub open spec fn filter_active(f: MetadataFilterV) -> bool {
    f.only_favorites || f.min_rating > 0 || f.tag.len() > 0 || f.actor.len() > 0
        || f.category.len() > 0
}

impl Default for MetadataFilter {
    /// No filter: every item passes.
    fn default() -> (r: Self)
        ensures
            !filter_active(r@),
    {
        MetadataFilter {
            only_favorites: false,
            min_rating: 0,
            tag: Vec::new(),
            actor: Vec::new(),
            category: Vec::new(),
        }
    }
}

impl MetadataFilter {
    /// Returns `true` if any filter is active.
    pub fn is_active(&self) -> (r: bool)
        ensures
            r == filter_active(self@),
    {
        self.only_favorites || self.min_rating > 0 || self.tag.len() > 0 || self.actor.len() > 0
            || self.category.len() > 0
    }
}

} // verus!

//! Home-screen layout assembly.
//!
//! The layout is emitted in two phases: a skeleton with four empty
//! placeholder sections goes out immediately, and once the four searches
//! have resolved, the populated layout carries only the sections whose
//! filtered result set is non-empty, in the fixed category order.

use vstd::prelude::*;
use crate::models::{HomeComponent, HomeComponentValue, HomeLayout, Listing, ListingKind, Manga};
use crate::settings::opt_view;
use crate::uri::{encode_uri_component, spec_encode_uri_component};

verus! {

/// The skeleton layout: four empty placeholder sections in fixed order.
pub fn home_skeleton() -> (r: HomeLayout)
    ensures
        r.components@.len() == 4,
        (r.components@[0].title matches Some(t) && t@ == "Popular Today"@),
        r.components@[0].subtitle is None,
        r.components@[0].value is EmptyBigScroller,
        (r.components@[1].title matches Some(t) && t@ == "Popular This Week"@),
        r.components@[1].subtitle is None,
        r.components@[1].value is EmptyMangaList,
        (r.components@[2].title matches Some(t) && t@ == "Popular All Time"@),
        r.components@[2].subtitle is None,
        r.components@[2].value is EmptyMangaList,
        (r.components@[3].title matches Some(t) && t@ == "Latest"@),
        r.components@[3].subtitle is None,
        r.components@[3].value is EmptyScroller,
{
    let mut components: Vec<HomeComponent> = Vec::new();
    components.push(
        HomeComponent {
            title: Some(String::from_str("Popular Today")),
            subtitle: None,
            value: HomeComponentValue::EmptyBigScroller,
        },
    );
    components.push(
        HomeComponent {
            title: Some(String::from_str("Popular This Week")),
            subtitle: None,
            value: HomeComponentValue::EmptyMangaList,
        },
    );
    components.push(
        HomeComponent {
            title: Some(String::from_str("Popular All Time")),
            subtitle: None,
            value: HomeComponentValue::EmptyMangaList,
        },
    );
    components.push(
        HomeComponent {
            title: Some(String::from_str("Latest")),
            subtitle: None,
            value: HomeComponentValue::EmptyScroller,
        },
    );
    HomeLayout { components }
}

/// The query string the four home searches share: the language scope when
/// one is set, else the non-empty placeholder query.
pub fn home_query(language: Option<String>) -> (r: String)
    ensures
        r@ == spec_encode_uri_component(
            match opt_view(language) {
                Some(l) => "language:"@ + l,
                None => " "@,
            },
        ),
{
    let combined = match language {
        Some(l) => {
            let mut c = String::from_str("language:");
            c.append(l.as_str());
            c
        },
        None => String::from_str(" "),
    };
    encode_uri_component(combined.as_str())
}

/// Which of the four sections appear, in fixed order: 0 is Popular
/// Today, 1 Popular This Week, 2 Popular All Time, 3 Latest; a section
/// appears exactly when its result list is non-empty.
pub open spec fn spec_home_order(today: bool, week: bool, all: bool, latest: bool) -> Seq<int> {
    (if today {
        seq![0int]
    } else {
        Seq::empty()
    }) + (if week {
        seq![1int]
    } else {
        Seq::empty()
    }) + (if all {
        seq![2int]
    } else {
        Seq::empty()
    }) + (if latest {
        seq![3int]
    } else {
        Seq::empty()
    })
}

/// The listing kind a user's list-viewer toggle selects.
pub open spec fn spec_listing_kind(list_viewer: bool) -> ListingKind {
    if list_viewer {
        ListingKind::List
    } else {
        ListingKind::Default
    }
}

/// All fields of one populated home section pinned from the four result
/// lists and the list-viewer toggle.
pub open spec fn spec_home_component_matches(
    c: HomeComponent,
    which: int,
    today: Seq<Manga>,
    week: Seq<Manga>,
    all: Seq<Manga>,
    latest: Seq<Manga>,
    list_viewer: bool,
) -> bool {
    if which == 0 {
        &&& (c.title matches Some(t) && t@ == "Popular Today"@)
        &&& c.subtitle is None
        &&& (c.value matches HomeComponentValue::BigScroller { entries, auto_scroll }
            && entries@ == today && auto_scroll == Some(8u32))
    } else if which == 1 {
        &&& (c.title matches Some(t) && t@ == "Popular This Week"@)
        &&& c.subtitle is None
        &&& (c.value matches HomeComponentValue::MangaList { ranking, page_size, entries, listing }
            && ranking && page_size == Some(3i32) && entries@ == week && (listing matches Some(li)
            && li.id@ == "popular-week"@ && li.name@ == "Popular This Week"@ && li.kind
            == spec_listing_kind(list_viewer)))
    } else if which == 2 {
        &&& (c.title matches Some(t) && t@ == "Popular All Time"@)
        &&& c.subtitle is None
        &&& (c.value matches HomeComponentValue::MangaList { ranking, page_size, entries, listing }
            && ranking && page_size == Some(3i32) && entries@ == all && (listing matches Some(li)
            && li.id@ == "popular"@ && li.name@ == "Popular All Time"@ && li.kind
            == spec_listing_kind(list_viewer)))
    } else {
        &&& (c.title matches Some(t) && t@ == "Latest"@)
        &&& c.subtitle is None
        &&& (c.value matches HomeComponentValue::Scroller { entries, listing } && entries@
            == latest && (listing matches Some(li) && li.id@ == "latest"@ && li.name@ == "Latest"@
            && li.kind == spec_listing_kind(list_viewer)))
    }
}

/// Assemble the populated home layout from the four search results:
/// only non-empty sections appear, in the fixed category order.
pub fn assemble_home(
    popular_today: Vec<Manga>,
    popular_week: Vec<Manga>,
    popular_all: Vec<Manga>,
    latest: Vec<Manga>,
    list_viewer: bool,
) -> (r: HomeLayout)
    ensures
        ({
            let order = spec_home_order(
                popular_today@.len() > 0,
                popular_week@.len() > 0,
                popular_all@.len() > 0,
                latest@.len() > 0,
            );
            &&& r.components@.len() == order.len()
            &&& forall|i: int|
                0 <= i < order.len() ==> spec_home_component_matches(
                    #[trigger] r.components@[i],
                    order[i],
                    popular_today@,
                    popular_week@,
                    popular_all@,
                    latest@,
                    list_viewer,
                )
        }),
{
    let ghost today_v = popular_today@;
    let ghost week_v = popular_week@;
    let ghost all_v = popular_all@;
    let ghost latest_v = latest@;
    let mut components: Vec<HomeComponent> = Vec::new();
    if popular_today.len() > 0 {
        components.push(
            HomeComponent {
                title: Some(String::from_str("Popular Today")),
                subtitle: None,
                value: HomeComponentValue::BigScroller {
                    entries: popular_today,
                    auto_scroll: Some(8),
                },
            },
        );
    }
    if popular_week.len() > 0 {
        let kind = if list_viewer {
            ListingKind::List
        } else {
            ListingKind::Default
        };
        components.push(
            HomeComponent {
                title: Some(String::from_str("Popular This Week")),
                subtitle: None,
                value: HomeComponentValue::MangaList {
                    ranking: true,
                    page_size: Some(3),
                    entries: popular_week,
                    listing: Some(
                        Listing {
                            id: String::from_str("popular-week"),
                            name: String::from_str("Popular This Week"),
                            kind,
                        },
                    ),
                },
            },
        );
    }
    if popular_all.len() > 0 {
        let kind = if list_viewer {
            ListingKind::List
        } else {
            ListingKind::Default
        };
        components.push(
            HomeComponent {
                title: Some(String::from_str("Popular All Time")),
                subtitle: None,
                value: HomeComponentValue::MangaList {
                    ranking: true,
                    page_size: Some(3),
                    entries: popular_all,
                    listing: Some(
                        Listing {
                            id: String::from_str("popular"),
                            name: String::from_str("Popular All Time"),
                            kind,
                        },
                    ),
                },
            },
        );
    }
    if latest.len() > 0 {
        let kind = if list_viewer {
            ListingKind::List
        } else {
            ListingKind::Default
        };
        components.push(
            HomeComponent {
                title: Some(String::from_str("Latest")),
                subtitle: None,
                value: HomeComponentValue::Scroller {
                    entries: latest,
                    listing: Some(
                        Listing {
                            id: String::from_str("latest"),
                            name: String::from_str("Latest"),
                            kind,
                        },
                    ),
                },
            },
        );
    }
    proof {
        let order = spec_home_order(
            today_v.len() > 0,
            week_v.len() > 0,
            all_v.len() > 0,
            latest_v.len() > 0,
        );
        assert(components@.len() == order.len());
        assert(forall|i: int|
            0 <= i < order.len() ==> spec_home_component_matches(
                #[trigger] components@[i],
                order[i],
                today_v,
                week_v,
                all_v,
                latest_v,
                list_viewer,
            ));
    }
    HomeLayout { components }
}

/// Omission law: when Popular Today comes back empty but the other three
/// sections have entries, the populated layout holds exactly those three
/// sections, in the fixed relative order.
pub proof fn lemma_home_omits_empty_today(today: bool, week: bool, all: bool, latest: bool)
    requires
        !today,
        week,
        all,
        latest,
    ensures
        spec_home_order(today, week, all, latest) == seq![1int, 2int, 3int],
{
    assert(spec_home_order(today, week, all, latest) =~= seq![1int, 2int, 3int]);
}

} // verus!

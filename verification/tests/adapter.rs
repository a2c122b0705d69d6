use nhentai::chapters::{build_chapter, chapter_languages, page_list_from_gallery, update_manga};
use nhentai::deeplink::handle_deep_link;
use nhentai::dict::LocalizationDict;
use nhentai::filters::get_dynamic_filters;
use nhentai::home::{assemble_home, home_query, home_skeleton};
use nhentai::models::{
    DeepLinkResult, Filter, FilterValue, GalleryId, HomeComponentValue, ListingKind, Manga,
    MangaStatus, ContentRating, NHentaiGallery, NHentaiImage, NHentaiImages, NHentaiSearchResponse,
    NHentaiTag, NHentaiTitle, SourceError, UpdateStrategy, Viewer, extension_from_type,
};
use nhentai::normalize::{choose_title, manga_from_gallery};
use nhentai::query::{
    build_search_request, gallery_url, listing_sort_index, search_url, SearchRequest,
};
use nhentai::search::{
    filter_blocked, gallery_blocked, normalize_blocklist, search_results_from_response,
    single_gallery_result,
};
use nhentai::settings::TitlePreference;

fn english_dict() -> LocalizationDict {
    LocalizationDict {
        language: "chinese".to_string(),
        tags: vec![],
        artists: vec![],
        groups: vec![],
        parodies: vec![],
        characters: vec![],
        reverse_tags: vec![],
    }
}

fn tag(name: &str, kind: &str, count: i32) -> NHentaiTag {
    NHentaiTag {
        id: 0,
        name: name.to_string(),
        count,
        kind: kind.to_string(),
        url: String::new(),
    }
}

fn image(t: &str) -> NHentaiImage {
    NHentaiImage { t: t.to_string(), w: 100, h: 150 }
}

fn gallery(id: i64, tags: Vec<NHentaiTag>) -> NHentaiGallery {
    NHentaiGallery {
        id: GalleryId::Num(id),
        media_id: "990000".to_string(),
        title: NHentaiTitle {
            english: "English Title".to_string(),
            japanese: Some("\u{65e5}\u{672c}\u{8a9e}".to_string()),
            pretty: "Pretty".to_string(),
        },
        images: NHentaiImages {
            pages: vec![image("j"), image("g"), image("x")],
            cover: image("p"),
            thumbnail: image("j"),
        },
        tags,
        num_pages: 3,
        num_favorites: 12,
        upload_date: 1700000000,
    }
}

#[test]
fn numeric_query_short_circuits() {
    // free text "12345" bypasses filters and fetches the gallery directly
    let filters = vec![FilterValue::Text {
        id: "author".to_string(),
        value: "someone".to_string(),
    }];
    let d = english_dict();
    let r = build_search_request(
        Some("12345".to_string()),
        &filters,
        Some("english".to_string()),
        "english",
        &d,
    );
    match r {
        SearchRequest::Gallery { id } => assert_eq!(id, 12345),
        SearchRequest::Search { .. } => panic!("expected a direct gallery fetch"),
    }
}

#[test]
fn empty_query_is_single_space() {
    // no text, no filters, no language: the query is one encoded space
    let d = english_dict();
    let r = build_search_request(None, &Vec::new(), None, "english", &d);
    match r {
        SearchRequest::Search { query, sort } => {
            assert_eq!(query.as_str(), "%20");
            assert_eq!(sort.as_str(), "recent");
        },
        SearchRequest::Gallery { .. } => panic!("expected a search"),
    }
}

#[test]
fn query_accumulates_clauses() {
    let d = english_dict();
    let filters = vec![
        FilterValue::Text { id: "author".to_string(), value: "alice".to_string() },
        FilterValue::Text { id: "artist".to_string(), value: "bob".to_string() },
        FilterValue::Text { id: "groups".to_string(), value: "team".to_string() },
        FilterValue::Text { id: "unknown".to_string(), value: "zzz".to_string() },
        FilterValue::Sort { id: "sort".to_string(), index: 2, ascending: false },
        FilterValue::MultiSelect {
            id: "tags".to_string(),
            included: vec!["glasses".to_string()],
            excluded: vec!["netorare".to_string()],
        },
        FilterValue::Select { id: "genre".to_string(), value: "yuri".to_string() },
    ];
    let r = build_search_request(
        Some("search words".to_string()),
        &filters,
        Some("english".to_string()),
        "english",
        &d,
    );
    match r {
        SearchRequest::Search { query, sort } => {
            assert_eq!(sort.as_str(), "popular-week");
            let expected = "search words alice artist:bob group:team tag:\"glasses\" \
                            -tag:\"netorare\" tag:\"yuri\" language:english";
            let expected_encoded = nhentai::uri::encode_uri_component(expected);
            assert_eq!(query, expected_encoded);
        },
        SearchRequest::Gallery { .. } => panic!("expected a search"),
    }
}

#[test]
fn request_urls() {
    assert_eq!(
        search_url("%20", 2, "recent").as_str(),
        "https://nhentai.net/api/galleries/search?query=%20&page=2&sort=recent"
    );
    assert_eq!(
        gallery_url("177013").as_str(),
        "https://nhentai.net/api/gallery/177013"
    );
}

#[test]
fn listing_ids() {
    assert_eq!(listing_sort_index("popular-today"), Ok(1));
    assert_eq!(listing_sort_index("popular-week"), Ok(2));
    assert_eq!(listing_sort_index("popular"), Ok(3));
    assert_eq!(listing_sort_index("latest"), Ok(0));
    assert_eq!(listing_sort_index("weekly"), Err(SourceError::Unsupported));
}

#[test]
fn blocklist_excludes_tagged_gallery() {
    // "loli" excludes any gallery carrying that tag, case-insensitively,
    // and leaves other galleries alone; an empty blocklist admits all
    let d = english_dict();
    let blocklist = normalize_blocklist(&vec!["loli".to_string()], "english", &d);
    let blocked = gallery(1, vec![tag("Loli", "tag", 5)]);
    let clean = gallery(2, vec![tag("glasses", "tag", 5)]);
    assert!(gallery_blocked(&blocked, &blocklist));
    assert!(!gallery_blocked(&clean, &blocklist));
    let kept = filter_blocked(vec![blocked.clone(), clean.clone()], &blocklist);
    assert_eq!(kept.len(), 1);
    assert_eq!(kept[0].id_str().as_str(), "2");
    let all = filter_blocked(vec![blocked, clean], &Vec::new());
    assert_eq!(all.len(), 2);
}

#[test]
fn has_next_page_follows_total_pages() {
    let d = english_dict();
    let response = NHentaiSearchResponse {
        result: vec![gallery(7, vec![])],
        num_pages: 3,
        per_page: 25,
    };
    let page2 = search_results_from_response(
        response.clone(),
        2,
        &Vec::new(),
        "english",
        "english",
        TitlePreference::English,
        &d,
    );
    assert!(page2.has_next_page);
    assert_eq!(page2.entries.len(), 1);
    let page3 = search_results_from_response(
        response,
        3,
        &Vec::new(),
        "english",
        "english",
        TitlePreference::English,
        &d,
    );
    assert!(!page3.has_next_page);
}

#[test]
fn single_gallery_page() {
    let d = english_dict();
    let g = gallery(12345, vec![]);
    let r = single_gallery_result(&g, "english", "english", TitlePreference::English, &d);
    assert_eq!(r.entries.len(), 1);
    assert!(!r.has_next_page);
    assert_eq!(r.entries[0].key.as_str(), "12345");
}

#[test]
fn normalization_builds_manga() {
    let d = english_dict();
    let g = gallery(
        40710,
        vec![
            tag("glasses", "tag", 3),
            tag("alice", "artist", 1),
            tag("team a", "group", 2),
            tag("touhou project", "parody", 4),
            tag("original", "parody", 9),
            tag("reimu", "character", 1),
            tag("webtoon", "tag", 9),
            tag("english", "language", 5),
        ],
    );
    let m = manga_from_gallery(&g, "english", "english", TitlePreference::English, &d);
    assert_eq!(m.key.as_str(), "40710");
    assert_eq!(m.title.as_str(), "English Title");
    assert_eq!(
        m.cover.as_deref(),
        Some("https://t.nhentai.net/galleries/990000/cover.png")
    );
    assert_eq!(m.url.as_deref(), Some("https://nhentai.net/g/40710"));
    // tags sorted by count descending; "webtoon" (9) before "glasses" (3)
    assert_eq!(
        m.tags,
        Some(vec!["webtoon".to_string(), "glasses".to_string()])
    );
    // authors are groups then artists
    assert_eq!(
        m.authors,
        Some(vec!["team a".to_string(), "alice".to_string()])
    );
    assert_eq!(m.artists, Some(vec!["alice".to_string()]));
    // "original" parody is dropped from the description
    let description = m.description.unwrap();
    assert_eq!(
        description.as_str(),
        "#40710  \nParodies: touhou project  \nCharacters: reimu  \nPages: 3  \nFavorited by: 12"
    );
    assert_eq!(m.viewer, Viewer::Webtoon);
    assert_eq!(m.status, MangaStatus::Completed);
    assert_eq!(m.content_rating, ContentRating::Nsfw);
    assert_eq!(m.update_strategy, UpdateStrategy::Never);
    assert!(m.chapters.is_none());
}

#[test]
fn tag_names_are_deduplicated() {
    // a gallery carrying the same tag name twice surfaces it once,
    // keeping the first occurrence after the popularity sort
    let d = english_dict();
    let g = gallery(
        9,
        vec![
            tag("glasses", "tag", 3),
            tag("webtoon", "tag", 5),
            tag("glasses", "tag", 1),
        ],
    );
    let m = manga_from_gallery(&g, "english", "english", TitlePreference::English, &d);
    assert_eq!(
        m.tags,
        Some(vec!["webtoon".to_string(), "glasses".to_string()])
    );
}

#[test]
fn viewer_defaults_to_right_to_left() {
    let d = english_dict();
    let g = gallery(1, vec![tag("glasses", "tag", 1)]);
    let m = manga_from_gallery(&g, "english", "english", TitlePreference::English, &d);
    assert_eq!(m.viewer, Viewer::RightToLeft);
}

#[test]
fn japanese_preference_falls_back_on_empty() {
    // an empty Japanese title falls back to the English title
    let title = NHentaiTitle {
        english: "English Title".to_string(),
        japanese: Some(String::new()),
        pretty: "Pretty".to_string(),
    };
    assert_eq!(
        choose_title(TitlePreference::Japanese, &title).as_str(),
        "English Title"
    );
    let present = NHentaiTitle {
        english: "English Title".to_string(),
        japanese: Some("\u{65e5}\u{672c}\u{8a9e}".to_string()),
        pretty: "Pretty".to_string(),
    };
    assert_eq!(
        choose_title(TitlePreference::Japanese, &present).as_str(),
        "\u{65e5}\u{672c}\u{8a9e}"
    );
    assert_eq!(
        choose_title(TitlePreference::English, &present).as_str(),
        "English Title"
    );
    let missing = NHentaiTitle {
        english: "English Title".to_string(),
        japanese: None,
        pretty: "Pretty".to_string(),
    };
    assert_eq!(
        choose_title(TitlePreference::Japanese, &missing).as_str(),
        "English Title"
    );
}

#[test]
fn page_extension_mapping() {
    // type code "g" maps to gif; unknown codes fall back to jpg
    assert_eq!(extension_from_type("g"), "gif");
    assert_eq!(extension_from_type("x"), "jpg");
    assert_eq!(extension_from_type("j"), "jpg");
    assert_eq!(extension_from_type("p"), "png");
    assert_eq!(extension_from_type("w"), "webp");
}

#[test]
fn page_list_urls() {
    let g = gallery(1, vec![]);
    let pages = page_list_from_gallery(&g);
    assert_eq!(pages.len(), 3);
    assert_eq!(
        pages[0].image_url.as_str(),
        "https://i.nhentai.net/galleries/990000/1.jpg"
    );
    assert_eq!(
        pages[1].image_url.as_str(),
        "https://i.nhentai.net/galleries/990000/2.gif"
    );
    assert_eq!(
        pages[2].image_url.as_str(),
        "https://i.nhentai.net/galleries/990000/3.jpg"
    );
}

#[test]
fn deep_link_resolution() {
    // a gallery URL resolves to its identifier
    match handle_deep_link("https://nhentai.net/g/177013/") {
        Some(DeepLinkResult::Manga { key }) => assert_eq!(key.as_str(), "177013"),
        None => panic!("expected a manga deep link"),
    }
    match handle_deep_link("https://nhentai.net/g/177013") {
        Some(DeepLinkResult::Manga { key }) => assert_eq!(key.as_str(), "177013"),
        None => panic!("expected a manga deep link"),
    }
    // other domains and other paths are not handled
    assert!(handle_deep_link("https://example.com/g/177013/").is_none());
    assert!(handle_deep_link("https://nhentai.net/about").is_none());
}

#[test]
fn chapter_language_summary() {
    let tags = vec![
        tag("english", "language", 1),
        tag("translated", "language", 2),
        tag("chinese", "language", 3),
        tag("rewrite", "language", 4),
        tag("glasses", "tag", 5),
    ];
    let languages = chapter_languages(&tags);
    assert_eq!(languages, vec!["english".to_string(), "chinese".to_string()]);
    let chapter = build_chapter("40710", 1700000000, &languages);
    assert_eq!(chapter.key.as_str(), "40710");
    assert_eq!(chapter.chapter_number, Some(1));
    assert_eq!(chapter.date_uploaded, Some(1700000000));
    assert_eq!(chapter.url.as_deref(), Some("https://nhentai.net/g/40710"));
    assert_eq!(chapter.scanlators, Some(vec!["english, chinese".to_string()]));
    let silent = build_chapter("40710", 0, &Vec::new());
    assert!(silent.scanlators.is_none());
}

#[test]
fn manga_update_attaches_chapter() {
    let d = english_dict();
    let g = gallery(40710, vec![tag("english", "language", 1)]);
    let base = manga_from_gallery(&g, "english", "english", TitlePreference::English, &d);
    let updated = update_manga(
        base.clone(),
        &g,
        false,
        true,
        "english",
        "english",
        TitlePreference::English,
        &d,
    );
    assert_eq!(updated.key, base.key);
    let chapters = updated.chapters.unwrap();
    assert_eq!(chapters.len(), 1);
    assert_eq!(chapters[0].key.as_str(), "40710");
    assert_eq!(chapters[0].scanlators, Some(vec!["english".to_string()]));
    let untouched = update_manga(
        base.clone(),
        &g,
        false,
        false,
        "english",
        "english",
        TitlePreference::English,
        &d,
    );
    assert_eq!(untouched.title, base.title);
    assert!(untouched.chapters.is_none());
}

fn sample_manga(key: &str) -> Manga {
    let d = english_dict();
    let g = gallery(key.parse().unwrap(), vec![]);
    manga_from_gallery(&g, "english", "english", TitlePreference::English, &d)
}

#[test]
fn skeleton_layout_has_four_sections() {
    let skeleton = home_skeleton();
    assert_eq!(skeleton.components.len(), 4);
    assert_eq!(skeleton.components[0].title.as_deref(), Some("Popular Today"));
    assert!(matches!(
        skeleton.components[0].value,
        HomeComponentValue::EmptyBigScroller
    ));
    assert_eq!(skeleton.components[3].title.as_deref(), Some("Latest"));
    assert!(matches!(skeleton.components[3].value, HomeComponentValue::EmptyScroller));
}

#[test]
fn home_omits_empty_popular_today() {
    // with Popular Today empty, exactly the other three sections remain,
    // in the fixed relative order
    let layout = assemble_home(
        Vec::new(),
        vec![sample_manga("1")],
        vec![sample_manga("2")],
        vec![sample_manga("3")],
        false,
    );
    assert_eq!(layout.components.len(), 3);
    assert_eq!(layout.components[0].title.as_deref(), Some("Popular This Week"));
    assert_eq!(layout.components[1].title.as_deref(), Some("Popular All Time"));
    assert_eq!(layout.components[2].title.as_deref(), Some("Latest"));
}

#[test]
fn home_full_layout() {
    let layout = assemble_home(
        vec![sample_manga("1")],
        vec![sample_manga("2")],
        vec![sample_manga("3")],
        vec![sample_manga("4")],
        true,
    );
    assert_eq!(layout.components.len(), 4);
    match &layout.components[1].value {
        HomeComponentValue::MangaList { ranking, page_size, entries, listing } => {
            assert!(*ranking);
            assert_eq!(*page_size, Some(3));
            assert_eq!(entries.len(), 1);
            let listing = listing.as_ref().unwrap();
            assert_eq!(listing.id.as_str(), "popular-week");
            assert_eq!(listing.kind, ListingKind::List);
        },
        _ => panic!("expected a ranked manga list"),
    }
}

#[test]
fn home_query_language_scope() {
    assert_eq!(home_query(None).as_str(), "%20");
    assert_eq!(
        home_query(Some("english".to_string())).as_str(),
        "language%3Aenglish"
    );
}

#[test]
fn dynamic_filter_shapes() {
    let d = english_dict();
    let favorites = vec!["glasses".to_string()];
    let all_tags = vec!["b tag".to_string(), "A tag".to_string()];
    let filters = get_dynamic_filters(&favorites, "english", true, all_tags.clone(), &d);
    assert_eq!(filters.len(), 5);
    match &filters[2] {
        Filter::Sort { id, can_ascend, options, .. } => {
            assert_eq!(id.as_str(), "sort");
            assert!(!*can_ascend);
            assert_eq!(
                options,
                &vec![
                    "Latest".to_string(),
                    "Popular Today".to_string(),
                    "Popular Week".to_string(),
                    "Popular All".to_string(),
                ]
            );
        },
        _ => panic!("expected the sort filter"),
    }
    match &filters[4] {
        Filter::MultiSelect { id, options, .. } => {
            assert_eq!(id.as_str(), "tags");
            assert_eq!(options, &vec!["A tag".to_string(), "b tag".to_string()]);
        },
        _ => panic!("expected the tags filter"),
    }
    let without_favs = get_dynamic_filters(&Vec::new(), "english", false, all_tags, &d);
    assert_eq!(without_favs.len(), 4);
    match &without_favs[3] {
        Filter::MultiSelect { id, options, .. } => {
            assert_eq!(id.as_str(), "tags");
            assert_eq!(options, &vec!["b tag".to_string(), "A tag".to_string()]);
        },
        _ => panic!("expected the tags filter"),
    }
}

#[test]
fn description_without_optional_parts() {
    // no parodies, no characters, and a zero favorite count leave only
    // the id and page count
    let d = english_dict();
    let mut g = gallery(1, vec![]);
    g.num_favorites = 0;
    let m = manga_from_gallery(&g, "english", "english", TitlePreference::English, &d);
    assert_eq!(m.description.as_deref(), Some("#1  \nPages: 3"));
    assert_eq!(m.tags, Some(Vec::new()));
    assert_eq!(m.authors, Some(Vec::new()));
}

#[test]
fn blocklist_is_reverse_translated() {
    // a localized blocklist entry matches the English tag it names
    let d = LocalizationDict {
        language: "chinese".to_string(),
        tags: vec![],
        artists: vec![],
        groups: vec![],
        parodies: vec![],
        characters: vec![],
        reverse_tags: vec![("\u{5de8}\u{4e73}".to_string(), "big breasts".to_string())],
    };
    let blocklist = normalize_blocklist(&vec!["\u{5de8}\u{4e73}".to_string()], "chinese", &d);
    assert_eq!(blocklist, vec!["big breasts".to_string()]);
    let g = gallery(1, vec![tag("Big Breasts", "tag", 4)]);
    assert!(gallery_blocked(&g, &blocklist));
}

#[test]
fn favorite_tags_filter_contributes_clauses() {
    let d = english_dict();
    let filters = vec![FilterValue::MultiSelect {
        id: "favorite_tags".to_string(),
        included: vec!["glasses".to_string()],
        excluded: Vec::new(),
    }];
    let r = build_search_request(None, &filters, None, "english", &d);
    match r {
        SearchRequest::Search { query, .. } => {
            assert_eq!(query, nhentai::uri::encode_uri_component("tag:\"glasses\""));
        },
        SearchRequest::Gallery { .. } => panic!("expected a search"),
    }
}

#[test]
fn gallery_id_forms() {
    let num = gallery(177013, vec![]);
    assert_eq!(num.id_str().as_str(), "177013");
    let mut text = gallery(1, vec![]);
    text.id = GalleryId::Text("abc".to_string());
    assert_eq!(text.id_str().as_str(), "abc");
}

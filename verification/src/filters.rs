//! The filter descriptors offered to the host: artist and group text
//! filters, the sort filter, the user's favorite tags, and the full tag
//! vocabulary, localized for display and optionally sorted
//! alphabetically.

use vstd::prelude::*;
use crate::dict::{spec_translate_tag, translate_tag, LocalizationDict};
use crate::models::Filter;
use crate::sort::{sort_ci, spec_sort_ci};
use crate::text::{str_eq, views_of};

verus! {

/// One tag name prepared for display in the given tag language.
pub open spec fn spec_display_tag(tag_lang: Seq<char>, dict: LocalizationDict) -> spec_fn(
    Seq<char>,
) -> Seq<char> {
    |t: Seq<char>| spec_translate_tag(t, tag_lang, dict)
}

/// Tag names prepared for display: translated unless the tag language is
/// English.
pub open spec fn spec_display_tags(
    tags: Seq<Seq<char>>,
    tag_lang: Seq<char>,
    dict: LocalizationDict,
) -> Seq<Seq<char>> {
    if tag_lang == "english"@ {
        tags
    } else {
        tags.map_values(spec_display_tag(tag_lang, dict))
    }
}

/// The options of the all-tags filter: the vocabulary localized for
/// display and, when the toggle asks for it, sorted alphabetically by
/// lowercase form.
pub open spec fn spec_all_tag_options(
    tags: Seq<Seq<char>>,
    tag_lang: Seq<char>,
    dict: LocalizationDict,
    sort_alphabetically: bool,
) -> Seq<Seq<char>> {
    let displayed = spec_display_tags(tags, tag_lang, dict);
    if sort_alphabetically {
        spec_sort_ci(displayed)
    } else {
        displayed
    }
}

/// Localize a list of tag names for display.
fn display_tags(tags: &Vec<String>, tag_lang: &str, dict: &LocalizationDict) -> (r: Vec<String>)
    ensures
        views_of(r@) == spec_display_tags(views_of(tags@), tag_lang@, *dict),
{
    if str_eq(tag_lang, "english") {
        let mut out: Vec<String> = Vec::new();
        let mut i: usize = 0;
        while i < tags.len()
            invariant
                i <= tags@.len(),
                out@.len() == i,
                forall|k: int| 0 <= k < i ==> (#[trigger] out@[k])@ == tags@[k]@,
            decreases tags@.len() - i,
        {
            out.push(tags[i].clone());
            i = i + 1;
        }
        proof {
            assert(views_of(out@) =~= views_of(tags@));
        }
        out
    } else {
        let mut out: Vec<String> = Vec::new();
        let mut i: usize = 0;
        while i < tags.len()
            invariant
                i <= tags@.len(),
                out@.len() == i,
                forall|k: int|
                    0 <= k < i ==> (#[trigger] out@[k])@ == spec_display_tag(tag_lang@, *dict)(
                        tags@[k]@,
                    ),
            decreases tags@.len() - i,
        {
            let translated = translate_tag(tags[i].as_str(), tag_lang, dict);
            out.push(translated);
            i = i + 1;
        }
        proof {
            assert(views_of(out@) =~= views_of(tags@).map_values(
                spec_display_tag(tag_lang@, *dict),
            ));
        }
        out
    }
}

/// Build the filter descriptors: the artist and group text filters, the
/// sort filter with its four fixed options, the favorite-tags
/// multi-select when the user has favorite tags, and the all-tags
/// multi-select, localized and optionally alphabetical.
pub fn get_dynamic_filters(
    favorite_tags: &Vec<String>,
    tag_lang: &str,
    sort_alphabetically: bool,
    all_tags: Vec<String>,
    dict: &LocalizationDict,
) -> (r: Vec<Filter>)
    ensures
        r@.len() == if favorite_tags@.len() > 0 {
            5int
        } else {
            4int
        },
        (r@[0] matches Filter::Text { id, title, placeholder } && id@ == "artist"@ && (
        title matches Some(t) && t@ == "Artist"@) && (placeholder matches Some(p) && p@
            == "Artist name"@)),
        (r@[1] matches Filter::Text { id, title, placeholder } && id@ == "groups"@ && (
        title matches Some(t) && t@ == "Group"@) && (placeholder matches Some(p) && p@
            == "Group name"@)),
        (r@[2] matches Filter::Sort { id, title, can_ascend, options } && id@ == "sort"@ && (
        title matches Some(t) && t@ == "Sort"@) && !can_ascend && views_of(options@) == seq![
            "Latest"@,
            "Popular Today"@,
            "Popular Week"@,
            "Popular All"@,
        ]),
        favorite_tags@.len() > 0 ==> (r@[3] matches Filter::MultiSelect {
            id,
            title,
            is_genre,
            can_exclude,
            uses_tag_style,
            options,
        } && id@ == "favorite_tags"@ && (title matches Some(t) && t@ == "Favorite Tags"@)
            && is_genre && can_exclude && uses_tag_style && views_of(options@) == spec_display_tags(
            views_of(favorite_tags@),
            tag_lang@,
            *dict,
        )),
        (r@[r@.len() - 1] matches Filter::MultiSelect {
            id,
            title,
            is_genre,
            can_exclude,
            uses_tag_style,
            options,
        } && id@ == "tags"@ && (title matches Some(t) && t@ == "Tags"@) && is_genre && can_exclude
            && uses_tag_style && views_of(options@) == spec_all_tag_options(
            views_of(all_tags@),
            tag_lang@,
            *dict,
            sort_alphabetically,
        )),
{
    let ghost all_tags_v = views_of(all_tags@);
    let mut filters: Vec<Filter> = Vec::new();
    filters.push(
        Filter::Text {
            id: String::from_str("artist"),
            title: Some(String::from_str("Artist")),
            placeholder: Some(String::from_str("Artist name")),
        },
    );
    filters.push(
        Filter::Text {
            id: String::from_str("groups"),
            title: Some(String::from_str("Group")),
            placeholder: Some(String::from_str("Group name")),
        },
    );
    let mut sort_options: Vec<String> = Vec::new();
    sort_options.push(String::from_str("Latest"));
    sort_options.push(String::from_str("Popular Today"));
    sort_options.push(String::from_str("Popular Week"));
    sort_options.push(String::from_str("Popular All"));
    proof {
        assert(views_of(sort_options@) =~= seq![
            "Latest"@,
            "Popular Today"@,
            "Popular Week"@,
            "Popular All"@,
        ]);
    }
    filters.push(
        Filter::Sort {
            id: String::from_str("sort"),
            title: Some(String::from_str("Sort")),
            can_ascend: false,
            options: sort_options,
        },
    );
    if favorite_tags.len() > 0 {
        let translated = display_tags(favorite_tags, tag_lang, dict);
        filters.push(
            Filter::MultiSelect {
                id: String::from_str("favorite_tags"),
                title: Some(String::from_str("Favorite Tags")),
                is_genre: true,
                can_exclude: true,
                uses_tag_style: true,
                options: translated,
            },
        );
    }
    let displayed = display_tags(&all_tags, tag_lang, dict);
    let tag_options = if sort_alphabetically {
        sort_ci(displayed)
    } else {
        displayed
    };
    filters.push(
        Filter::MultiSelect {
            id: String::from_str("tags"),
            title: Some(String::from_str("Tags")),
            is_genre: true,
            can_exclude: true,
            uses_tag_style: true,
            options: tag_options,
        },
    );
    filters
}

} // verus!

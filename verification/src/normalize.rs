//! Result normalization: mapping one raw gallery record to the canonical
//! manga entity, with popularity-ordered, localized tag categories and a
//! deduplicated tag-name list.

use vstd::prelude::*;
use crate::dict::{
    get_artist_map, get_character_map, get_group_map, get_parody_map, get_tag_map,
    opt_map_view, spec_translate_name, translate_name, LocalizationDict,
};
use crate::models::{
    ContentRating, Manga, MangaStatus, NHentaiGallery, NHentaiTag, NHentaiTitle,
    UpdateStrategy, Viewer, extension_from_type, spec_extension_for, spec_id_str,
};
use crate::settings::TitlePreference;
use crate::sort::{entry_views, lemma_views_sort, sort_by_count_desc, spec_sort_by_count_desc_v};
use crate::text::{dec_int_of, i64_to_string, join_all, spec_join, str_eq, views_of};

verus! {

/// The names of view entries, in order.
pub open spec fn names_of(s: Seq<(Seq<char>, int)>) -> Seq<Seq<char>> {
    s.map_values(|e: (Seq<char>, int)| e.0)
}

/// The first occurrence of each name, later repeats dropped.
pub open spec fn spec_dedup(s: Seq<Seq<char>>) -> Seq<Seq<char>>
    decreases s.len(),
{
    if s.len() == 0 {
        Seq::empty()
    } else {
        let rest = spec_dedup(s.drop_last());
        if s.drop_last().contains(s.last()) {
            rest
        } else {
            rest.push(s.last())
        }
    }
}

/// Deduplication laws: dropping repeats keeps exactly the names that
/// were there, and leaves no name standing twice.
pub proof fn lemma_dedup_props(s: Seq<Seq<char>>)
    ensures
        forall|x: Seq<char>| spec_dedup(s).contains(x) <==> s.contains(x),
        forall|i: int, j: int|
            0 <= i < j < spec_dedup(s).len() ==> spec_dedup(s)[i] != spec_dedup(s)[j],
    decreases s.len(),
{
    if s.len() > 0 {
        let t = s.drop_last();
        lemma_dedup_props(t);
        let r = spec_dedup(s);
        let rest = spec_dedup(t);
        assert forall|x: Seq<char>| s.contains(x) implies (t.contains(x) || x == s.last()) by {
            let k = choose|k: int| 0 <= k < s.len() && s[k] == x;
            if k < s.len() - 1 {
                assert(t[k] == x);
            }
        }
        assert forall|x: Seq<char>| t.contains(x) implies s.contains(x) by {
            let k = choose|k: int| 0 <= k < t.len() && t[k] == x;
            assert(s[k] == x);
        }
        assert(s.contains(s.last())) by {
            assert(s[s.len() - 1] == s.last());
        }
        if !t.contains(s.last()) {
            assert forall|x: Seq<char>| r.contains(x) implies s.contains(x) by {
                let k = choose|k: int| 0 <= k < r.len() && r[k] == x;
                if k < r.len() - 1 {
                    assert(rest[k] == x);
                } else {
                    assert(x == s.last());
                }
            }
            assert forall|x: Seq<char>| s.contains(x) implies r.contains(x) by {
                if t.contains(x) {
                    assert(rest.contains(x));
                    let k = choose|k: int| 0 <= k < rest.len() && rest[k] == x;
                    assert(r[k] == x);
                } else {
                    assert(r[r.len() - 1] == s.last());
                }
            }
            assert forall|i: int, j: int| 0 <= i < j < r.len() implies r[i] != r[j] by {
                if j < r.len() - 1 {
                    assert(rest[i] == r[i]);
                    assert(rest[j] == r[j]);
                } else {
                    assert(r[j] == s.last());
                    assert(rest[i] == r[i]);
                    assert(rest.contains(rest[i]));
                    assert(t.contains(rest[i]));
                }
            }
        }
    }
}

/// Parody names never surfaced as metadata.
pub open spec fn is_excluded_parody(name: Seq<char>) -> bool {
    name == "original"@ || name == "various"@
}

/// The (translated name, count) entries of the tags of one category, in
/// encounter order. With `skip_excluded`, the placeholder parody names
/// are left out.
pub open spec fn spec_bucket(
    tags: Seq<NHentaiTag>,
    kind: Seq<char>,
    map: Option<Seq<(String, String)>>,
    skip_excluded: bool,
) -> Seq<(Seq<char>, int)>
    decreases tags.len(),
{
    if tags.len() == 0 {
        Seq::empty()
    } else {
        let rest = spec_bucket(tags.drop_last(), kind, map, skip_excluded);
        let t = tags.last();
        if t.kind@ == kind && !(skip_excluded && is_excluded_parody(t.name@)) {
            rest.push((spec_translate_name(t.name@, map), t.count as int))
        } else {
            rest
        }
    }
}

/// The forward table for one category when `lang` is the dictionary's.
pub open spec fn spec_forward_map(
    table: Seq<(String, String)>,
    dict_lang: Seq<char>,
    lang: Seq<char>,
) -> Option<Seq<(String, String)>> {
    if lang == dict_lang {
        Some(table)
    } else {
        None
    }
}

/// The table for a metadata category: the metadata language wins, the
/// tag language is the fallback.
pub open spec fn spec_meta_map(
    table: Seq<(String, String)>,
    dict_lang: Seq<char>,
    metadata_lang: Seq<char>,
    tag_lang: Seq<char>,
) -> Option<Seq<(String, String)>> {
    if metadata_lang == dict_lang {
        Some(table)
    } else if tag_lang == dict_lang {
        Some(table)
    } else {
        None
    }
}

/// One category of a gallery: translated, then stable-sorted by count
/// descending, names only.
pub open spec fn spec_category_names(
    tags: Seq<NHentaiTag>,
    kind: Seq<char>,
    map: Option<Seq<(String, String)>>,
    skip_excluded: bool,
) -> Seq<Seq<char>> {
    names_of(spec_sort_by_count_desc_v(spec_bucket(tags, kind, map, skip_excluded)))
}

/// The general tag names of a gallery, localized for display and
/// deduplicated: the first occurrence of each name, in popularity order.
pub open spec fn spec_tag_names(
    g: NHentaiGallery,
    tag_lang: Seq<char>,
    dict: LocalizationDict,
) -> Seq<Seq<char>> {
    spec_dedup(
        spec_category_names(
            g.tags@,
            "tag"@,
            spec_forward_map(dict.tags@, dict.language@, tag_lang),
            false,
        ),
    )
}

/// The canonical tag list of a gallery never carries a name twice.
pub proof fn lemma_tag_names_distinct(
    g: NHentaiGallery,
    tag_lang: Seq<char>,
    dict: LocalizationDict,
)
    ensures
        forall|i: int, j: int|
            0 <= i < j < spec_tag_names(g, tag_lang, dict).len() ==> spec_tag_names(
                g,
                tag_lang,
                dict,
            )[i] != spec_tag_names(g, tag_lang, dict)[j],
{
    lemma_dedup_props(
        spec_category_names(
            g.tags@,
            "tag"@,
            spec_forward_map(dict.tags@, dict.language@, tag_lang),
            false,
        ),
    );
}

/// The artist names of a gallery, localized for display.
pub open spec fn spec_artist_names(
    g: NHentaiGallery,
    tag_lang: Seq<char>,
    metadata_lang: Seq<char>,
    dict: LocalizationDict,
) -> Seq<Seq<char>> {
    spec_category_names(
        g.tags@,
        "artist"@,
        spec_meta_map(dict.artists@, dict.language@, metadata_lang, tag_lang),
        false,
    )
}

/// The group names of a gallery, localized for display.
pub open spec fn spec_group_names(
    g: NHentaiGallery,
    tag_lang: Seq<char>,
    metadata_lang: Seq<char>,
    dict: LocalizationDict,
) -> Seq<Seq<char>> {
    spec_category_names(
        g.tags@,
        "group"@,
        spec_meta_map(dict.groups@, dict.language@, metadata_lang, tag_lang),
        false,
    )
}

/// The parody names of a gallery, placeholders excluded.
pub open spec fn spec_parody_names(
    g: NHentaiGallery,
    tag_lang: Seq<char>,
    metadata_lang: Seq<char>,
    dict: LocalizationDict,
) -> Seq<Seq<char>> {
    spec_category_names(
        g.tags@,
        "parody"@,
        spec_meta_map(dict.parodies@, dict.language@, metadata_lang, tag_lang),
        true,
    )
}

/// The character names of a gallery, localized for display.
pub open spec fn spec_character_names(
    g: NHentaiGallery,
    tag_lang: Seq<char>,
    metadata_lang: Seq<char>,
    dict: LocalizationDict,
) -> Seq<Seq<char>> {
    spec_category_names(
        g.tags@,
        "character"@,
        spec_meta_map(dict.characters@, dict.language@, metadata_lang, tag_lang),
        false,
    )
}

/// The displayed title: Japanese preference picks the Japanese variant
/// when it is present and non-empty, else the English one; English
/// preference always picks the English one.
pub open spec fn spec_chosen_title(pref: TitlePreference, title: NHentaiTitle) -> Seq<char> {
    match pref {
        TitlePreference::Japanese => match title.japanese {
            Some(j) => if j@.len() > 0 {
                j@
            } else {
                title.english@
            },
            None => title.english@,
        },
        TitlePreference::English => title.english@,
    }
}

/// Webtoon when the displayed tag list carries a literal `webtoon`,
/// right-to-left otherwise.
pub open spec fn spec_viewer_for(tag_names: Seq<Seq<char>>) -> Viewer {
    if tag_names.contains("webtoon"@) {
        Viewer::Webtoon
    } else {
        Viewer::RightToLeft
    }
}

/// The synthesized description: the gallery number, the parody and
/// character lists when non-empty, the page count, and the favorite
/// count when positive, newline-joined.
pub open spec fn spec_description(
    g: NHentaiGallery,
    parodies: Seq<Seq<char>>,
    characters: Seq<Seq<char>>,
) -> Seq<char> {
    let with_id = seq!["#"@ + spec_id_str(g.id)];
    let with_parodies = if parodies.len() > 0 {
        with_id.push("Parodies: "@ + spec_join(parodies, ", "@))
    } else {
        with_id
    };
    let with_characters = if characters.len() > 0 {
        with_parodies.push("Characters: "@ + spec_join(characters, ", "@))
    } else {
        with_parodies
    };
    let with_pages = with_characters.push("Pages: "@ + dec_int_of(g.num_pages as int));
    let all_parts = if g.num_favorites > 0 {
        with_pages.push("Favorited by: "@ + dec_int_of(g.num_favorites as int))
    } else {
        with_pages
    };
    spec_join(all_parts, "  \n"@)
}

proof fn lemma_kind_literals_distinct()
    ensures
        "tag"@ != "artist"@,
        "tag"@ != "group"@,
        "tag"@ != "parody"@,
        "tag"@ != "character"@,
        "artist"@ != "group"@,
        "artist"@ != "parody"@,
        "artist"@ != "character"@,
        "group"@ != "parody"@,
        "group"@ != "character"@,
        "parody"@ != "character"@,
{
    reveal_strlit("tag");
    reveal_strlit("artist");
    reveal_strlit("group");
    reveal_strlit("parody");
    reveal_strlit("character");
    assert("tag"@.len() == 3);
    assert("artist"@.len() == 6);
    assert("group"@.len() == 5);
    assert("parody"@.len() == 6);
    assert("character"@.len() == 9);
    assert("artist"@ != "parody"@) by {
        assert("artist"@[0] == 'a');
        assert("parody"@[0] == 'p');
    }
}

struct Buckets {
    tags: Vec<(String, i32)>,
    artists: Vec<(String, i32)>,
    groups: Vec<(String, i32)>,
    parodies: Vec<(String, i32)>,
    characters: Vec<(String, i32)>,
}

fn collect_buckets(
    tags: &Vec<NHentaiTag>,
    tag_map: Option<&Vec<(String, String)>>,
    artist_map: Option<&Vec<(String, String)>>,
    group_map: Option<&Vec<(String, String)>>,
    parody_map: Option<&Vec<(String, String)>>,
    character_map: Option<&Vec<(String, String)>>,
) -> (r: Buckets)
    ensures
        entry_views(r.tags@) == spec_bucket(tags@, "tag"@, opt_map_view(tag_map), false),
        entry_views(r.artists@) == spec_bucket(tags@, "artist"@, opt_map_view(artist_map), false),
        entry_views(r.groups@) == spec_bucket(tags@, "group"@, opt_map_view(group_map), false),
        entry_views(r.parodies@) == spec_bucket(tags@, "parody"@, opt_map_view(parody_map), true),
        entry_views(r.characters@) == spec_bucket(
            tags@,
            "character"@,
            opt_map_view(character_map),
            false,
        ),
{
    let mut b = Buckets {
        tags: Vec::new(),
        artists: Vec::new(),
        groups: Vec::new(),
        parodies: Vec::new(),
        characters: Vec::new(),
    };
    let mut i: usize = 0;
    while i < tags.len()
        invariant
            i <= tags@.len(),
            entry_views(b.tags@) == spec_bucket(
                tags@.subrange(0, i as int),
                "tag"@,
                opt_map_view(tag_map),
                false,
            ),
            entry_views(b.artists@) == spec_bucket(
                tags@.subrange(0, i as int),
                "artist"@,
                opt_map_view(artist_map),
                false,
            ),
            entry_views(b.groups@) == spec_bucket(
                tags@.subrange(0, i as int),
                "group"@,
                opt_map_view(group_map),
                false,
            ),
            entry_views(b.parodies@) == spec_bucket(
                tags@.subrange(0, i as int),
                "parody"@,
                opt_map_view(parody_map),
                true,
            ),
            entry_views(b.characters@) == spec_bucket(
                tags@.subrange(0, i as int),
                "character"@,
                opt_map_view(character_map),
                false,
            ),
        decreases tags@.len() - i,
    {
        let t = &tags[i];
        proof {
            lemma_kind_literals_distinct();
            let pre = tags@.subrange(0, i as int);
            let post = tags@.subrange(0, i + 1);
            assert(post.drop_last() =~= pre);
            assert(post.last() == tags@[i as int]);
        }
        if str_eq(t.kind.as_str(), "tag") {
            let name = translate_name(t.name.as_str(), tag_map);
            b.tags.push((name, t.count));
            proof {
                assert(entry_views(b.tags@) =~= spec_bucket(
                    tags@.subrange(0, i + 1),
                    "tag"@,
                    opt_map_view(tag_map),
                    false,
                ));
            }
        } else if str_eq(t.kind.as_str(), "artist") {
            let name = translate_name(t.name.as_str(), artist_map);
            b.artists.push((name, t.count));
            proof {
                assert(entry_views(b.artists@) =~= spec_bucket(
                    tags@.subrange(0, i + 1),
                    "artist"@,
                    opt_map_view(artist_map),
                    false,
                ));
            }
        } else if str_eq(t.kind.as_str(), "group") {
            let name = translate_name(t.name.as_str(), group_map);
            b.groups.push((name, t.count));
            proof {
                assert(entry_views(b.groups@) =~= spec_bucket(
                    tags@.subrange(0, i + 1),
                    "group"@,
                    opt_map_view(group_map),
                    false,
                ));
            }
        } else if str_eq(t.kind.as_str(), "parody") {
            if !str_eq(t.name.as_str(), "original") && !str_eq(t.name.as_str(), "various") {
                let name = translate_name(t.name.as_str(), parody_map);
                b.parodies.push((name, t.count));
            }
            proof {
                assert(entry_views(b.parodies@) =~= spec_bucket(
                    tags@.subrange(0, i + 1),
                    "parody"@,
                    opt_map_view(parody_map),
                    true,
                ));
            }
        } else if str_eq(t.kind.as_str(), "character") {
            let name = translate_name(t.name.as_str(), character_map);
            b.characters.push((name, t.count));
            proof {
                assert(entry_views(b.characters@) =~= spec_bucket(
                    tags@.subrange(0, i + 1),
                    "character"@,
                    opt_map_view(character_map),
                    false,
                ));
            }
        }
        i = i + 1;
    }
    proof {
        assert(tags@.subrange(0, tags@.len() as int) =~= tags@);
    }
    b
}

/// Sort one collected bucket and keep the names.
fn sorted_names(bucket: Vec<(String, i32)>) -> (r: Vec<String>)
    ensures
        views_of(r@) == names_of(spec_sort_by_count_desc_v(entry_views(bucket@))),
{
    proof {
        lemma_views_sort(bucket@);
    }
    let sorted = sort_by_count_desc(bucket);
    let mut out: Vec<String> = Vec::new();
    let mut i: usize = 0;
    while i < sorted.len()
        invariant
            i <= sorted@.len(),
            out@.len() == i,
            forall|k: int| 0 <= k < i ==> (#[trigger] out@[k])@ == sorted@[k].0@,
        decreases sorted@.len() - i,
    {
        out.push(sorted[i].0.clone());
        i = i + 1;
    }
    proof {
        assert(views_of(out@) =~= names_of(entry_views(sorted@)));
    }
    out
}

/// Drop repeated names, keeping each name's first occurrence.
fn dedup_names(names: Vec<String>) -> (r: Vec<String>)
    ensures
        views_of(r@) == spec_dedup(views_of(names@)),
{
    let mut out: Vec<String> = Vec::new();
    let mut i: usize = 0;
    while i < names.len()
        invariant
            i <= names@.len(),
            views_of(out@) == spec_dedup(views_of(names@.subrange(0, i as int))),
        decreases names@.len() - i,
    {
        let mut seen = false;
        let mut k: usize = 0;
        while k < i
            invariant
                k <= i,
                i < names@.len(),
                seen <==> (exists|m: int|
                    0 <= m < k && (#[trigger] names@[m])@ == names@[i as int]@),
            decreases i - k,
        {
            if str_eq(names[k].as_str(), names[i].as_str()) {
                seen = true;
            }
            k = k + 1;
        }
        proof {
            let pre = views_of(names@.subrange(0, i as int));
            let post = views_of(names@.subrange(0, i + 1));
            assert(post.drop_last() =~= pre);
            assert(post.last() == names@[i as int]@);
            if seen {
                let iv = names@[i as int]@;
                let m = choose|m: int| 0 <= m < i && (#[trigger] names@[m])@ == iv;
                assert(pre[m] == names@[i as int]@);
                assert(pre.contains(post.last()));
            } else {
                assert forall|m: int| 0 <= m < pre.len() implies pre[m] != post.last() by {
                    assert(pre[m] == names@[m]@);
                }
                assert(!pre.contains(post.last()));
            }
        }
        if !seen {
            out.push(names[i].clone());
            proof {
                assert(views_of(out@) =~= spec_dedup(views_of(names@.subrange(0, i + 1))));
            }
        } else {
            proof {
                assert(views_of(out@) =~= spec_dedup(views_of(names@.subrange(0, i + 1))));
            }
        }
        i = i + 1;
    }
    proof {
        assert(names@.subrange(0, names@.len() as int) =~= names@);
    }
    out
}

/// Whether any string in `v` equals `s`.
pub fn contains_str(v: &Vec<String>, s: &str) -> (r: bool)
    ensures
        r == views_of(v@).contains(s@),
{
    let mut i: usize = 0;
    while i < v.len()
        invariant
            i <= v@.len(),
            forall|k: int| 0 <= k < i ==> (#[trigger] v@[k])@ != s@,
        decreases v@.len() - i,
    {
        if str_eq(v[i].as_str(), s) {
            proof {
                assert(views_of(v@)[i as int] == s@);
            }
            return true;
        }
        i = i + 1;
    }
    proof {
        assert(forall|k: int| 0 <= k < views_of(v@).len() ==> views_of(v@)[k] != s@);
    }
    false
}

fn concat_string_vecs(a: &Vec<String>, b: &Vec<String>) -> (r: Vec<String>)
    ensures
        views_of(r@) == views_of(a@) + views_of(b@),
{
    let mut out: Vec<String> = Vec::new();
    let mut i: usize = 0;
    while i < a.len()
        invariant
            i <= a@.len(),
            out@.len() == i,
            forall|k: int| 0 <= k < i ==> (#[trigger] out@[k])@ == a@[k]@,
        decreases a@.len() - i,
    {
        out.push(a[i].clone());
        i = i + 1;
    }
    let mut j: usize = 0;
    while j < b.len()
        invariant
            j <= b@.len(),
            out@.len() == a@.len() + j,
            forall|k: int| 0 <= k < a@.len() ==> (#[trigger] out@[k])@ == a@[k]@,
            forall|k: int|
                a@.len() <= k < out@.len() ==> (#[trigger] out@[k])@ == b@[k - a@.len()]@,
        decreases b@.len() - j,
    {
        out.push(b[j].clone());
        j = j + 1;
    }
    proof {
        assert(views_of(out@) =~= views_of(a@) + views_of(b@));
    }
    out
}

/// Pick the displayed title of a gallery.
pub fn choose_title(pref: TitlePreference, title: &NHentaiTitle) -> (r: String)
    ensures
        r@ == spec_chosen_title(pref, *title),
{
    match pref {
        TitlePreference::Japanese => match &title.japanese {
            Some(j) => {
                if !j.as_str().is_empty() {
                    j.clone()
                } else {
                    title.english.clone()
                }
            },
            None => title.english.clone(),
        },
        TitlePreference::English => title.english.clone(),
    }
}

fn build_description(g: &NHentaiGallery, parodies: &Vec<String>, characters: &Vec<String>) -> (r:
    String)
    ensures
        r@ == spec_description(*g, views_of(parodies@), views_of(characters@)),
{
    let mut parts: Vec<String> = Vec::new();
    let mut id_part = String::from_str("#");
    let id = g.id_str();
    id_part.append(id.as_str());
    parts.push(id_part);
    if parodies.len() > 0 {
        let mut p = String::from_str("Parodies: ");
        let joined = join_all(parodies, ", ");
        p.append(joined.as_str());
        parts.push(p);
    }
    if characters.len() > 0 {
        let mut c = String::from_str("Characters: ");
        let joined = join_all(characters, ", ");
        c.append(joined.as_str());
        parts.push(c);
    }
    let mut pages = String::from_str("Pages: ");
    let pages_count = i64_to_string(g.num_pages as i64);
    pages.append(pages_count.as_str());
    parts.push(pages);
    if g.num_favorites > 0 {
        let mut favs = String::from_str("Favorited by: ");
        let favs_count = i64_to_string(g.num_favorites as i64);
        favs.append(favs_count.as_str());
        parts.push(favs);
    }
    proof {
        let with_id = seq!["#"@ + spec_id_str(g.id)];
        let with_parodies = if views_of(parodies@).len() > 0 {
            with_id.push("Parodies: "@ + spec_join(views_of(parodies@), ", "@))
        } else {
            with_id
        };
        let with_characters = if views_of(characters@).len() > 0 {
            with_parodies.push("Characters: "@ + spec_join(views_of(characters@), ", "@))
        } else {
            with_parodies
        };
        let with_pages = with_characters.push("Pages: "@ + dec_int_of(g.num_pages as int));
        let all_parts = if g.num_favorites > 0 {
            with_pages.push("Favorited by: "@ + dec_int_of(g.num_favorites as int))
        } else {
            with_pages
        };
        assert(views_of(parts@) =~= all_parts);
    }
    join_all(&parts, "  \n")
}

/// Every detail field of a canonical manga entry pinned from a raw
/// gallery record and the user settings; says nothing about chapters.
pub open spec fn spec_manga_core_matches(
    m: Manga,
    g: NHentaiGallery,
    tag_lang: Seq<char>,
    metadata_lang: Seq<char>,
    pref: TitlePreference,
    dict: LocalizationDict,
) -> bool {
    let tag_names = spec_tag_names(g, tag_lang, dict);
    let artist_names = spec_artist_names(g, tag_lang, metadata_lang, dict);
    let group_names = spec_group_names(g, tag_lang, metadata_lang, dict);
    let parody_names = spec_parody_names(g, tag_lang, metadata_lang, dict);
    let character_names = spec_character_names(g, tag_lang, metadata_lang, dict);
    &&& m.key@ == spec_id_str(g.id)
    &&& m.title@ == spec_chosen_title(pref, g.title)
    &&& (m.cover matches Some(c) && c@ == "https://t.nhentai.net/galleries/"@ + g.media_id@
        + "/cover."@ + spec_extension_for(g.images.cover.t@))
    &&& (m.description matches Some(d) && d@ == spec_description(g, parody_names, character_names))
    &&& (m.authors matches Some(a) && views_of(a@) == group_names + artist_names)
    &&& (m.artists matches Some(a) && views_of(a@) == artist_names)
    &&& (m.url matches Some(u) && u@ == "https://nhentai.net/g/"@ + spec_id_str(g.id))
    &&& (m.tags matches Some(t) && views_of(t@) == tag_names)
    &&& m.status == MangaStatus::Completed
    &&& m.content_rating == ContentRating::Nsfw
    &&& m.viewer == spec_viewer_for(tag_names)
    &&& m.update_strategy == UpdateStrategy::Never
}

/// A freshly normalized manga entry: every detail field pinned, and no
/// chapters attached yet.
pub open spec fn spec_manga_matches(
    m: Manga,
    g: NHentaiGallery,
    tag_lang: Seq<char>,
    metadata_lang: Seq<char>,
    pref: TitlePreference,
    dict: LocalizationDict,
) -> bool {
    &&& spec_manga_core_matches(m, g, tag_lang, metadata_lang, pref, dict)
    &&& m.chapters is None
}

/// Normalize one raw gallery record into a canonical manga entry.
pub fn manga_from_gallery(
    g: &NHentaiGallery,
    tag_lang: &str,
    metadata_lang: &str,
    pref: TitlePreference,
    dict: &LocalizationDict,
) -> (r: Manga)
    ensures
        spec_manga_matches(r, *g, tag_lang@, metadata_lang@, pref, *dict),
{
    let tag_map = get_tag_map(dict, tag_lang);
    let artist_map = match get_artist_map(dict, metadata_lang) {
        Some(m) => Some(m),
        None => get_artist_map(dict, tag_lang),
    };
    let group_map = match get_group_map(dict, metadata_lang) {
        Some(m) => Some(m),
        None => get_group_map(dict, tag_lang),
    };
    let parody_map = match get_parody_map(dict, metadata_lang) {
        Some(m) => Some(m),
        None => get_parody_map(dict, tag_lang),
    };
    let character_map = match get_character_map(dict, metadata_lang) {
        Some(m) => Some(m),
        None => get_character_map(dict, tag_lang),
    };
    let buckets = collect_buckets(&g.tags, tag_map, artist_map, group_map, parody_map,
        character_map);
    let tag_names = dedup_names(sorted_names(buckets.tags));
    let artist_names = sorted_names(buckets.artists);
    let group_names = sorted_names(buckets.groups);
    let parody_names = sorted_names(buckets.parodies);
    let character_names = sorted_names(buckets.characters);

    let key = g.id_str();
    let title = choose_title(pref, &g.title);
    let mut cover = String::from_str("https://t.nhentai.net/galleries/");
    cover.append(g.media_id.as_str());
    cover.append("/cover.");
    cover.append(extension_from_type(g.images.cover.t.as_str()));
    let description = build_description(g, &parody_names, &character_names);
    let mut url = String::from_str("https://nhentai.net/g/");
    url.append(key.as_str());
    let viewer = if contains_str(&tag_names, "webtoon") {
        Viewer::Webtoon
    } else {
        Viewer::RightToLeft
    };
    let authors = concat_string_vecs(&group_names, &artist_names);

    Manga {
        key,
        title,
        cover: Some(cover),
        description: Some(description),
        authors: Some(authors),
        artists: Some(artist_names),
        url: Some(url),
        tags: Some(tag_names),
        status: MangaStatus::Completed,
        content_rating: ContentRating::Nsfw,
        viewer,
        update_strategy: UpdateStrategy::Never,
        chapters: None,
    }
}

} // verus!

//! Blocklist filtering and search-result assembly.
//!
//! A gallery is dropped when any of its raw tag names, lowercased,
//! appears in the blocklist; the blocklist itself has already been
//! reverse-translated to English and lowercased. Pagination follows the
//! server-reported total page count.

use vstd::prelude::*;
use crate::casing::{lower_of, to_lowercase};
use crate::dict::{reverse_translate_tag, spec_reverse_translate, LocalizationDict};
use crate::models::{MangaPageResult, NHentaiGallery, NHentaiSearchResponse};
use crate::normalize::{contains_str, manga_from_gallery, spec_manga_matches};
use crate::settings::TitlePreference;
use crate::text::views_of;

verus! {

/// The blocklist converted to the remote API's English vocabulary and
/// lowercased, entry by entry.
pub open spec fn spec_normalized_blocklist(
    entries: Seq<Seq<char>>,
    lang: Seq<char>,
    dict: LocalizationDict,
) -> Seq<Seq<char>> {
    entries.map_values(|e: Seq<char>| lower_of(spec_reverse_translate(e, lang, dict)))
}

/// Convert blocklist entries to lowercase English for matching.
pub fn normalize_blocklist(blocklist: &Vec<String>, lang: &str, dict: &LocalizationDict) -> (r:
    Vec<String>)
    ensures
        views_of(r@) == spec_normalized_blocklist(views_of(blocklist@), lang@, *dict),
{
    let mut out: Vec<String> = Vec::new();
    let mut i: usize = 0;
    while i < blocklist.len()
        invariant
            i <= blocklist@.len(),
            out@.len() == i,
            forall|k: int|
                0 <= k < i ==> (#[trigger] out@[k])@ == lower_of(
                    spec_reverse_translate(blocklist@[k]@, lang@, *dict),
                ),
        decreases blocklist@.len() - i,
    {
        let english = reverse_translate_tag(blocklist[i].as_str(), lang, dict);
        let low = to_lowercase(english.as_str());
        out.push(low);
        i = i + 1;
    }
    proof {
        assert(views_of(out@) =~= spec_normalized_blocklist(views_of(blocklist@), lang@, *dict));
    }
    out
}

/// A gallery is blocked when some raw tag name, lowercased, is in the
/// blocklist.
pub open spec fn spec_gallery_blocked(g: NHentaiGallery, blocklist: Seq<Seq<char>>) -> bool {
    exists|i: int|
        0 <= i < g.tags@.len() && blocklist.contains(lower_of((#[trigger] g.tags@[i]).name@))
}

/// The galleries a blocklist admits.
pub open spec fn spec_admitted(blocklist: Seq<Seq<char>>) -> spec_fn(NHentaiGallery) -> bool {
    |g: NHentaiGallery| !spec_gallery_blocked(g, blocklist)
}

/// Whether a gallery carries a blocklisted tag.
pub fn gallery_blocked(g: &NHentaiGallery, blocklist: &Vec<String>) -> (r: bool)
    ensures
        r == spec_gallery_blocked(*g, views_of(blocklist@)),
{
    let mut i: usize = 0;
    while i < g.tags.len()
        invariant
            i <= g.tags@.len(),
            forall|k: int|
                0 <= k < i ==> !views_of(blocklist@).contains(
                    lower_of((#[trigger] g.tags@[k]).name@),
                ),
        decreases g.tags@.len() - i,
    {
        let low = to_lowercase(g.tags[i].name.as_str());
        if contains_str(blocklist, low.as_str()) {
            return true;
        }
        i = i + 1;
    }
    false
}

/// Keep the galleries the blocklist admits, in order.
pub fn filter_blocked(galleries: Vec<NHentaiGallery>, blocklist: &Vec<String>) -> (r: Vec<
    NHentaiGallery,
>)
    ensures
        r@ == galleries@.filter(spec_admitted(views_of(blocklist@))),
{
    let ghost orig = galleries@;
    let ghost pred = spec_admitted(views_of(blocklist@));
    let mut v = galleries;
    let mut out: Vec<NHentaiGallery> = Vec::new();
    proof {
        reveal(Seq::filter);
    }
    while v.len() > 0
        invariant
            v@.len() <= orig.len(),
            v@ == orig.subrange(orig.len() - v@.len(), orig.len() as int),
            pred == spec_admitted(views_of(blocklist@)),
            out@ == orig.subrange(0, orig.len() - v@.len()).filter(pred),
        decreases v@.len(),
    {
        let ghost n = orig.len() - v@.len();
        let g = v.remove(0);
        proof {
            assert(g == orig[n as int]);
            assert(v@ =~= orig.subrange(orig.len() - v@.len(), orig.len() as int));
        }
        let blocked = gallery_blocked(&g, blocklist);
        if !blocked {
            out.push(g);
        }
        proof {
            reveal(Seq::filter);
            let pre = orig.subrange(0, n as int);
            let post = orig.subrange(0, n + 1);
            assert(post.drop_last() =~= pre);
            assert(post.last() == orig[n as int]);
        }
    }
    proof {
        assert(orig.subrange(0, orig.len() as int) =~= orig);
    }
    out
}

/// An empty blocklist admits every gallery.
pub proof fn lemma_empty_blocklist_admits_all(gs: Seq<NHentaiGallery>, blocklist: Seq<Seq<char>>)
    requires
        blocklist.len() == 0,
    ensures
        gs.filter(spec_admitted(blocklist)) == gs,
    decreases gs.len(),
{
    reveal(Seq::filter);
    if gs.len() > 0 {
        lemma_empty_blocklist_admits_all(gs.drop_last(), blocklist);
        assert(!spec_gallery_blocked(gs.last(), blocklist));
        assert(gs.drop_last().push(gs.last()) =~= gs);
    }
}

/// A gallery carrying a blocklisted tag never appears in the filtered
/// results.
pub proof fn lemma_blocked_gallery_excluded(
    gs: Seq<NHentaiGallery>,
    blocklist: Seq<Seq<char>>,
    g: NHentaiGallery,
)
    requires
        spec_gallery_blocked(g, blocklist),
    ensures
        !gs.filter(spec_admitted(blocklist)).contains(g),
{
    let kept = gs.filter(spec_admitted(blocklist));
    if kept.contains(g) {
        let i = choose|i: int| 0 <= i < kept.len() && kept[i] == g;
        gs.lemma_filter_pred(spec_admitted(blocklist), i);
    }
}

/// A gallery without a blocklisted tag is kept by the filter.
pub proof fn lemma_unblocked_gallery_kept(
    gs: Seq<NHentaiGallery>,
    blocklist: Seq<Seq<char>>,
    i: int,
)
    requires
        0 <= i < gs.len(),
        !spec_gallery_blocked(gs[i], blocklist),
    ensures
        gs.filter(spec_admitted(blocklist)).contains(gs[i]),
{
    gs.lemma_filter_contains(spec_admitted(blocklist), i);
}

/// Build one page of search results: drop blocked galleries, normalize
/// the rest in order, and report whether more pages exist. There is a
/// next page exactly when the requested page index is below the
/// server-reported total page count.
pub fn search_results_from_response(
    response: NHentaiSearchResponse,
    page: i32,
    blocklist: &Vec<String>,
    tag_lang: &str,
    metadata_lang: &str,
    pref: TitlePreference,
    dict: &LocalizationDict,
) -> (r: MangaPageResult)
    ensures
        r.has_next_page == (page < response.num_pages),
        ({
            let kept = response.result@.filter(spec_admitted(views_of(blocklist@)));
            &&& r.entries@.len() == kept.len()
            &&& forall|i: int|
                0 <= i < kept.len() ==> spec_manga_matches(
                    #[trigger] r.entries@[i],
                    kept[i],
                    tag_lang@,
                    metadata_lang@,
                    pref,
                    *dict,
                )
        }),
{
    let has_next_page = page < response.num_pages;
    let kept = filter_blocked(response.result, blocklist);
    let mut entries: Vec<crate::models::Manga> = Vec::new();
    let mut i: usize = 0;
    while i < kept.len()
        invariant
            i <= kept@.len(),
            entries@.len() == i,
            forall|k: int|
                0 <= k < i ==> spec_manga_matches(
                    #[trigger] entries@[k],
                    kept@[k],
                    tag_lang@,
                    metadata_lang@,
                    pref,
                    *dict,
                ),
        decreases kept@.len() - i,
    {
        let manga = manga_from_gallery(&kept[i], tag_lang, metadata_lang, pref, dict);
        entries.push(manga);
        i = i + 1;
    }
    MangaPageResult { entries, has_next_page }
}

/// The single-result page for a direct gallery fetch by numeric id:
/// exactly one entry and never a next page.
pub fn single_gallery_result(
    g: &NHentaiGallery,
    tag_lang: &str,
    metadata_lang: &str,
    pref: TitlePreference,
    dict: &LocalizationDict,
) -> (r: MangaPageResult)
    ensures
        r.entries@.len() == 1,
        spec_manga_matches(r.entries@[0], *g, tag_lang@, metadata_lang@, pref, *dict),
        !r.has_next_page,
{
    let manga = manga_from_gallery(g, tag_lang, metadata_lang, pref, dict);
    let mut entries: Vec<crate::models::Manga> = Vec::new();
    entries.push(manga);
    MangaPageResult { entries, has_next_page: false }
}

} // verus!

//! The single chapter of a gallery, manga detail updates, and the page
//! list.
//!
//! Galleries are immutable single releases: each maps to exactly one
//! chapter, numbered 1, whose scanlator field carries the detected
//! spoken languages.

use vstd::prelude::*;
use crate::dict::LocalizationDict;
use crate::models::{
    Chapter, Manga, NHentaiGallery, NHentaiTag, Page, extension_from_type, spec_extension_for,
};
use crate::normalize::{manga_from_gallery, spec_manga_core_matches};
use crate::settings::TitlePreference;
use crate::text::{dec_of, join_all, spec_join, str_eq, u64_to_string, views_of};

verus! {

/// The spoken-language tag names of a gallery, in encounter order:
/// `language` tags except the markers `translated` and `rewrite`.
pub open spec fn spec_chapter_languages(tags: Seq<NHentaiTag>) -> Seq<Seq<char>>
    decreases tags.len(),
{
    if tags.len() == 0 {
        Seq::empty()
    } else {
        let rest = spec_chapter_languages(tags.drop_last());
        let t = tags.last();
        if t.kind@ == "language"@ && t.name@ != "translated"@ && t.name@ != "rewrite"@ {
            rest.push(t.name@)
        } else {
            rest
        }
    }
}

/// Collect the spoken-language names of a gallery's tags.
pub fn chapter_languages(tags: &Vec<NHentaiTag>) -> (r: Vec<String>)
    ensures
        views_of(r@) == spec_chapter_languages(tags@),
{
    let mut out: Vec<String> = Vec::new();
    let mut i: usize = 0;
    while i < tags.len()
        invariant
            i <= tags@.len(),
            views_of(out@) == spec_chapter_languages(tags@.subrange(0, i as int)),
        decreases tags@.len() - i,
    {
        let t = &tags[i];
        proof {
            let pre = tags@.subrange(0, i as int);
            let post = tags@.subrange(0, i + 1);
            assert(post.drop_last() =~= pre);
            assert(post.last() == tags@[i as int]);
        }
        if str_eq(t.kind.as_str(), "language") && !str_eq(t.name.as_str(), "translated") && !str_eq(
            t.name.as_str(),
            "rewrite",
        ) {
            out.push(t.name.clone());
            proof {
                assert(views_of(out@) =~= spec_chapter_languages(tags@.subrange(0, i + 1)));
            }
        }
        i = i + 1;
    }
    proof {
        assert(tags@.subrange(0, tags@.len() as int) =~= tags@);
    }
    out
}

/// All fields of the one chapter of a gallery pinned from its key,
/// upload timestamp and spoken languages.
pub open spec fn spec_chapter_matches(
    c: Chapter,
    key: Seq<char>,
    upload_date: i64,
    languages: Seq<Seq<char>>,
) -> bool {
    &&& c.key@ == key
    &&& c.chapter_number == Some(1u32)
    &&& c.date_uploaded == Some(upload_date)
    &&& (c.url matches Some(u) && u@ == "https://nhentai.net/g/"@ + key)
    &&& if languages.len() > 0 {
        c.scanlators matches Some(s) && s@.len() == 1 && s@[0]@ == spec_join(languages, ", "@)
    } else {
        c.scanlators is None
    }
}

/// Build the single chapter of a gallery.
pub fn build_chapter(key: &str, upload_date: i64, languages: &Vec<String>) -> (r: Chapter)
    ensures
        spec_chapter_matches(r, key@, upload_date, views_of(languages@)),
{
    let mut url = String::from_str("https://nhentai.net/g/");
    url.append(key);
    let scanlators = if languages.len() > 0 {
        let joined = join_all(languages, ", ");
        let mut s: Vec<String> = Vec::new();
        s.push(joined);
        Some(s)
    } else {
        None
    };
    Chapter {
        key: String::from_str(key),
        chapter_number: Some(1),
        date_uploaded: Some(upload_date),
        url: Some(url),
        scanlators,
    }
}

/// Refresh a manga entry from a freshly fetched gallery record: details
/// are renormalized when asked for, the single chapter is attached when
/// asked for, and whatever was not asked for is kept unchanged.
pub fn update_manga(
    manga: Manga,
    g: &NHentaiGallery,
    needs_details: bool,
    needs_chapters: bool,
    tag_lang: &str,
    metadata_lang: &str,
    pref: TitlePreference,
    dict: &LocalizationDict,
) -> (r: Manga)
    ensures
        needs_details ==> spec_manga_core_matches(r, *g, tag_lang@, metadata_lang@, pref, *dict),
        !needs_details ==> {
            &&& r.key == manga.key
            &&& r.title == manga.title
            &&& r.cover == manga.cover
            &&& r.description == manga.description
            &&& r.authors == manga.authors
            &&& r.artists == manga.artists
            &&& r.url == manga.url
            &&& r.tags == manga.tags
            &&& r.status == manga.status
            &&& r.content_rating == manga.content_rating
            &&& r.viewer == manga.viewer
            &&& r.update_strategy == manga.update_strategy
        },
        needs_chapters ==> (r.chapters matches Some(cs) && cs@.len() == 1
            && spec_chapter_matches(
            cs@[0],
            r.key@,
            g.upload_date,
            spec_chapter_languages(g.tags@),
        )),
        !needs_chapters ==> r.chapters == manga.chapters,
{
    let mut updated = if needs_details {
        let chapters = manga.chapters;
        let mut fresh = manga_from_gallery(g, tag_lang, metadata_lang, pref, dict);
        fresh.chapters = chapters;
        fresh
    } else {
        manga
    };
    if needs_chapters {
        let languages = chapter_languages(&g.tags);
        let chapter = build_chapter(updated.key.as_str(), g.upload_date, &languages);
        let mut cs: Vec<Chapter> = Vec::new();
        cs.push(chapter);
        updated.chapters = Some(cs);
    }
    updated
}

/// The direct image URL of one page: media id, 1-based page number, and
/// the extension for the page's type code.
pub open spec fn spec_page_url(media_id: Seq<char>, number: nat, t: Seq<char>) -> Seq<char> {
    "https://i.nhentai.net/galleries/"@ + media_id + "/"@ + dec_of(number) + "."@
        + spec_extension_for(t)
}

/// Build the page list of a gallery: one direct image URL per page
/// descriptor, numbered from 1.
pub fn page_list_from_gallery(g: &NHentaiGallery) -> (r: Vec<Page>)
    ensures
        r@.len() == g.images.pages@.len(),
        forall|i: int|
            0 <= i < r@.len() ==> (#[trigger] r@[i]).image_url@ == spec_page_url(
                g.media_id@,
                (i + 1) as nat,
                g.images.pages@[i].t@,
            ),
{
    let mut out: Vec<Page> = Vec::new();
    let mut i: usize = 0;
    let total = g.images.pages.len();
    while i < total
        invariant
            i <= total,
            total == g.images.pages@.len(),
            out@.len() == i,
            forall|k: int|
                0 <= k < i ==> (#[trigger] out@[k]).image_url@ == spec_page_url(
                    g.media_id@,
                    (k + 1) as nat,
                    g.images.pages@[k].t@,
                ),
        decreases total - i,
    {
        let mut url = String::from_str("https://i.nhentai.net/galleries/");
        url.append(g.media_id.as_str());
        url.append("/");
        let number = u64_to_string((i as u64) + 1);
        url.append(number.as_str());
        url.append(".");
        url.append(extension_from_type(g.images.pages[i].t.as_str()));
        out.push(Page { image_url: url });
        i = i + 1;
    }
    out
}

} // verus!

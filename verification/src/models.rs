//! Raw gallery records as the remote API reports them, and the canonical
//! data model handed to the host application.

use vstd::prelude::*;
use crate::text::{dec_int_of, str_eq, i64_to_string};

verus! {

/// A gallery identifier as it appears on the wire: the remote API sends
/// either a JSON number or a JSON string. It is resolved to a canonical
/// string once, by [`NHentaiGallery::id_str`].
#[derive(Debug, Clone)]
pub enum GalleryId {
    Num(i64),
    Text(String),
}

/// One tagged attribute of a gallery.
#[derive(Debug, Clone)]
pub struct NHentaiTag {
    pub id: i32,
    pub name: String,
    pub count: i32,
    /// Category: one of `tag`, `artist`, `group`, `parody`, `character`,
    /// `language`, or another value the API may add.
    pub kind: String,
    pub url: String,
}

/// One page-image descriptor: a one-letter type code and dimensions.
#[derive(Debug, Clone)]
pub struct NHentaiImage {
    pub t: String,
    pub w: i32,
    pub h: i32,
}

/// The image descriptors of a gallery.
#[derive(Debug, Clone)]
pub struct NHentaiImages {
    pub pages: Vec<NHentaiImage>,
    pub cover: NHentaiImage,
    pub thumbnail: NHentaiImage,
}

/// The title variants of a gallery.
#[derive(Debug, Clone)]
pub struct NHentaiTitle {
    pub english: String,
    pub japanese: Option<String>,
    pub pretty: String,
}

/// One raw gallery record.
#[derive(Debug, Clone)]
pub struct NHentaiGallery {
    pub id: GalleryId,
    pub media_id: String,
    pub title: NHentaiTitle,
    pub images: NHentaiImages,
    pub tags: Vec<NHentaiTag>,
    pub num_pages: i32,
    pub num_favorites: i32,
    pub upload_date: i64,
}

/// A search endpoint response: one page of results plus paging data.
#[derive(Debug, Clone)]
pub struct NHentaiSearchResponse {
    pub result: Vec<NHentaiGallery>,
    pub num_pages: i32,
    pub per_page: i32,
}

/// The canonical identifier string of a gallery id.
pub open spec fn spec_id_str(id: GalleryId) -> Seq<char> {
    match id {
        GalleryId::Num(n) => dec_int_of(n as int),
        GalleryId::Text(s) => s@,
    }
}

impl NHentaiGallery {
    /// The gallery identifier serialized uniformly to a string,
    /// whatever its wire form was.
    pub fn id_str(&self) -> (r: String)
        ensures
            r@ == spec_id_str(self.id),
    {
        match &self.id {
            GalleryId::Num(n) => i64_to_string(*n),
            GalleryId::Text(s) => s.clone(),
        }
    }
}

/// The filename extension for a page-image type code: `j`, `p`, `w` and
/// `g` map to their formats, anything else falls back to `jpg`.
pub open spec fn spec_extension_for(t: Seq<char>) -> Seq<char> {
    if t == "j"@ {
        "jpg"@
    } else if t == "p"@ {
        "png"@
    } else if t == "w"@ {
        "webp"@
    } else if t == "g"@ {
        "gif"@
    } else {
        "jpg"@
    }
}

/// Map a page-image type code to a filename extension.
pub fn extension_from_type(t: &str) -> (r: &'static str)
    ensures
        r@ == spec_extension_for(t@),
{
    if str_eq(t, "j") {
        "jpg"
    } else if str_eq(t, "p") {
        "png"
    } else if str_eq(t, "w") {
        "webp"
    } else if str_eq(t, "g") {
        "gif"
    } else {
        "jpg"
    }
}

/// Publication status of a canonical manga entry. Remote galleries are
/// immutable single releases, so this source always reports `Completed`.
#[derive(Debug, Clone, Copy, PartialEq, Eq, Structural)]
pub enum MangaStatus {
    Unknown,
    Ongoing,
    Completed,
    Cancelled,
    Hiatus,
}

/// Content rating of a canonical manga entry; always `Nsfw` here.
#[derive(Debug, Clone, Copy, PartialEq, Eq, Structural)]
pub enum ContentRating {
    Safe,
    Suggestive,
    Nsfw,
}

/// Reading direction of a canonical manga entry.
#[derive(Debug, Clone, Copy, PartialEq, Eq, Structural)]
pub enum Viewer {
    RightToLeft,
    LeftToRight,
    Vertical,
    Webtoon,
}

/// Whether the host should ever poll for new chapters; galleries do not
/// get new chapters, so this source always reports `Never`.
#[derive(Debug, Clone, Copy, PartialEq, Eq, Structural)]
pub enum UpdateStrategy {
    Always,
    Never,
}

/// One chapter of a canonical manga entry; galleries map to exactly one.
#[derive(Debug, Clone)]
pub struct Chapter {
    pub key: String,
    pub chapter_number: Option<u32>,
    pub date_uploaded: Option<i64>,
    pub url: Option<String>,
    pub scanlators: Option<Vec<String>>,
}

/// One page of a chapter: a direct image URL.
#[derive(Debug, Clone)]
pub struct Page {
    pub image_url: String,
}

/// A canonical manga entry, as handed to the host application.
#[derive(Debug, Clone)]
pub struct Manga {
    pub key: String,
    pub title: String,
    pub cover: Option<String>,
    pub description: Option<String>,
    pub authors: Option<Vec<String>>,
    pub artists: Option<Vec<String>>,
    pub url: Option<String>,
    pub tags: Option<Vec<String>>,
    pub status: MangaStatus,
    pub content_rating: ContentRating,
    pub viewer: Viewer,
    pub update_strategy: UpdateStrategy,
    pub chapters: Option<Vec<Chapter>>,
}

/// One page of search or listing results.
#[derive(Debug, Clone)]
pub struct MangaPageResult {
    pub entries: Vec<Manga>,
    pub has_next_page: bool,
}

/// How a listing is displayed.
#[derive(Debug, Clone, Copy, PartialEq, Eq, Structural)]
pub enum ListingKind {
    Default,
    List,
}

/// A named, paginated result set independent of ad hoc search.
#[derive(Debug, Clone)]
pub struct Listing {
    pub id: String,
    pub name: String,
    pub kind: ListingKind,
}

/// The body of one home-screen section. The `Empty` variants are the
/// skeleton placeholders emitted before any data arrives; `auto_scroll`
/// is the big scroller's advance interval in whole seconds.
#[derive(Debug, Clone)]
pub enum HomeComponentValue {
    EmptyBigScroller,
    EmptyMangaList,
    EmptyScroller,
    BigScroller { entries: Vec<Manga>, auto_scroll: Option<u32> },
    MangaList {
        ranking: bool,
        page_size: Option<i32>,
        entries: Vec<Manga>,
        listing: Option<Listing>,
    },
    Scroller { entries: Vec<Manga>, listing: Option<Listing> },
}

/// One titled home-screen section.
#[derive(Debug, Clone)]
pub struct HomeComponent {
    pub title: Option<String>,
    pub subtitle: Option<String>,
    pub value: HomeComponentValue,
}

/// The ordered home-screen layout.
#[derive(Debug, Clone)]
pub struct HomeLayout {
    pub components: Vec<HomeComponent>,
}

/// The outcome of resolving an external URL.
#[derive(Debug, Clone)]
pub enum DeepLinkResult {
    Manga { key: String },
}

/// A user-facing filter selection handed to the query builder.
#[derive(Debug, Clone)]
pub enum FilterValue {
    Text { id: String, value: String },
    Sort { id: String, index: i32, ascending: bool },
    MultiSelect {
        id: String,
        included: Vec<String>,
        excluded: Vec<String>,
    },
    Select { id: String, value: String },
}

/// A filter descriptor offered to the host for rendering.
#[derive(Debug, Clone)]
pub enum Filter {
    Text { id: String, title: Option<String>, placeholder: Option<String> },
    Sort {
        id: String,
        title: Option<String>,
        can_ascend: bool,
        options: Vec<String>,
    },
    MultiSelect {
        id: String,
        title: Option<String>,
        is_genre: bool,
        can_exclude: bool,
        uses_tag_style: bool,
        options: Vec<String>,
    },
}

/// The error surface of the library: transport failures and malformed
/// response bodies are reported by the caller performing the fetch;
/// `Unsupported` marks a listing id this source does not provide.
#[derive(Debug, Clone, Copy, PartialEq, Eq, Structural)]
pub enum SourceError {
    Transport,
    Decode,
    Unsupported,
}

} // verus!

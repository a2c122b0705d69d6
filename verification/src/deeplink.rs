//! Deep link resolution: an external URL either names a gallery on this
//! source's site or is not handled at all.

use vstd::prelude::*;
use vstd::string::StrSliceExecFns;
use crate::models::DeepLinkResult;
use crate::text::{find_char_from, find_first, is_prefix_of, matches_at, str_starts_with};

verus! {

/// The gallery key named by a URL, read off positions `i` (where the
/// gallery path marker `/g/` first occurs) and `e` (where the key ends:
/// the next slash, or the end of the URL).
pub open spec fn spec_deep_link_key(url: Seq<char>, key: Seq<char>, i: int, e: int) -> bool {
    &&& matches_at(url, "/g/"@, i)
    &&& forall|j: int| 0 <= j < i ==> !matches_at(url, "/g/"@, j)
    &&& i + 3 <= e <= url.len()
    &&& (e == url.len() || url[e] == '/')
    &&& forall|j: int| i + 3 <= j < e ==> url[j] != '/'
    &&& key == url.subrange(i + 3, e)
}

/// `key` is the gallery key of `url`: the segment after the first
/// gallery path marker, up to the next slash or the end.
pub open spec fn spec_deep_link_keyed(url: Seq<char>, key: Seq<char>) -> bool {
    exists|i: int, e: int| spec_deep_link_key(url, key, i, e)
}

/// What resolving a URL must return: no result for a URL outside the
/// site's base or without a gallery path, else the key after the first
/// gallery path marker.
pub open spec fn spec_deep_link_post(url: Seq<char>, r: Option<DeepLinkResult>) -> bool {
    match r {
        None => !is_prefix_of("https://nhentai.net"@, url) || (forall|j: int|
            !matches_at(url, "/g/"@, j)),
        Some(res) => {
            &&& is_prefix_of("https://nhentai.net"@, url)
            &&& match res {
                DeepLinkResult::Manga { key } => spec_deep_link_keyed(url, key@),
            }
        },
    }
}

/// Resolve an external URL: a URL outside the site's base, or one
/// without a gallery path, is not handled; otherwise the path segment
/// after the marker is the gallery key.
pub fn handle_deep_link(url: &str) -> (r: Option<DeepLinkResult>)
    ensures
        spec_deep_link_post(url@, r),
{
    if !str_starts_with(url, "https://nhentai.net") {
        return None;
    }
    match find_first(url, "/g/") {
        None => None,
        Some(i) => {
            let len = url.unicode_len();
            proof {
                reveal_strlit("/g/");
                assert("/g/"@.len() == 3);
            }
            let start = i + 3;
            let end = match find_char_from(url, '/', start) {
                Some(e) => e,
                None => len,
            };
            let key = url.substring_char(start, end).to_owned();
            proof {
                assert(spec_deep_link_keyed(url@, key@)) by {
                    assert(spec_deep_link_key(url@, key@, i as int, end as int));
                }
            }
            Some(DeepLinkResult::Manga { key })
        },
    }
}

} // verus!

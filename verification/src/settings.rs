//! Interpretation of raw user-configuration values.
//!
//! The host stores settings as loosely-typed values; reading them is the
//! host's business. Each function here takes the raw value of one key and
//! computes the setting the rest of the library consumes.

use vstd::prelude::*;
use crate::casing::{lower_of, to_lowercase, trim, trim_of};
use crate::text::{str_eq, views_of};

verus! {

/// Which language variant of a gallery title is surfaced.
#[derive(Debug, Clone, Copy, PartialEq, Eq, Structural)]
pub enum TitlePreference {
    English,
    Japanese,
}

/// The title preference named by a raw setting string: `japanese`
/// selects Japanese, anything else selects English.
pub open spec fn title_preference_of(s: Seq<char>) -> TitlePreference {
    if s == "japanese"@ {
        TitlePreference::Japanese
    } else {
        TitlePreference::English
    }
}

impl From<String> for TitlePreference {
    fn from(value: String) -> (r: Self) {
        if str_eq(value.as_str(), "japanese") {
            TitlePreference::Japanese
        } else {
            TitlePreference::English
        }
    }
}

impl vstd::std_specs::convert::FromSpecImpl<String> for TitlePreference {
    open spec fn obeys_from_spec() -> bool {
        true
    }

    open spec fn from_spec(t: String) -> Self {
        title_preference_of(t@)
    }
}

impl Default for TitlePreference {
    fn default() -> (r: Self)
        ensures
            r == TitlePreference::English,
    {
        TitlePreference::English
    }
}

/// The view of an optional string.
pub open spec fn opt_view(o: Option<String>) -> Option<Seq<char>> {
    match o {
        Some(s) => Some(s@),
        None => None,
    }
}

/// Interpret the raw title-preference setting; absent means English.
pub fn get_title_preference(raw: Option<String>) -> (r: TitlePreference)
    ensures
        r == match opt_view(raw) {
            Some(s) => title_preference_of(s),
            None => TitlePreference::English,
        },
{
    match raw {
        Some(s) => TitlePreference::from(s),
        None => TitlePreference::English,
    }
}

/// The full language name selected by a raw language code: only `en`,
/// `ja` and `zh` are recognized; any other value means no preference.
pub open spec fn spec_language(raw: Option<Seq<char>>) -> Option<Seq<char>> {
    match raw {
        Some(code) => if code == "en"@ {
            Some("english"@)
        } else if code == "ja"@ {
            Some("japanese"@)
        } else if code == "zh"@ {
            Some("chinese"@)
        } else {
            None
        },
        None => None,
    }
}

/// Interpret the raw language setting as a full language name.
pub fn get_language(raw: Option<String>) -> (r: Option<String>)
    ensures
        opt_view(r) == spec_language(opt_view(raw)),
{
    match raw {
        Some(code) => {
            if str_eq(code.as_str(), "en") {
                Some(String::from_str("english"))
            } else if str_eq(code.as_str(), "ja") {
                Some(String::from_str("japanese"))
            } else if str_eq(code.as_str(), "zh") {
                Some(String::from_str("chinese"))
            } else {
                None
            }
        },
        None => None,
    }
}

/// Interpret the raw metadata-language setting; absent means English.
pub fn get_metadata_language(raw: Option<String>) -> (r: String)
    ensures
        r@ == match opt_view(raw) {
            Some(s) => s,
            None => "english"@,
        },
{
    match raw {
        Some(s) => s,
        None => String::from_str("english"),
    }
}

/// Interpret the raw tag-language setting; absent means English.
pub fn get_tag_language(raw: Option<String>) -> (r: String)
    ensures
        r@ == match opt_view(raw) {
            Some(s) => s,
            None => "english"@,
        },
{
    match raw {
        Some(s) => s,
        None => String::from_str("english"),
    }
}

/// Each entry trimmed and lowercased, entries that end up empty dropped,
/// order kept.
pub open spec fn normalize_entries(s: Seq<Seq<char>>) -> Seq<Seq<char>>
    decreases s.len(),
{
    if s.len() == 0 {
        Seq::empty()
    } else {
        let rest = normalize_entries(s.drop_last());
        let e = lower_of(trim_of(s.last()));
        if e.len() == 0 {
            rest
        } else {
            rest.push(e)
        }
    }
}

/// Trim and lowercase every entry of a list, dropping entries that are
/// empty afterwards.
pub fn normalize_string_list(v: &Vec<String>) -> (r: Vec<String>)
    ensures
        views_of(r@) == normalize_entries(views_of(v@)),
{
    let mut out: Vec<String> = Vec::new();
    let mut i: usize = 0;
    while i < v.len()
        invariant
            i <= v@.len(),
            views_of(out@) == normalize_entries(views_of(v@.subrange(0, i as int))),
        decreases v@.len() - i,
    {
        let t = trim(v[i].as_str());
        let low = to_lowercase(t);
        proof {
            let pre = views_of(v@.subrange(0, i as int));
            let post = views_of(v@.subrange(0, i + 1));
            assert(post.drop_last() =~= pre);
            assert(post.last() == v@[i as int]@);
        }
        if !low.as_str().is_empty() {
            out.push(low);
            proof {
                assert(views_of(out@) =~= normalize_entries(
                    views_of(v@.subrange(0, i + 1)),
                ));
            }
        } else {
            proof {
                assert(views_of(out@) =~= normalize_entries(
                    views_of(v@.subrange(0, i + 1)),
                ));
            }
        }
        i = i + 1;
    }
    proof {
        assert(v@.subrange(0, v@.len() as int) =~= v@);
    }
    out
}

/// Interpret the raw blocklist setting: entries are case- and
/// whitespace-normalized, and blank entries are ignored.
pub fn get_blocklist(raw: Option<Vec<String>>) -> (r: Vec<String>)
    ensures
        views_of(r@) == match raw {
            Some(v) => normalize_entries(views_of(v@)),
            None => Seq::<Seq<char>>::empty(),
        },
{
    match raw {
        Some(v) => normalize_string_list(&v),
        None => Vec::new(),
    }
}

/// Interpret the raw favorite-tags setting, normalized like the blocklist.
pub fn get_favorite_tags(raw: Option<Vec<String>>) -> (r: Vec<String>)
    ensures
        views_of(r@) == match raw {
            Some(v) => normalize_entries(views_of(v@)),
            None => Seq::<Seq<char>>::empty(),
        },
{
    match raw {
        Some(v) => normalize_string_list(&v),
        None => Vec::new(),
    }
}

/// Interpret the raw list-viewer toggle; absent means off.
pub fn get_list_viewer(raw: Option<bool>) -> (r: bool)
    ensures
        r == (raw is Some && raw->0),
{
    match raw {
        Some(b) => b,
        None => false,
    }
}

/// Interpret the raw alphabetical-tag-sort toggle; absent means off.
pub fn get_sort_tags_alphabetically(raw: Option<bool>) -> (r: bool)
    ensures
        r == (raw is Some && raw->0),
{
    match raw {
        Some(b) => b,
        None => false,
    }
}

} // verus!

//! The bilingual localization dictionary and name translation.
//!
//! The static tables live outside the library; callers inject them as a
//! [`LocalizationDict`] for one display language. English names need no
//! translation, and lookups that miss fall back to the original name.

use vstd::prelude::*;
use crate::casing::{lower_of, to_lowercase};
use crate::text::str_eq;

verus! {

/// Bidirectional lookup tables between canonical English names and one
/// target display language. Forward tables are keyed by the lowercase
/// English name; the reverse table is keyed by the lowercase localized
/// tag name.
#[derive(Debug, Clone)]
pub struct LocalizationDict {
    /// Full name of the language the tables translate into.
    pub language: String,
    pub tags: Vec<(String, String)>,
    pub artists: Vec<(String, String)>,
    pub groups: Vec<(String, String)>,
    pub parodies: Vec<(String, String)>,
    pub characters: Vec<(String, String)>,
    /// Localized tag names back to canonical English, for search.
    pub reverse_tags: Vec<(String, String)>,
}

/// First-match lookup in an association list.
pub open spec fn spec_lookup(entries: Seq<(String, String)>, key: Seq<char>) -> Option<Seq<char>>
    decreases entries.len(),
{
    if entries.len() == 0 {
        None
    } else if entries[0].0@ == key {
        Some(entries[0].1@)
    } else {
        spec_lookup(entries.drop_first(), key)
    }
}

proof fn lemma_lookup_prefix_miss(entries: Seq<(String, String)>, key: Seq<char>, i: int)
    requires
        0 <= i <= entries.len(),
        forall|k: int| 0 <= k < i ==> (#[trigger] entries[k]).0@ != key,
    ensures
        spec_lookup(entries, key) == spec_lookup(entries.subrange(i, entries.len() as int), key),
    decreases i,
{
    if i > 0 {
        let t = entries.drop_first();
        assert(forall|k: int| 0 <= k < i - 1 ==> (#[trigger] t[k]).0@ != key) by {
            assert(forall|k: int| 0 <= k < t.len() ==> t[k] == entries[k + 1]);
        }
        lemma_lookup_prefix_miss(t, key, i - 1);
        assert(t.subrange(i - 1, t.len() as int) =~= entries.subrange(i, entries.len() as int));
    } else {
        assert(entries.subrange(0, entries.len() as int) =~= entries);
    }
}

/// Look a key up in an association list; the first matching entry wins.
pub fn lookup(entries: &Vec<(String, String)>, key: &str) -> (r: Option<String>)
    ensures
        match r {
            Some(v) => spec_lookup(entries@, key@) == Some(v@),
            None => spec_lookup(entries@, key@) is None,
        },
{
    let mut i: usize = 0;
    while i < entries.len()
        invariant
            i <= entries@.len(),
            forall|k: int| 0 <= k < i ==> (#[trigger] entries@[k]).0@ != key@,
        decreases entries@.len() - i,
    {
        if str_eq(entries[i].0.as_str(), key) {
            proof {
                lemma_lookup_prefix_miss(entries@, key@, i as int);
                let rest = entries@.subrange(i as int, entries@.len() as int);
                assert(rest[0] == entries@[i as int]);
            }
            return Some(entries[i].1.clone());
        }
        i = i + 1;
    }
    proof {
        lemma_lookup_prefix_miss(entries@, key@, entries@.len() as int);
        assert(entries@.subrange(entries@.len() as int, entries@.len() as int).len() == 0);
    }
    None
}

/// What translating `name` through an optional table yields: the entry
/// for the lowercased name, or the name itself when there is no table or
/// no entry.
pub open spec fn spec_translate_name(name: Seq<char>, map: Option<Seq<(String, String)>>) -> Seq<
    char,
> {
    match map {
        Some(m) => match spec_lookup(m, lower_of(name)) {
            Some(t) => t,
            None => name,
        },
        None => name,
    }
}

/// The view of an optional borrowed table.
pub open spec fn opt_map_view(map: Option<&Vec<(String, String)>>) -> Option<
    Seq<(String, String)>,
> {
    match map {
        Some(m) => Some(m@),
        None => None,
    }
}

/// Translate a name through an optional lookup table, keyed by the
/// lowercase form; a miss keeps the original name.
pub fn translate_name(name: &str, map: Option<&Vec<(String, String)>>) -> (r: String)
    ensures
        r@ == spec_translate_name(name@, opt_map_view(map)),
{
    match map {
        Some(m) => {
            let lower = to_lowercase(name);
            match lookup(m, lower.as_str()) {
                Some(t) => t,
                None => String::from_str(name),
            }
        },
        None => String::from_str(name),
    }
}

/// The forward tag table when `lang` is the dictionary's language.
pub fn get_tag_map<'a>(dict: &'a LocalizationDict, lang: &str) -> (r: Option<
    &'a Vec<(String, String)>,
>)
    ensures
        opt_map_view(r) == if lang@ == dict.language@ {
            Some(dict.tags@)
        } else {
            None::<Seq<(String, String)>>
        },
{
    if str_eq(lang, dict.language.as_str()) {
        Some(&dict.tags)
    } else {
        None
    }
}

/// The parody table when `lang` is the dictionary's language.
pub fn get_parody_map<'a>(dict: &'a LocalizationDict, lang: &str) -> (r: Option<
    &'a Vec<(String, String)>,
>)
    ensures
        opt_map_view(r) == if lang@ == dict.language@ {
            Some(dict.parodies@)
        } else {
            None::<Seq<(String, String)>>
        },
{
    if str_eq(lang, dict.language.as_str()) {
        Some(&dict.parodies)
    } else {
        None
    }
}

/// The character table when `lang` is the dictionary's language.
pub fn get_character_map<'a>(dict: &'a LocalizationDict, lang: &str) -> (r: Option<
    &'a Vec<(String, String)>,
>)
    ensures
        opt_map_view(r) == if lang@ == dict.language@ {
            Some(dict.characters@)
        } else {
            None::<Seq<(String, String)>>
        },
{
    if str_eq(lang, dict.language.as_str()) {
        Some(&dict.characters)
    } else {
        None
    }
}

/// The group table when `lang` is the dictionary's language.
pub fn get_group_map<'a>(dict: &'a LocalizationDict, lang: &str) -> (r: Option<
    &'a Vec<(String, String)>,
>)
    ensures
        opt_map_view(r) == if lang@ == dict.language@ {
            Some(dict.groups@)
        } else {
            None::<Seq<(String, String)>>
        },
{
    if str_eq(lang, dict.language.as_str()) {
        Some(&dict.groups)
    } else {
        None
    }
}

/// The artist table when `lang` is the dictionary's language.
pub fn get_artist_map<'a>(dict: &'a LocalizationDict, lang: &str) -> (r: Option<
    &'a Vec<(String, String)>,
>)
    ensures
        opt_map_view(r) == if lang@ == dict.language@ {
            Some(dict.artists@)
        } else {
            None::<Seq<(String, String)>>
        },
{
    if str_eq(lang, dict.language.as_str()) {
        Some(&dict.artists)
    } else {
        None
    }
}

/// What reverse-translating a localized tag to English yields: English
/// input is kept; in the dictionary's language the reverse table is
/// consulted with the lowercased query, a miss keeping the query; any
/// other language keeps the query.
pub open spec fn spec_reverse_translate(
    q: Seq<char>,
    lang: Seq<char>,
    dict: LocalizationDict,
) -> Seq<char> {
    if lang == "english"@ {
        q
    } else if lang == dict.language@ {
        match spec_lookup(dict.reverse_tags@, lower_of(q)) {
            Some(t) => t,
            None => q,
        }
    } else {
        q
    }
}

/// Reverse-translate a localized tag name to its canonical English form,
/// for use in search queries.
pub fn reverse_translate_tag(query: &str, lang: &str, dict: &LocalizationDict) -> (r: String)
    ensures
        r@ == spec_reverse_translate(query@, lang@, *dict),
{
    if str_eq(lang, "english") {
        return String::from_str(query);
    }
    if str_eq(lang, dict.language.as_str()) {
        let lower = to_lowercase(query);
        match lookup(&dict.reverse_tags, lower.as_str()) {
            Some(t) => t,
            None => String::from_str(query),
        }
    } else {
        String::from_str(query)
    }
}

/// What translating an English tag for display yields.
pub open spec fn spec_translate_tag(
    tag: Seq<char>,
    lang: Seq<char>,
    dict: LocalizationDict,
) -> Seq<char> {
    if lang == "english"@ {
        tag
    } else {
        spec_translate_name(
            tag,
            if lang == dict.language@ {
                Some(dict.tags@)
            } else {
                None
            },
        )
    }
}

/// Translate an English tag to its localized display form.
pub fn translate_tag(tag: &str, lang: &str, dict: &LocalizationDict) -> (r: String)
    ensures
        r@ == spec_translate_tag(tag@, lang@, *dict),
{
    if str_eq(lang, "english") {
        return String::from_str(tag);
    }
    let map = get_tag_map(dict, lang);
    translate_name(tag, map)
}

} // verus!

//! The query builder: translating a free-text query and typed filter
//! selections into the remote query grammar, plus the request URLs.

use vstd::prelude::*;
use crate::dict::{reverse_translate_tag, spec_reverse_translate, LocalizationDict};
use crate::models::{FilterValue, SourceError};
use crate::settings::opt_view;
use crate::text::{
    dec_int_of, i64_to_string, int_literal_val, is_int_literal, join_all, parse_i32, spec_join,
    str_eq, views_of,
};
use crate::uri::{encode_uri_component, spec_encode_uri_component};

verus! {

/// What one search turns into: either a direct gallery fetch by numeric
/// id, or a query-string search with a sort key.
pub enum SearchRequest {
    Gallery { id: i32 },
    Search { query: String, sort: String },
}

/// The sort key for a sort-filter index; unrecognized indices fall back
/// to `recent`.
pub open spec fn spec_sort_index_key(index: int) -> Seq<char> {
    if index == 1 {
        "popular-today"@
    } else if index == 2 {
        "popular-week"@
    } else if index == 3 {
        "popular"@
    } else {
        "recent"@
    }
}

/// The inclusion clause for one selected tag.
pub open spec fn spec_inc_clause(tag_lang: Seq<char>, dict: LocalizationDict) -> spec_fn(
    Seq<char>,
) -> Seq<char> {
    |t: Seq<char>| "tag:\""@ + spec_reverse_translate(t, tag_lang, dict) + "\""@
}

/// The exclusion clause for one excluded tag.
pub open spec fn spec_exc_clause(tag_lang: Seq<char>, dict: LocalizationDict) -> spec_fn(
    Seq<char>,
) -> Seq<char> {
    |t: Seq<char>| "-tag:\""@ + spec_reverse_translate(t, tag_lang, dict) + "\""@
}

/// The query clauses one filter selection contributes, in order.
pub open spec fn spec_filter_clauses(
    f: FilterValue,
    tag_lang: Seq<char>,
    dict: LocalizationDict,
) -> Seq<Seq<char>> {
    match f {
        FilterValue::Text { id, value } => {
            if id@ == "author"@ {
                seq![value@]
            } else if id@ == "artist"@ {
                seq!["artist:"@ + value@]
            } else if id@ == "groups"@ {
                seq!["group:"@ + value@]
            } else {
                Seq::empty()
            }
        },
        FilterValue::Sort { .. } => Seq::empty(),
        FilterValue::MultiSelect { id, included, excluded } => {
            if id@ == "tags"@ || id@ == "favorite_tags"@ {
                views_of(included@).map_values(spec_inc_clause(tag_lang, dict)) + views_of(
                    excluded@,
                ).map_values(spec_exc_clause(tag_lang, dict))
            } else {
                Seq::empty()
            }
        },
        FilterValue::Select { id, value } => {
            if id@ == "genre"@ {
                seq!["tag:\""@ + spec_reverse_translate(value@, tag_lang, dict) + "\""@]
            } else {
                Seq::empty()
            }
        },
    }
}

/// The clauses of all filters, in encounter order.
pub open spec fn spec_filters_clauses(
    filters: Seq<FilterValue>,
    tag_lang: Seq<char>,
    dict: LocalizationDict,
) -> Seq<Seq<char>>
    decreases filters.len(),
{
    if filters.len() == 0 {
        Seq::empty()
    } else {
        spec_filters_clauses(filters.drop_last(), tag_lang, dict) + spec_filter_clauses(
            filters.last(),
            tag_lang,
            dict,
        )
    }
}

/// The sort key selected by the filters: the last sort filter wins, and
/// without one the key is `recent`.
pub open spec fn spec_sort_key(filters: Seq<FilterValue>) -> Seq<char>
    decreases filters.len(),
{
    if filters.len() == 0 {
        "recent"@
    } else {
        match filters.last() {
            FilterValue::Sort { index, .. } => spec_sort_index_key(index as int),
            _ => spec_sort_key(filters.drop_last()),
        }
    }
}

/// All query clauses: the free text first, then the filters' clauses in
/// order, then the language scope.
pub open spec fn spec_clauses(
    query: Option<Seq<char>>,
    filters: Seq<FilterValue>,
    language: Option<Seq<char>>,
    tag_lang: Seq<char>,
    dict: LocalizationDict,
) -> Seq<Seq<char>> {
    let q = match query {
        Some(s) => seq![s],
        None => Seq::empty(),
    };
    let l = match language {
        Some(s) => seq!["language:"@ + s],
        None => Seq::empty(),
    };
    q + spec_filters_clauses(filters, tag_lang, dict) + l
}

/// The combined query string before encoding: clauses joined by single
/// spaces, or a single space when there is no clause at all.
pub open spec fn spec_combined_query(
    query: Option<Seq<char>>,
    filters: Seq<FilterValue>,
    language: Option<Seq<char>>,
    tag_lang: Seq<char>,
    dict: LocalizationDict,
) -> Seq<char> {
    let clauses = spec_clauses(query, filters, language, tag_lang, dict);
    if clauses.len() == 0 {
        " "@
    } else {
        spec_join(clauses, " "@)
    }
}

/// The free text parses entirely as an `i32`.
pub open spec fn spec_is_id_query(query: Option<Seq<char>>) -> bool {
    query matches Some(q) && is_int_literal(q) && i32::MIN <= int_literal_val(q) <= i32::MAX
}

fn sort_key_for_index(index: i32) -> (r: String)
    ensures
        r@ == spec_sort_index_key(index as int),
{
    if index == 1 {
        String::from_str("popular-today")
    } else if index == 2 {
        String::from_str("popular-week")
    } else if index == 3 {
        String::from_str("popular")
    } else {
        String::from_str("recent")
    }
}

fn tag_clause(tag: &str, negated: bool, tag_lang: &str, dict: &LocalizationDict) -> (r: String)
    ensures
        !negated ==> r@ == "tag:\""@ + spec_reverse_translate(tag@, tag_lang@, *dict) + "\""@,
        negated ==> r@ == "-tag:\""@ + spec_reverse_translate(tag@, tag_lang@, *dict) + "\""@,
{
    let english = reverse_translate_tag(tag, tag_lang, dict);
    let mut clause = if negated {
        String::from_str("-tag:\"")
    } else {
        String::from_str("tag:\"")
    };
    clause.append(english.as_str());
    clause.append("\"");
    clause
}

/// Build the search request for a free-text query, filter selections and
/// language preference. A query that is entirely a numeric id
/// short-circuits to a direct gallery fetch; everything else becomes an
/// encoded query string and a sort key.
pub fn build_search_request(
    query: Option<String>,
    filters: &Vec<FilterValue>,
    language: Option<String>,
    tag_lang: &str,
    dict: &LocalizationDict,
) -> (r: SearchRequest)
    ensures
        r is Gallery <==> spec_is_id_query(opt_view(query)),
        r matches SearchRequest::Gallery { id } ==> id == int_literal_val(opt_view(query)->0),
        r matches SearchRequest::Search { query: q, sort } ==> {
            &&& q@ == spec_encode_uri_component(
                spec_combined_query(
                    opt_view(query),
                    filters@,
                    opt_view(language),
                    tag_lang@,
                    *dict,
                ),
            )
            &&& sort@ == spec_sort_key(filters@)
        },
{
    if let Some(q) = &query {
        if let Some(id) = parse_i32(q.as_str()) {
            return SearchRequest::Gallery { id };
        }
    }
    let ghost qv = opt_view(query);
    let mut clauses: Vec<String> = Vec::new();
    if let Some(q) = query {
        clauses.push(q);
    }
    let ghost base = match qv {
        Some(s) => seq![s],
        None => Seq::<Seq<char>>::empty(),
    };
    proof {
        assert(views_of(clauses@) =~= base);
    }
    let mut sort = String::from_str("recent");
    let mut i: usize = 0;
    while i < filters.len()
        invariant
            i <= filters@.len(),
            views_of(clauses@) == base + spec_filters_clauses(
                filters@.subrange(0, i as int),
                tag_lang@,
                *dict,
            ),
            sort@ == spec_sort_key(filters@.subrange(0, i as int)),
        decreases filters@.len() - i,
    {
        proof {
            let pre = filters@.subrange(0, i as int);
            let post = filters@.subrange(0, i + 1);
            assert(post.drop_last() =~= pre);
            assert(post.last() == filters@[i as int]);
        }
        let ghost clauses_before = views_of(clauses@);
        let ghost step = spec_filter_clauses(filters@[i as int], tag_lang@, *dict);
        match &filters[i] {
            FilterValue::Text { id, value } => {
                if str_eq(id.as_str(), "author") {
                    clauses.push(value.clone());
                } else if str_eq(id.as_str(), "artist") {
                    let mut c = String::from_str("artist:");
                    c.append(value.as_str());
                    clauses.push(c);
                } else if str_eq(id.as_str(), "groups") {
                    let mut c = String::from_str("group:");
                    c.append(value.as_str());
                    clauses.push(c);
                }
                proof {
                    assert(views_of(clauses@) =~= clauses_before + step);
                }
            },
            FilterValue::Sort { index, .. } => {
                sort = sort_key_for_index(*index);
                proof {
                    assert(views_of(clauses@) =~= clauses_before + step);
                }
            },
            FilterValue::MultiSelect { id, included, excluded } => {
                if str_eq(id.as_str(), "tags") || str_eq(id.as_str(), "favorite_tags") {
                    let ghost inc_clauses = views_of(included@).map_values(
                        spec_inc_clause(tag_lang@, *dict),
                    );
                    let ghost exc_clauses = views_of(excluded@).map_values(
                        spec_exc_clause(tag_lang@, *dict),
                    );
                    proof {
                        assert(clauses_before + inc_clauses.subrange(0, 0) =~= clauses_before);
                    }
                    let mut k: usize = 0;
                    while k < included.len()
                        invariant
                            k <= included@.len(),
                            inc_clauses == views_of(included@).map_values(
                                spec_inc_clause(tag_lang@, *dict),
                            ),
                            views_of(clauses@) == clauses_before + inc_clauses.subrange(
                                0,
                                k as int,
                            ),
                        decreases included@.len() - k,
                    {
                        let c = tag_clause(included[k].as_str(), false, tag_lang, dict);
                        let ghost cv = c@;
                        let ghost pre_push = clauses@;
                        clauses.push(c);
                        proof {
                            assert(cv == inc_clauses[k as int]);
                            assert(views_of(clauses@) =~= views_of(pre_push).push(cv));
                            assert(views_of(pre_push).push(cv) =~= clauses_before
                                + inc_clauses.subrange(0, k + 1));
                        }
                        k = k + 1;
                    }
                    proof {
                        assert(inc_clauses.subrange(0, inc_clauses.len() as int) =~= inc_clauses);
                        assert(clauses_before + inc_clauses + exc_clauses.subrange(0, 0)
                            =~= clauses_before + inc_clauses);
                    }
                    let mut k2: usize = 0;
                    while k2 < excluded.len()
                        invariant
                            k2 <= excluded@.len(),
                            exc_clauses == views_of(excluded@).map_values(
                                spec_exc_clause(tag_lang@, *dict),
                            ),
                            views_of(clauses@) == clauses_before + inc_clauses
                                + exc_clauses.subrange(0, k2 as int),
                        decreases excluded@.len() - k2,
                    {
                        let c = tag_clause(excluded[k2].as_str(), true, tag_lang, dict);
                        let ghost cv = c@;
                        let ghost pre_push = clauses@;
                        clauses.push(c);
                        proof {
                            assert(cv == exc_clauses[k2 as int]);
                            assert(views_of(clauses@) =~= views_of(pre_push).push(cv));
                            assert(views_of(pre_push).push(cv) =~= clauses_before + inc_clauses
                                + exc_clauses.subrange(0, k2 + 1));
                        }
                        k2 = k2 + 1;
                    }
                    proof {
                        assert(exc_clauses.subrange(0, exc_clauses.len() as int) =~= exc_clauses);
                        assert(views_of(clauses@) =~= clauses_before + step);
                    }
                } else {
                    proof {
                        assert(views_of(clauses@) =~= clauses_before + step);
                    }
                }
            },
            FilterValue::Select { id, value } => {
                if str_eq(id.as_str(), "genre") {
                    let c = tag_clause(value.as_str(), false, tag_lang, dict);
                    clauses.push(c);
                }
                proof {
                    assert(views_of(clauses@) =~= clauses_before + step);
                }
            },
        }
        i = i + 1;
    }
    proof {
        assert(filters@.subrange(0, filters@.len() as int) =~= filters@);
    }
    let ghost lv = opt_view(language);
    if let Some(l) = language {
        let mut c = String::from_str("language:");
        c.append(l.as_str());
        clauses.push(c);
    }
    proof {
        assert(views_of(clauses@) =~= spec_clauses(qv, filters@, lv, tag_lang@, *dict));
    }
    let combined = if clauses.len() == 0 {
        String::from_str(" ")
    } else {
        join_all(&clauses, " ")
    };
    let encoded = encode_uri_component(combined.as_str());
    SearchRequest::Search { query: encoded, sort }
}

/// The search endpoint URL for an encoded query, page index and sort key.
pub fn search_url(query_encoded: &str, page: i32, sort: &str) -> (r: String)
    ensures
        r@ == "https://nhentai.net/api/galleries/search?query="@ + query_encoded@ + "&page="@
            + dec_int_of(page as int) + "&sort="@ + sort@,
{
    let mut url = String::from_str("https://nhentai.net/api/galleries/search?query=");
    url.append(query_encoded);
    url.append("&page=");
    let p = i64_to_string(page as i64);
    url.append(p.as_str());
    url.append("&sort=");
    url.append(sort);
    url
}

/// The detail endpoint URL for one gallery key.
pub fn gallery_url(key: &str) -> (r: String)
    ensures
        r@ == "https://nhentai.net/api/gallery/"@ + key@,
{
    let mut url = String::from_str("https://nhentai.net/api/gallery/");
    url.append(key);
    url
}

/// The sort index behind a named listing, or `Unsupported` for a listing
/// id this source does not provide.
pub open spec fn spec_listing_sort_index(id: Seq<char>) -> Result<i32, SourceError> {
    if id == "popular-today"@ {
        Ok(1)
    } else if id == "popular-week"@ {
        Ok(2)
    } else if id == "popular"@ {
        Ok(3)
    } else if id == "latest"@ {
        Ok(0)
    } else {
        Err(SourceError::Unsupported)
    }
}

/// Map a listing id to the sort-filter index its search uses.
pub fn listing_sort_index(listing_id: &str) -> (r: Result<i32, SourceError>)
    ensures
        r == spec_listing_sort_index(listing_id@),
{
    if str_eq(listing_id, "popular-today") {
        Ok(1)
    } else if str_eq(listing_id, "popular-week") {
        Ok(2)
    } else if str_eq(listing_id, "popular") {
        Ok(3)
    } else if str_eq(listing_id, "latest") {
        Ok(0)
    } else {
        Err(SourceError::Unsupported)
    }
}

} // verus!

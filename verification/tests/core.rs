use nhentai::dict::{lookup, reverse_translate_tag, translate_name, translate_tag, LocalizationDict};
use nhentai::settings::{
    get_blocklist, get_language, get_list_viewer, get_metadata_language,
    get_sort_tags_alphabetically, get_tag_language, get_title_preference, normalize_string_list,
    TitlePreference,
};
use nhentai::sort::{sort_by_count_desc, sort_ci};
use nhentai::text::{i64_to_string, join_all, parse_i32, str_eq, str_lex_le, u64_to_string};
use nhentai::uri::encode_uri_component;

fn cn_dict() -> LocalizationDict {
    LocalizationDict {
        language: "chinese".to_string(),
        tags: vec![("big breasts".to_string(), "\u{5de8}\u{4e73}".to_string())],
        artists: vec![("shindol".to_string(), "\u{65b0}\u{5802}".to_string())],
        groups: vec![],
        parodies: vec![("touhou project".to_string(), "\u{4e1c}\u{65b9}".to_string())],
        characters: vec![],
        reverse_tags: vec![("\u{5de8}\u{4e73}".to_string(), "big breasts".to_string())],
    }
}

#[test]
fn decimal_formatting() {
    assert_eq!(u64_to_string(0).as_str(), "0");
    assert_eq!(u64_to_string(40710).as_str(), "40710");
    assert_eq!(i64_to_string(-5).as_str(), "-5");
    assert_eq!(i64_to_string(i64::MIN).as_str(), "-9223372036854775808");
}

#[test]
fn integer_parsing() {
    assert_eq!(parse_i32("12345"), Some(12345));
    assert_eq!(parse_i32("+12"), Some(12));
    assert_eq!(parse_i32("-2147483648"), Some(i32::MIN));
    assert_eq!(parse_i32("2147483648"), None);
    assert_eq!(parse_i32("12a"), None);
    assert_eq!(parse_i32(""), None);
    assert_eq!(parse_i32("-"), None);
    assert_eq!(parse_i32(" 5"), None);
}

#[test]
fn string_utilities() {
    assert!(str_eq("abc", "abc"));
    assert!(!str_eq("abc", "abd"));
    assert!(str_lex_le("apple", "banana"));
    assert!(str_lex_le("app", "apple"));
    assert!(!str_lex_le("banana", "apple"));
    let parts = vec!["a".to_string(), "b".to_string(), "c".to_string()];
    assert_eq!(join_all(&parts, ", ").as_str(), "a, b, c");
    assert_eq!(join_all(&Vec::new(), ", ").as_str(), "");
}

#[test]
fn percent_encoding_space() {
    // the single-space query encodes to %20
    assert_eq!(encode_uri_component(" ").as_str(), "%20");
}

#[test]
fn percent_encoding_mixed() {
    assert_eq!(encode_uri_component("a b&c").as_str(), "a%20b%26c");
    assert_eq!(encode_uri_component("AZaz09-_.!~*'()").as_str(), "AZaz09-_.!~*'()");
    assert_eq!(encode_uri_component("tag:\"x\"").as_str(), "tag%3A%22x%22");
}

#[test]
fn title_preference_parsing() {
    assert_eq!(TitlePreference::from("japanese".to_string()), TitlePreference::Japanese);
    assert_eq!(TitlePreference::from("english".to_string()), TitlePreference::English);
    assert_eq!(TitlePreference::from("other".to_string()), TitlePreference::English);
    assert_eq!(get_title_preference(None), TitlePreference::English);
    assert_eq!(
        get_title_preference(Some("japanese".to_string())),
        TitlePreference::Japanese
    );
}

#[test]
fn language_setting() {
    assert_eq!(get_language(Some("en".to_string())), Some("english".to_string()));
    assert_eq!(get_language(Some("ja".to_string())), Some("japanese".to_string()));
    assert_eq!(get_language(Some("zh".to_string())), Some("chinese".to_string()));
    assert_eq!(get_language(Some("fr".to_string())), None);
    assert_eq!(get_language(None), None);
    assert_eq!(get_metadata_language(None).as_str(), "english");
    assert_eq!(get_tag_language(Some("chinese".to_string())).as_str(), "chinese");
}

#[test]
fn toggles() {
    assert!(!get_list_viewer(None));
    assert!(get_list_viewer(Some(true)));
    assert!(!get_sort_tags_alphabetically(Some(false)));
}

#[test]
fn blocklist_normalization() {
    // entries are trimmed and lowercased, blanks dropped
    let raw = vec![" LOLI ".to_string(), "".to_string(), "  ".to_string(), "Guro".to_string()];
    let out = get_blocklist(Some(raw));
    assert_eq!(out, vec!["loli".to_string(), "guro".to_string()]);
    assert_eq!(get_blocklist(None), Vec::<String>::new());
    let favs = normalize_string_list(&vec!["Big Breasts".to_string()]);
    assert_eq!(favs, vec!["big breasts".to_string()]);
}

#[test]
fn dictionary_lookup() {
    let d = cn_dict();
    assert_eq!(
        lookup(&d.tags, "big breasts"),
        Some("\u{5de8}\u{4e73}".to_string())
    );
    assert_eq!(lookup(&d.tags, "missing"), None);
    // translate_name lowercases the key before looking it up
    assert_eq!(
        translate_name("Big Breasts", Some(&d.tags)).as_str(),
        "\u{5de8}\u{4e73}"
    );
    assert_eq!(translate_name("unknown tag", Some(&d.tags)).as_str(), "unknown tag");
    assert_eq!(translate_name("anything", None).as_str(), "anything");
}

#[test]
fn tag_translation() {
    let d = cn_dict();
    assert_eq!(translate_tag("big breasts", "chinese", &d).as_str(), "\u{5de8}\u{4e73}");
    assert_eq!(translate_tag("big breasts", "english", &d).as_str(), "big breasts");
    assert_eq!(translate_tag("big breasts", "korean", &d).as_str(), "big breasts");
    assert_eq!(
        reverse_translate_tag("\u{5de8}\u{4e73}", "chinese", &d).as_str(),
        "big breasts"
    );
    assert_eq!(reverse_translate_tag("loli", "english", &d).as_str(), "loli");
    assert_eq!(reverse_translate_tag("unknown", "chinese", &d).as_str(), "unknown");
}

#[test]
fn stable_sort_by_count() {
    // counts [3, 9, 9, 1] with names [A, B, C, D] come out as [B, C, A, D]
    let entries = vec![
        ("A".to_string(), 3),
        ("B".to_string(), 9),
        ("C".to_string(), 9),
        ("D".to_string(), 1),
    ];
    let sorted = sort_by_count_desc(entries);
    let names: Vec<&str> = sorted.iter().map(|e| e.0.as_str()).collect();
    assert_eq!(names, vec!["B", "C", "A", "D"]);
}

#[test]
fn alphabetical_sort_is_case_insensitive() {
    let tags = vec!["banana".to_string(), "Apple".to_string(), "cherry".to_string()];
    let sorted = sort_ci(tags);
    assert_eq!(
        sorted,
        vec!["Apple".to_string(), "banana".to_string(), "cherry".to_string()]
    );
    // equal keys keep their original relative order
    let dup = vec!["B".to_string(), "b".to_string(), "a".to_string()];
    assert_eq!(
        sort_ci(dup),
        vec!["a".to_string(), "B".to_string(), "b".to_string()]
    );
}

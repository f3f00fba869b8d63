//! Localization: stores, handles, guards, merging and ASCII folding.

use netmux::i18n::{
    Language, LanguageMetadata, LocalizationFragment, RawLocalization, StrMap,
};
use netmux::locale::{
    list_localizations, start_hot_reloading, LanguageStore, LocalizationHandle,
};

fn meta(name: &str, id: &str) -> LanguageMetadata {
    LanguageMetadata { language_name: name.to_string(), language_identifier: id.to_string() }
}

fn language(name: &str, id: &str, pairs: &[(&str, &str)]) -> Language {
    let mut string_map: StrMap<String> = StrMap::new();
    for (k, v) in pairs {
        string_map.insert(k.to_string(), v.to_string());
    }
    let raw = RawLocalization {
        sub_directories: Vec::new(),
        convert_utf8_to_ascii: false,
        metadata: meta(name, id),
        string_map,
        vector_map: StrMap::new(),
    };
    Language::load_language(raw, Vec::new())
}

#[test]
fn test_localization_list() {
    let mut store = LanguageStore::new();
    store.insert_language(language("English (US)", "en", &[("hello", "Hello")]));
    store.insert_language(language("Deutsch", "de", &[("hello", "Hallo")]));
    let list = list_localizations(&store);
    assert!(!list.is_empty());
}

#[test]
fn listed_metadata_keeps_names_and_identifiers() {
    let mut store = LanguageStore::new();
    store.insert_language(language("English (US)", "en", &[]));
    store.insert_language(language("Deutsch", "de", &[]));
    let list = list_localizations(&store);
    assert_eq!(list.len(), 2);
    assert_eq!(list[0].language_identifier, "en");
    assert_eq!(list[1].language_identifier, "de");
    assert_eq!(list[1].language_name, "Deutsch");
}

#[test]
fn guard_falls_back_to_the_reference_language() {
    let mut store = LanguageStore::new();
    store.insert_language(language("English (US)", "en", &[
        ("hello", "Hello"),
        ("only.en", "English only"),
    ]));
    store.insert_language(language("Deutsch", "de", &[("hello", "Hallo")]));
    let mut handle = LocalizationHandle::load(&store, &"de".to_string()).unwrap();
    handle.set_english_fallback(true);
    let guard = handle.read(&store);
    assert_eq!(guard.get(&"hello".to_string()).as_str(), "Hallo");
    assert_eq!(guard.get(&"only.en".to_string()).as_str(), "English only");
    // A key neither language knows comes back as itself.
    assert_eq!(guard.get(&"missing.key".to_string()).as_str(), "missing.key");
    assert_eq!(guard.metadata().language_identifier, "de");
}

#[test]
fn fallback_stays_off_until_asked_for() {
    let mut store = LanguageStore::new();
    store.insert_language(language("English (US)", "en", &[("only.en", "English only")]));
    store.insert_language(language("Deutsch", "de", &[]));
    let handle = LocalizationHandle::load(&store, &"de".to_string()).unwrap();
    let guard = handle.read(&store);
    assert_eq!(guard.get(&"only.en".to_string()).as_str(), "only.en");
}

#[test]
fn loading_a_missing_language_fails() {
    let mut store = LanguageStore::new();
    store.insert_language(language("English (US)", "en", &[]));
    assert!(LocalizationHandle::load(&store, &"tlh".to_string()).is_err());
}

#[test]
fn variations_cycle_by_index() {
    let mut vector_map: StrMap<Vec<String>> = StrMap::new();
    vector_map.insert(
        "npc.greetings".to_string(),
        vec!["Hi".to_string(), "Ho".to_string(), "Hey".to_string()],
    );
    let raw = RawLocalization {
        sub_directories: Vec::new(),
        convert_utf8_to_ascii: false,
        metadata: meta("English (US)", "en"),
        string_map: StrMap::new(),
        vector_map,
    };
    let lang = Language::load_language(raw, Vec::new());
    let key = "npc.greetings".to_string();
    assert_eq!(lang.get_variation(&key, 0).unwrap().as_str(), "Hi");
    assert_eq!(lang.get_variation(&key, 4).unwrap().as_str(), "Ho");
    assert_eq!(lang.get_variation(&key, 5).unwrap().as_str(), "Hey");
    // The index wraps: 65535 is a multiple of three variations.
    assert_eq!(lang.get_variation(&key, 65535).unwrap().as_str(), "Hi");
    assert!(lang.get_variation(&"absent".to_string(), 0).is_none());
}

#[test]
fn fragments_override_in_merge_order() {
    let mut string_map: StrMap<String> = StrMap::new();
    string_map.insert("a".to_string(), "base".to_string());
    string_map.insert("b".to_string(), "base".to_string());
    let raw = RawLocalization {
        sub_directories: Vec::new(),
        convert_utf8_to_ascii: false,
        metadata: meta("English (US)", "en"),
        string_map,
        vector_map: StrMap::new(),
    };
    let mut frag1_map: StrMap<String> = StrMap::new();
    frag1_map.insert("b".to_string(), "first".to_string());
    frag1_map.insert("c".to_string(), "first".to_string());
    let mut frag2_map: StrMap<String> = StrMap::new();
    frag2_map.insert("c".to_string(), "second".to_string());
    let frags = vec![
        LocalizationFragment { string_map: frag1_map, vector_map: StrMap::new() },
        LocalizationFragment { string_map: frag2_map, vector_map: StrMap::new() },
    ];
    let lang = Language::load_language(raw, frags);
    assert_eq!(lang.get(&"a".to_string()).unwrap().as_str(), "base");
    assert_eq!(lang.get(&"b".to_string()).unwrap().as_str(), "first");
    assert_eq!(lang.get(&"c".to_string()).unwrap().as_str(), "second");
}

#[test]
fn ascii_folding_rewrites_the_texts() {
    let mut string_map: StrMap<String> = StrMap::new();
    string_map.insert("title".to_string(), "\u{c6}neid".to_string());
    let raw = RawLocalization {
        sub_directories: Vec::new(),
        convert_utf8_to_ascii: true,
        metadata: meta("\u{10d}e\u{161}tina", "cs"),
        string_map,
        vector_map: StrMap::new(),
    };
    let lang = Language::load_language(raw, Vec::new());
    // The folding is the outside routine's real work: an identity would
    // leave the non-ASCII text in place and fail here.
    assert_eq!(lang.get(&"title".to_string()).unwrap().as_str(), "AEneid");
    assert_eq!(lang.metadata.language_name, "cestina");
    assert_eq!(lang.metadata.language_identifier, "cs");
}

#[test]
fn missing_entries_are_the_reference_keys_left_out() {
    let mut store = LanguageStore::new();
    store.insert_language(language("English (US)", "en", &[
        ("hello", "Hello"),
        ("bye", "Bye"),
        ("only.en", "English only"),
    ]));
    store.insert_language(language("Deutsch", "de", &[("hello", "Hallo")]));
    let mut handle = LocalizationHandle::load(&store, &"de".to_string()).unwrap();
    handle.set_english_fallback(true);
    let guard = handle.read(&store);
    let (missing_strings, missing_vectors) = guard.list_missing_entries();
    assert_eq!(missing_strings, vec!["bye".to_string(), "only.en".to_string()]);
    assert!(missing_vectors.is_empty());
}

#[test]
fn reload_marks_reach_a_watching_handle_once() {
    let mut store = LanguageStore::new();
    store.insert_language(language("English (US)", "en", &[]));
    let mut handle = LocalizationHandle::load(&store, &"en".to_string()).unwrap();
    // Without watching, marks do not count.
    store.mark_reloaded();
    assert!(!handle.reloaded(&store));
    start_hot_reloading(&mut store);
    store.mark_reloaded();
    assert!(handle.reloaded(&store));
    assert!(!handle.reloaded(&store));
}

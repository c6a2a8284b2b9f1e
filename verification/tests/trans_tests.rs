use xbot::trans::autocomplete_case_insensitive;
use xbot::trans::is_source_lang;
use xbot::trans::is_target_lang;
use xbot::trans::parse_lang_prefix;
use xbot::trans::prepare_translation;
use xbot::trans::TransPrep;

#[test]
fn autocomplete_matches_prefix_ignoring_case() {
    let list = ["BG", "CS", "EN", "EN-GB", "ES", "ET"];
    let hits = autocomplete_case_insensitive(&list, "e");
    assert_eq!(hits, vec!["EN", "EN-GB", "ES", "ET"]);
    let hits = autocomplete_case_insensitive(&list, "en-");
    assert_eq!(hits, vec!["EN-GB"]);
    let hits = autocomplete_case_insensitive(&list, "");
    assert_eq!(hits, list.map(String::from).to_vec());
    let hits = autocomplete_case_insensitive(&list, "x");
    assert!(hits.is_empty());
}

#[test]
fn autocomplete_never_matches_longer_partial() {
    let list = ["EN"];
    assert!(autocomplete_case_insensitive(&list, "eng").is_empty());
}

#[test]
fn language_membership() {
    assert!(is_source_lang("EN"));
    assert!(is_source_lang("ZH"));
    assert!(!is_source_lang("EN-US"));
    assert!(!is_source_lang("en"));
    assert!(is_target_lang("EN-US"));
    assert!(is_target_lang("RU"));
    assert!(!is_target_lang("XX"));
}

#[test]
fn translation_defaults_to_american_english() {
    match prepare_translation(None, None, "Ciao mondo!") {
        TransPrep::Request { source_lang, target_lang, text } => {
            assert!(source_lang.is_none());
            assert_eq!(target_lang, "EN-US");
            assert_eq!(text, "Ciao mondo!");
        },
        _ => panic!("expected a prepared request"),
    }
}

#[test]
fn translation_uppercases_codes() {
    match prepare_translation(Some("fr"), Some("en-gb"), "Bonjour") {
        TransPrep::Request { source_lang, target_lang, text } => {
            assert_eq!(source_lang.as_deref(), Some("FR"));
            assert_eq!(target_lang, "EN-GB");
            assert_eq!(text, "Bonjour");
        },
        _ => panic!("expected a prepared request"),
    }
}

#[test]
fn unknown_source_is_reported() {
    match prepare_translation(Some("xq"), None, "hello") {
        TransPrep::UnknownSource { message } => {
            assert_eq!(
                message,
                "Unrecognized source language XQ, please refer to list of supported \
                 languages at https://www.deepl.com/docs-api/translate-text/."
            );
        },
        _ => panic!("expected the unknown-source reply"),
    }
}

#[test]
fn unknown_target_is_reported() {
    match prepare_translation(Some("fr"), Some("q"), "hello") {
        TransPrep::UnknownTarget { message } => {
            assert_eq!(
                message,
                "Unrecognized target language Q, please refer to list of supported \
                 languages at https://www.deepl.com/docs-api/translate-text/."
            );
        },
        _ => panic!("expected the unknown-target reply"),
    }
}

#[test]
fn source_is_checked_before_target() {
    match prepare_translation(Some("xq"), Some("q"), "hello") {
        TransPrep::UnknownSource { .. } => {},
        _ => panic!("expected the unknown-source reply first"),
    }
}

#[test]
fn lang_prefix_both_codes() {
    let r = parse_lang_prefix("et-cs Tere, maailm!");
    assert_eq!(r.from.as_deref(), Some("et"));
    assert_eq!(r.to.as_deref(), Some("cs"));
    assert_eq!(r.text, "Tere, maailm!");
}

#[test]
fn lang_prefix_source_only() {
    let r = parse_lang_prefix("pl- Witaj \u{15B}wiecie.");
    assert_eq!(r.from.as_deref(), Some("pl"));
    assert_eq!(r.to, None);
    assert_eq!(r.text, "Witaj \u{15B}wiecie.");
}

#[test]
fn lang_prefix_target_only() {
    let r = parse_lang_prefix("-fr Hello, world!");
    assert_eq!(r.from, None);
    assert_eq!(r.to.as_deref(), Some("fr"));
    assert_eq!(r.text, "Hello, world!");
}

#[test]
fn no_lang_prefix_keeps_text() {
    let r = parse_lang_prefix("Ciao mondo!");
    assert_eq!(r.from, None);
    assert_eq!(r.to, None);
    assert_eq!(r.text, "Ciao mondo!");
}

#[test]
fn leading_whitespace_before_prefix() {
    let r = parse_lang_prefix("  et-cs Tere");
    assert_eq!(r.from.as_deref(), Some("et"));
    assert_eq!(r.to.as_deref(), Some("cs"));
    assert_eq!(r.text, "Tere");
}

//! The languages of the browser's own texts.

use navgator::i18n::{
    best_match, choose_message, current_locale, init_from, is_shipped_locale, set_locale,
    shipped_locales, tr, tr_args, ArgValue, I18n, FALLBACK,
};
use navgator::sources::can_format;

fn catalogs() -> I18n {
    let sources = [
        ("en-US", "toolbar-back = Back\ntoolbar-minimize = Minimize\ntoolbar-settings = Settings\nonly-here = Source\ngreet = Hello { $name }\n"),
        ("en-GB", "toolbar-back = Back\ntoolbar-minimize = Minimise\n"),
        ("es", "toolbar-back = Atrás\n"),
        ("fr", "toolbar-back = Précédent\ngreet = Bonjour { $name }\n"),
        ("ru", "toolbar-back = Назад\n"),
        ("zh", "toolbar-settings = 设置\n"),
    ];
    I18n::load(&sources.iter().map(|(t, s)| (t.to_string(), s.to_string())).collect()).unwrap()
}

#[test]
fn catalogs_load_and_translate() {
    let mut i = catalogs();
    set_locale(&mut i, "fr");
    assert_eq!(tr(&i, "toolbar-back"), "Précédent");
    set_locale(&mut i, "ru");
    assert_eq!(tr(&i, "toolbar-back"), "Назад");
    set_locale(&mut i, "zh");
    assert_eq!(tr(&i, "toolbar-settings"), "设置");
    set_locale(&mut i, "en-GB");
    assert_eq!(tr(&i, "toolbar-minimize"), "Minimise");
    // A missing key falls back to en-US, then to the key itself.
    set_locale(&mut i, "es");
    assert_eq!(tr(&i, "no-such-key-exists"), "no-such-key-exists");
    set_locale(&mut i, "en-US");
    assert_eq!(tr(&i, "toolbar-back"), "Back");
}

#[test]
fn best_match_maps_os_locales() {
    assert_eq!(best_match("fr-FR"), "fr");
    assert_eq!(best_match("es_ES.UTF-8"), "es");
    assert_eq!(best_match("en_GB.UTF-8"), "en-GB");
    assert_eq!(best_match("en-US"), "en-US");
    assert_eq!(best_match("zh-Hans-CN"), "zh");
    assert_eq!(best_match("ru"), "ru");
    assert_eq!(best_match("de-DE"), "en-US");
}

#[test]
fn missing_messages_come_from_the_source() {
    let mut i = catalogs();
    set_locale(&mut i, "fr");
    assert_eq!(tr(&i, "only-here"), "Source");
    assert_eq!(choose_message(None, false, None, "k"), "k");
    assert_eq!(choose_message(Some(("a".to_string(), true)), false, Some(("b".to_string(), true)), "k"), "a");
}

#[test]
fn messages_take_arguments() {
    let mut i = catalogs();
    set_locale(&mut i, "fr");
    let args = vec![("name".to_string(), ArgValue::Text("Ada".to_string()))];
    let said = tr_args(&i, "greet", &args);
    assert!(said.starts_with("Bonjour "), "{said}");
    assert!(said.contains("Ada"), "{said}");
    let n = vec![("name".to_string(), ArgValue::Number(7))];
    assert!(tr_args(&i, "greet", &n).contains('7'));
}

#[test]
fn only_known_locales_are_set() {
    let mut i = catalogs();
    assert_eq!(current_locale(&i), FALLBACK);
    set_locale(&mut i, "fr");
    set_locale(&mut i, "xx");
    assert_eq!(current_locale(&i), "fr");
}

#[test]
fn the_system_chooses_a_locale() {
    let mut i = catalogs();
    init_from(&mut i, Some("en-GB"));
    assert_eq!(current_locale(&i), "en-GB");
    init_from(&mut i, Some("ru_RU.UTF-8"));
    assert_eq!(current_locale(&i), "ru");
    init_from(&mut i, None);
    assert_eq!(current_locale(&i), "ru");
}

#[test]
fn locales_are_listed_by_name() {
    let all = shipped_locales();
    assert_eq!(all.len(), 6);
    assert!(all.iter().all(|(tag, _)| is_shipped_locale(tag)));
    assert!(!is_shipped_locale("de"));
}

#[test]
fn sources_that_cannot_be_formatted_are_refused() {
    let load = |source: &str| I18n::load(&vec![("en-US".to_string(), source.to_string())]);
    assert!(load("n = { 1.00000000000000000000 ->\n    [one] a\n   *[other] b\n }\n").is_none());
    assert!(load("n = { F(1.00000000000000000000) }\n").is_none());
    assert!(load("n = {\"\\ué\"}\n").is_none());
    assert!(load("n = {\"\\U00é\"}\n").is_none());
    let deep = format!("n = {}$a{}\n", "{ ".repeat(11), " }".repeat(11));
    assert!(load(&deep).is_none());
    let i = load("n = { $a2 ->\n    [one] one\n   *[other] more: { 1.50 } {\"{\"}\n }\n").unwrap();
    let args = vec![("a2".to_string(), ArgValue::Number(1))];
    assert_eq!(tr_args(&i, "n", &args), "one");
    let args = vec![("a2".to_string(), ArgValue::Number(3))];
    assert_eq!(tr_args(&i, "n", &args), "more: 1.50 {");
}

#[test]
fn unusual_sources_are_read_all_the_same() {
    let load = |source: &str| I18n::load(&vec![("en-US".to_string(), source.to_string())]).unwrap();
    assert_eq!(tr(&load("k = \"A\"->B\n"), "k"), "\"A\"->B");
    assert_eq!(tr(&load("k = 1.00000000000000000000 -> \\ué\n"), "k"), "1.00000000000000000000 -> \\ué");
    let args = vec![("a".to_string(), ArgValue::Number(4))];
    assert_eq!(tr_args(&load("k = { { $a } }\n"), "k", &args), "4");
    assert_eq!(tr(&load("k = { 1.5 ->\n    [one] a\n   *[other] b\n }\n"), "k"), "b");
    assert_eq!(tr(&load("k = { \"x\" ->\n   *[other] b\n }\n"), "k"), "b");
    assert_eq!(tr(&load("k = {\"\\u00e9\"}\n"), "k"), "é");
    assert_eq!(tr(&load("# { 1.00000000000000000000 ->\nk = v\n"), "k"), "v");
    let deep = format!("k = {}$a{}\n", "{ ".repeat(10), " }".repeat(10));
    assert_eq!(tr_args(&load(&deep), "k", &args), "4");
    let wide = format!("k = {}\nm = {{ $a }}\n", "{ { m } } ".repeat(4));
    assert_eq!(tr_args(&load(&wide), "k", &args), "4 4 4 4");
    assert!(!can_format(&format!("k = {}\nm = {{ $a }}\n", "{ { m } } ".repeat(8))));
    assert!(can_format(&format!("k = {}\nm = {{ $a }}\n", "{ m } ".repeat(8))));
    assert!(can_format("k = { 1.00000000000000000000 }\n"));
    assert!(!can_format("k = { 1.00000000000000000000 ->\n   *[other] b\n }\n"));
}

#[test]
fn the_active_locale_is_one_of_those_shipped() {
    let mut i = catalogs();
    for tag in ["FR", "fr-FR", "xx", "", "en", "de"] {
        set_locale(&mut i, tag);
        assert_eq!(current_locale(&i), FALLBACK);
    }
    for (tag, _) in shipped_locales() {
        set_locale(&mut i, &tag);
        assert_eq!(current_locale(&i), tag);
        set_locale(&mut i, "xx");
        assert_eq!(current_locale(&i), tag);
    }
}

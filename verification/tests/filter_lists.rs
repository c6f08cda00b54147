//! Blocking requests, hiding elements, and other browsers' bookmarks.

use navgator::blocking::{
    blocks, cosmetic_style, filter_engine, inject_style, is_filter_list, is_stale, is_stopped,
    load_filter_rules, matches_rule, style_for, LIST_AGE,
};
use navgator::bookmarks::{collect_chrome_bookmarks, import_chrome_bookmarks};
use navgator::json::{parse_json, to_compact, to_pretty, Json};
use navgator::window::TabWindow;

fn engine() -> adblock::Engine {
    let fetched = vec![None, Some("||ads.example^\nnews.test##.banner\n".to_string())];
    filter_engine("||google-analytics.com^$third-party\n", &fetched)
}

#[test]
fn blocks_trackers_allows_content() {
    let engine = engine();
    // a known tracker, loaded third-party from a content site, is blocked
    assert!(
        matches_rule(
            &engine,
            "https://www.google-analytics.com/analytics.js",
            "https://news.example.com/article",
            "script"
        ),
        "tracker should be blocked"
    );
    // the page's own first-party content is not blocked
    assert!(
        !matches_rule(
            &engine,
            "https://news.example.com/article.html",
            "https://news.example.com/article",
            "document"
        ),
        "first-party content must not be blocked"
    );
}

#[test]
fn parses_chrome_bookmark_tree() {
    let json = parse_json(
        r#"{ "roots": { "bookmark_bar": { "type":"folder", "children": [
                {"type":"url","name":"Example","url":"https://example.com"},
                {"type":"folder","name":"Sub","children":[
                    {"type":"url","name":"Inner","url":"https://inner.test/page"},
                    {"type":"url","name":"Internal","url":"chrome://settings"}
                ]}
            ]}}}"#,
    )
    .unwrap();
    let mut out = Vec::new();
    match json.get("roots").unwrap() {
        Json::Object(members) => {
            for (_, node) in members {
                collect_chrome_bookmarks(node, &mut out);
            }
        }
        _ => panic!("roots is an object"),
    }
    // two http(s) bookmarks recursed out of the tree; chrome:// filtered
    assert_eq!(out.len(), 2);
    assert!(out.iter().any(|(u, n)| u == "https://example.com" && n == "Example"));
    assert!(out.iter().any(|(u, _)| u == "https://inner.test/page"));
}

#[test]
fn a_bookmark_without_a_name_goes_by_its_address() {
    let file = r#"{"roots":{"other":{"type":"url","url":"https://a.com"}}}"#;
    assert_eq!(
        import_chrome_bookmarks(file),
        vec![("https://a.com".to_string(), "https://a.com".to_string())]
    );
    assert!(import_chrome_bookmarks("{").is_empty());
    assert!(import_chrome_bookmarks("{}").is_empty());
}

#[test]
fn only_the_web_is_filtered_and_only_when_asked() {
    let e = engine();
    let ad = "https://ads.example/x.js";
    assert!(blocks(&e, ad, "https://a.com/", true));
    assert!(!blocks(&e, ad, "https://a.com/", false));
    assert!(!blocks(&e, "https://a.com/x.js", "https://a.com/", true));
    assert!(!blocks(&e, "gator://ads.example/x.js", "https://a.com/", true));
    assert!(!blocks(&e, "ads.example/x.js", "https://a.com/", true));
    assert!(!is_stopped("gator", true, Some(true)));
    assert!(!is_stopped("https", true, None));
}

#[test]
fn blocked_requests_are_noted_on_their_tab() {
    let e = engine();
    let mut w = TabWindow::new();
    w.adopt_tab(7);
    assert!(w.notify_url_changed(7, "https://a.com/", "https").is_some());
    assert!(w.check_request(&e, 7, "https://ads.example/x.js", true));
    assert!(!w.check_request(&e, 7, "https://a.com/y.js", true));
    assert_eq!(w.pane0.tabs[0].blocked, vec!["https://ads.example/x.js".to_string()]);
}

#[test]
fn elements_are_hidden_by_rule() {
    let e = engine();
    let css = cosmetic_style(&e, "https://news.test/", r#"{"c":["banner"],"i":[]}"#).unwrap();
    assert!(css.contains(".banner"));
    assert_eq!(cosmetic_style(&e, "https://other.test/", r#"{"c":[],"i":[]}"#), None);
    assert_eq!(style_for(&vec![]), None);
    let one = style_for(&vec![".x".to_string()]).unwrap();
    assert!(one.starts_with(".x"));
    assert!(inject_style("a{}").contains("__ng_cos"));
}

#[test]
fn rules_come_from_every_list() {
    let fetched = vec![Some("b\nc".to_string()), None];
    assert_eq!(load_filter_rules("a\n", &fetched), vec!["a", "b", "c"]);
}

#[test]
fn lists_grow_old() {
    assert!(is_stale(None));
    assert!(is_stale(Some(LIST_AGE)));
    assert!(!is_stale(Some(LIST_AGE - 1)));
    assert!(!is_filter_list("[Adblock Plus 2.0]"));
    assert!(is_filter_list(&format!("[Adblock Plus 2.0]{}", "x".repeat(10_000))));
    assert!(!is_filter_list(&"x".repeat(20_000)));
}

#[test]
fn json_is_read_and_written() {
    let j = parse_json(r#"{"b":[1,true,null],"a":"x"}"#).unwrap();
    assert_eq!(to_compact(&j), r#"{"a":"x","b":[1,true,null]}"#);
    assert_eq!(to_pretty(&parse_json("[1]").unwrap()), "[\n  1\n]");
    assert_eq!(j.get_text("a").as_deref(), Some("x"));
    assert!(j.get_text("b").is_none());
    assert!(parse_json("{").is_none());
}

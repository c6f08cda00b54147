//! Addresses, colours, names and sessions.

use navgator::address::{
    address_with_pairs, cli_url_given, content_url, host_of, is_tracking_param, omnibox_target,
    origin_of, search_url, strip_tracking_params,
};
use navgator::codec::{
    color_hex, favicon_hue, hex_decode, hex_encode, html_escape, is_hex_color, js_string,
    parse_hex_color, truncate_ellipsis, tsv_field, url_encode, Rgb,
};
use navgator::distance::levenshtein;
use navgator::number::{decimal_string, hex16, parse_signed, parse_unsigned, signed_string};
use navgator::session::{parse_session, write_session};

fn rgb(c: egui::Color32) -> Rgb {
    Rgb { red: c.r(), green: c.g(), blue: c.b() }
}

#[test]
fn levenshtein_flags_typosquats() {
    assert_eq!(levenshtein("github.com", "github.com"), 0);
    assert_eq!(levenshtein("github.com", "gihub.com"), 1); // dropped a char
    assert_eq!(levenshtein("paypal.com", "paypa1.com"), 1); // l -> 1
    assert_eq!(levenshtein("google.com", "gooogle.com"), 1); // extra o
    // A real firewall trigger (≤ 2) vs clearly-different / subdomain-appended (not).
    assert!(levenshtein("paypal.com", "paypal.com") <= 2);
    assert!(levenshtein("apple.com", "microsoft.com") > 2);
    assert!(levenshtein("bank.com", "bank.com.evil.com") > 2);
}

#[test]
fn strip_tracking_params_removes_trackers() {
    // Trackers dropped, real params kept, order preserved.
    assert_eq!(
        strip_tracking_params("https://x.com/p?utm_source=a&id=5&fbclid=zz"),
        "https://x.com/p?id=5"
    );
    // All-tracker query collapses to no query (no dangling '?').
    assert_eq!(
        strip_tracking_params("https://x.com/p?utm_campaign=a&gclid=b"),
        "https://x.com/p"
    );
    // Untouched when there's nothing to strip / it doesn't parse.
    assert_eq!(strip_tracking_params("https://x.com/p?id=5"), "https://x.com/p?id=5");
    assert_eq!(strip_tracking_params("https://x.com/p"), "https://x.com/p");
    assert_eq!(strip_tracking_params("not a url"), "not a url");
    // Omnibar URL entries are cleaned; searches are left alone.
    assert_eq!(
        omnibox_target("https://x.com/p?utm_medium=x&q=2", "https://d.com/?q=%s"),
        "https://x.com/p?q=2"
    );
    assert!(omnibox_target("hello utm_source", "https://d.com/?q=%s").starts_with("https://d.com/?q="));
}

#[test]
fn omnibox_target_classifies_and_blocks_javascript() {
    let s = "https://duck.com/?q=%s";
    // A real URL passes through unchanged.
    assert_eq!(omnibox_target("https://example.com", s), "https://example.com");
    // A bare domain is promoted to https.
    assert_eq!(omnibox_target("example.com", s), "https://example.com");
    // Free text becomes a search.
    assert!(omnibox_target("hello world", s).starts_with("https://duck.com/?q="));
    // javascript: is ALWAYS routed to search, never loaded — including the `://` variant and
    // mixed case / leading whitespace.
    for js in [
        "javascript:alert(1)",
        "javascript://%0aalert(1)",
        "  JavaScript:alert(document.domain)",
    ] {
        assert!(
            omnibox_target(js, s).starts_with("https://duck.com/?q="),
            "{js} should be searched, not loaded"
        );
    }
}

#[test]
fn is_hex_color_rejects_injection() {
    assert!(is_hex_color("#fff"));
    assert!(is_hex_color("#5b8cff"));
    assert!(is_hex_color("#ABC123"));
    // The XSS vector this guards: a value that breaks out of the gator:// page <style>.
    assert!(!is_hex_color("#fff}</style><script>alert(1)</script>"));
    assert!(!is_hex_color("#fffe")); // 4 hex digits
    assert!(!is_hex_color("#xyz")); // non-hex
    assert!(!is_hex_color("red")); // no leading #
    assert!(!is_hex_color("#"));
    assert!(!is_hex_color(""));
}

#[test]
fn parse_session_flat_and_split() {
    // Flat (non-split) session: every URL lands in pane 0.
    let (p0, p1) = parse_session("https://a.com\nhttps://b.com\n");
    assert_eq!(p0.len(), 2);
    assert!(p1.is_empty());

    // Split session: the #PANE1 marker routes the rest to pane 1.
    let (p0, p1) = parse_session("https://a.com\nhttps://b.com\n#PANE1\nhttps://c.com\n");
    assert_eq!(
        p0.iter().map(|u| u.as_str()).collect::<Vec<_>>(),
        ["https://a.com/", "https://b.com/"]
    );
    assert_eq!(
        p1.iter().map(|u| u.as_str()).collect::<Vec<_>>(),
        ["https://c.com/"]
    );

    // Blank + non-URL lines are skipped (forward/back compatible).
    let (p0, p1) = parse_session("\nnot a url\nhttps://a.com\n\n");
    assert_eq!(p0.len(), 1);
    assert!(p1.is_empty());
}

#[test]
fn favicon_hue_is_stable_and_in_range() {
    for s in ["figma.com", "github.com", "", "a very long tab title here"] {
        let h = favicon_hue(s) as f32;
        assert!((0.0..360.0).contains(&h), "{s}: {h}");
        assert_eq!(h, favicon_hue(s) as f32, "must be deterministic");
    }
    // distinct strings should (here) give distinct hues
    assert_ne!(favicon_hue("github.com"), favicon_hue("figma.com"));
}

#[test]
fn color_hex_formats_rrggbb() {
    assert_eq!(color_hex(rgb(egui::Color32::from_rgb(0x5b, 0x8c, 0xff))), "#5b8cff");
    assert_eq!(color_hex(rgb(egui::Color32::BLACK)), "#000000");
    assert_eq!(color_hex(rgb(egui::Color32::from_rgb(255, 255, 255))), "#ffffff");
}

#[test]
fn the_hue_of_nothing_is_fixed() {
    // 2166136261 mod 360.
    assert_eq!(favicon_hue(""), 61);
}

#[test]
fn colours_read_back_as_they_were_written() {
    let c = Rgb { red: 1, green: 0xab, blue: 255 };
    let back = parse_hex_color(&color_hex(c)).unwrap();
    assert_eq!((back.red, back.green, back.blue), (1, 0xab, 255));
    assert!(parse_hex_color("5b8cff").is_some());
    assert!(parse_hex_color("#5b8cf").is_none());
    assert!(parse_hex_color("#5b8cfg").is_none());
    assert!(parse_hex_color("#+1+2+3").is_none());
}

#[test]
fn edits_are_the_same_both_ways() {
    assert_eq!(levenshtein("kitten", "sitting"), 3);
    assert_eq!(levenshtein("sitting", "kitten"), 3);
    assert_eq!(levenshtein("", "abc"), 3);
    assert!(levenshtein("a", "abc") <= levenshtein("a", "ab") + levenshtein("ab", "abc"));
}

#[test]
fn queries_are_percent_encoded() {
    assert_eq!(url_encode("a b&c"), "a+b%26c");
    assert_eq!(url_encode("é"), "%C3%A9");
    assert_eq!(url_encode("A-z_0.~"), "A-z_0.~");
    assert_eq!(search_url("https://d.com/?q=%s&x=1", "a b"), "https://d.com/?q=a+b&x=1");
}

#[test]
fn bytes_survive_hexadecimal() {
    assert_eq!(hex_encode(&[0, 15, 255]), "000fff");
    assert_eq!(hex_decode("000fff"), Some(vec![0, 15, 255]));
    assert_eq!(hex_decode("0"), None);
    assert_eq!(hex_decode("zz"), None);
}

#[test]
fn markup_is_made_inert() {
    assert_eq!(html_escape("<b a=\"1\">&'"), "&lt;b a=&quot;1&quot;&gt;&amp;'");
    assert_eq!(html_escape("plain"), "plain");
}

#[test]
fn script_literals_hold_no_tag() {
    let s = js_string("a\"b\\c\n</script>");
    assert!(s.starts_with('"') && s.ends_with('"'));
    assert!(!s.contains("</script>"));
    assert!(!s[1..s.len() - 1].contains('\n'));
}

#[test]
fn cells_have_no_tabs_or_newlines() {
    assert_eq!(tsv_field("a\tb\nc"), "a b c");
}

#[test]
fn long_texts_are_cut() {
    assert_eq!(truncate_ellipsis("abcdef", 10), "abcdef");
    assert_eq!(truncate_ellipsis("abcdef", 0), "");
    assert_eq!(truncate_ellipsis("abcdef", 1), "…");
    assert_eq!(truncate_ellipsis("héllo", 4), "hél…");
    assert_eq!(truncate_ellipsis("héllo", 5), "héllo");
    let cut = truncate_ellipsis("abcdef", 3);
    assert!(cut.chars().count() <= 3);
    assert!(cut.ends_with('…'));
}

#[test]
fn origins_and_hosts() {
    assert_eq!(origin_of("https://a.com:8080/x?y").as_deref(), Some("https://a.com:8080"));
    assert_eq!(origin_of("https://a.com/x").as_deref(), Some("https://a.com"));
    assert_eq!(origin_of("gator://welcome"), None);
    assert_eq!(origin_of("nonsense"), None);
    assert_eq!(host_of("https://a.com/x").as_deref(), Some("a.com"));
}

#[test]
fn trackers_go_by_name() {
    assert!(is_tracking_param("utm_source"));
    assert!(is_tracking_param("fbclid"));
    assert!(!is_tracking_param("id"));
}

#[test]
fn cleaning_twice_changes_nothing() {
    let once = strip_tracking_params("https://x.com/?a=1&utm_x=2&b=%20c");
    assert_eq!(strip_tracking_params(&once), once);
}

#[test]
fn pairs_are_put_into_an_address() {
    let pairs = vec![("url".to_string(), "https://a.com/?x=1".to_string())];
    let (text, back) = address_with_pairs("gator://crash", &pairs).unwrap();
    assert_eq!(text, "gator://crash?url=https%3A%2F%2Fa.com%2F%3Fx%3D1");
    assert_eq!(back, pairs);
    assert!(address_with_pairs("not a url", &pairs).is_none());
}

#[test]
fn the_first_page_comes_from_the_command_line() {
    assert_eq!(content_url(Some("https://a.com")), ("https://a.com/".to_string(), false));
    assert_eq!(content_url(None), ("gator://welcome".to_string(), false));
    assert_eq!(content_url(Some("nonsense")), ("gator://welcome".to_string(), true));
    assert!(cli_url_given(Some("https://a.com")));
    assert!(!cli_url_given(Some("nonsense")));
    assert!(!cli_url_given(None));
}

#[test]
fn sessions_read_back_as_they_were_written() {
    let left = vec!["https://a.com/".to_string(), "https://b.com/x?y=1".to_string()];
    let right = vec!["gator://welcome".to_string()];
    let file = write_session(&left, &right, true);
    assert_eq!(parse_session(&file), (left, right));
}

#[test]
fn numbers_are_read_and_written() {
    assert_eq!(decimal_string(0), "0");
    assert_eq!(decimal_string(u64::MAX), "18446744073709551615");
    assert_eq!(signed_string(i64::MIN), "-9223372036854775808");
    assert_eq!(parse_signed("-9223372036854775808"), Some(i64::MIN));
    assert_eq!(parse_signed("x"), None);
    assert_eq!(parse_unsigned("256", 255), None);
    assert_eq!(parse_unsigned("+255", 255), Some(255));
    assert_eq!(hex16(255), "00000000000000ff");
}

#[test]
fn a_query_with_nothing_left_goes() {
    assert_eq!(strip_tracking_params("https://x.com/?"), "https://x.com/");
    assert_eq!(strip_tracking_params("https://x.com/?#top"), "https://x.com/#top");
    assert_eq!(strip_tracking_params("https://x.com/?utm_id=1&fbclid=2"), "https://x.com/");
}

#[test]
fn addresses_without_trackers_stay_as_written() {
    assert_eq!(strip_tracking_params("https://x.com/p?flag"), "https://x.com/p?flag");
    assert_eq!(strip_tracking_params("https://X.com?a=b%20c#f"), "https://X.com?a=b%20c#f");
    let once = strip_tracking_params("https://u:p@x.com:8443/a?utm_id=1&q=a%20b&flag#top");
    assert_eq!(once, "https://u:p@x.com:8443/a?q=a+b&flag=#top");
    assert_eq!(strip_tracking_params(&once), once);
    let bare = strip_tracking_params("https://x.com/a?utm_id=1#top");
    assert_eq!(bare, "https://x.com/a#top");
    assert_eq!(strip_tracking_params(&bare), bare);
}

#[test]
fn scripts_are_searched_however_they_are_spelled() {
    let s = "https://duck.com/?q=%s";
    for js in ["java\tscript://x.com/%0aalert(1)", "java\nscript:a.b", "\u{1}javascript:a.b"] {
        assert_eq!(omnibox_target(js, s), search_url(s, js), "{js:?} should be searched");
    }
}

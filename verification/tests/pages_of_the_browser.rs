//! The browser's own pages, its settings, and where requests go.

use std::collections::hash_map::DefaultHasher;
use std::hash::{Hash, Hasher};

use navgator::address::UrlParts;
use navgator::addons::{Addon, MatchPattern, PermissionSet, Registry};
use navgator::archive::{
    answer, body_name, capture, index_line, keep_headers, key, lookup, meta_name, meta_text, miss_line,
    parse_mode, step, Meta, Mode, Step, Stored, GATEWAY_TIMEOUT,
};
use navgator::codec::Rgb;
use navgator::downloads::{file_name, render_gator_downloads, Downloads};
use navgator::json::parse_json;
use navgator::pages::{
    export_json, group_by_host, login_to_remove, render_gator_about, render_gator_crash,
    render_gator_export, render_gator_extensions, render_gator_history, render_gator_passwords,
    render_gator_why, themed, Login, Palette,
};
use navgator::preferences::{
    colour_preset, read_change, search_engine, Deed, PaletteAction, PaletteStep, SettingsApply,
};
use navgator::profile::{HistoryEntry, Profile};
use navgator::resource::{
    load_web_resource, navigate_from_omnibox, request_navigation, route_parts, unknown_page,
    AddonCommand, FontFile, Navigation, Page, Route,
};
use navgator::settings::{load_settings, page_color_scheme, save_settings, Catalog, Modules, Settings, Theme};
use navgator::settings_page::{render_gator_settings, step_pills, toggle_link, Doings, LookChoices};
use navgator::welcome::{render_gator_welcome, sites_to_show, top_sites, wallpaper_css, MAX_SITES};

fn grey(n: u8) -> Rgb {
    Rgb { red: n, green: n, blue: n }
}

fn palette() -> Palette {
    Palette {
        bg: grey(1),
        bg2: grey(2),
        elev: grey(3),
        border: grey(4),
        text: grey(5),
        muted: grey(6),
        accent: Rgb { red: 10, green: 20, blue: 30 },
    }
}

fn catalog() -> Catalog {
    let v = |l: &[&str]| l.iter().map(|s| s.to_string()).collect::<Vec<String>>();
    Catalog {
        bases: v(&["obsidian", "porcelain"]),
        accents: v(&["blue", "green"]),
        densities: v(&["compact", "comfy"]),
        fonts: v(&["grotesk", "outfit"]),
        wallpapers: v(&["none", "dunes"]),
        top: "top".to_string(),
        left: "left".to_string(),
        fill: "fill".to_string(),
        fit: "fit".to_string(),
        light_bases: v(&["porcelain"]),
        colours: vec![
            ("obsidian".to_string(), "blue".to_string(), Rgb { red: 91, green: 140, blue: 255 }),
            ("porcelain".to_string(), "blue".to_string(), Rgb { red: 1, green: 2, blue: 3 }),
        ],
        other_colour: Rgb { red: 16, green: 32, blue: 48 },
    }
}

fn theme() -> Theme {
    Theme {
        base: "obsidian".to_string(),
        accent: "blue".to_string(),
        density: "comfy".to_string(),
        font: "grotesk".to_string(),
        tab_pos: "top".to_string(),
        wallpaper: "none".to_string(),
        tab_fit: "fit".to_string(),
        radius: 12,
        glass: 24,
        tab_max_w: 220,
    }
}

fn modules() -> Modules {
    Modules { clock: true, search: true, sites: true, notes: false, feed: false }
}

fn settings() -> Settings {
    Settings::with_look(theme(), modules())
}

fn visit(url: &str, title: &str, visits: u32) -> HistoryEntry {
    HistoryEntry { url: url.to_string(), title: title.to_string(), visits, updated: 5 }
}

fn pairs(p: &[(&str, &str)]) -> Vec<(String, String)> {
    p.iter().map(|(a, b)| (a.to_string(), b.to_string())).collect()
}

#[test]
fn settings_survive_a_restart() {
    let mut s = settings();
    s.search = "https://a.com/?q=%s".to_string();
    s.dark = false;
    s.sync_api_key = "lyk_x".to_string();
    s.block_ads = false;
    s.theme.base = "porcelain".to_string();
    s.theme.radius = 7;
    s.modules.feed = true;
    s.theme_base_explicit = true;
    s.sync_legacy_theme(&catalog());
    assert_eq!(s.accent, "#010203");
    let file = save_settings(&s);
    let back = load_settings(Some(&file), &catalog(), theme(), modules());
    assert_eq!(back.search, s.search);
    assert!(!back.dark && !back.block_ads && back.theme_base_explicit);
    assert_eq!(back.sync_api_key, "lyk_x");
    assert_eq!(back.theme.base, "porcelain");
    assert_eq!(back.theme.radius, 7);
    assert!(back.modules.feed);
    assert_eq!(save_settings(&back), file);
    s.dark = true;
    s.accent = "#ffffff".to_string();
    let back = load_settings(Some(&save_settings(&s)), &catalog(), theme(), modules());
    assert!(!back.dark, "the page colours are those of the look");
    assert_eq!(back.accent, "#010203");
    s.theme.accent = "green".to_string();
    let back = load_settings(Some(&save_settings(&s)), &catalog(), theme(), modules());
    assert_eq!(back.accent, "#102030");
}

#[test]
fn odd_settings_are_ignored() {
    let s = load_settings(Some("accent=red}\nnonsense\nblock_ads=0\n"), &catalog(), theme(), modules());
    assert_eq!(s.accent, "#5b8cff");
    assert!(!s.block_ads);
    let d = load_settings(None, &catalog(), theme(), modules());
    assert_eq!(d.search, "https://duckduckgo.com/?q=%s");
    assert!(d.block_ads && d.dark);
}

#[test]
fn links_change_settings() {
    assert!(matches!(read_change(&pairs(&[("dark", "on")])), SettingsApply::Dark(true)));
    assert!(matches!(read_change(&pairs(&[("engine", "2")])), SettingsApply::Engine(2)));
    assert!(matches!(read_change(&pairs(&[("engine", "x")])), SettingsApply::Nothing));
    assert!(matches!(read_change(&pairs(&[("zzz", "1")])), SettingsApply::Nothing));
    let mut s = settings();
    let c = catalog();
    let a = s.apply(&c, SettingsApply::Accent("#123456".to_string()), theme(), None);
    assert!(a.changed);
    assert_eq!(s.accent, "#123456");
    s.apply(&c, SettingsApply::Accent("#fff}</style>".to_string()), theme(), None);
    assert_eq!(s.accent, "#123456");
    s.apply(&c, SettingsApply::ThemeSet("radius".to_string(), "200".to_string()), theme(), None);
    assert!(s.theme.radius <= 30);
    let a = s.apply(&c, SettingsApply::Action("import".to_string()), theme(), None);
    assert!(matches!(a.deed, Deed::Import));
    assert!(search_engine(0).is_some());
    assert!(search_engine(1000).is_none());
    assert!(colour_preset(1000).is_none());
    assert_eq!(colour_preset(0).is_some(), true);
}

#[test]
fn a_change_names_a_ready_made_look_or_a_base() {
    let change = |k: &str, v: &str| read_change(&pairs(&[(k, v)]));
    assert_eq!(change("preset", "3").preset(), Some(3));
    assert_eq!(change("preset", "+3").preset(), Some(3));
    assert_eq!(change("preset", "-3").preset(), None);
    assert_eq!(change("preset", "99999999999999999999").preset(), None);
    assert_eq!(change("radius", "3").preset(), None);
    assert_eq!(change("theme", "3").preset(), None);
    assert_eq!(change("base", "porcelain").base("obsidian"), "porcelain");
    assert_eq!(change("preset", "3").base("obsidian"), "obsidian");
    assert_eq!(change("zzz", "3").base("obsidian"), "obsidian");
}

#[test]
fn pages_are_dark_where_the_look_is() {
    let mut s = settings();
    s.theme.base = "obsidian".to_string();
    assert!(page_color_scheme(&s, &catalog()));
    s.theme.base = "porcelain".to_string();
    assert!(!page_color_scheme(&s, &catalog()));
    s.theme.base = "unheard-of".to_string();
    assert!(page_color_scheme(&s, &catalog()));
}

#[test]
fn the_strip_turns_and_turns_back() {
    let c = catalog();
    let mut s = settings();
    assert!(matches!(s.run_palette(&c, PaletteAction::ToggleVerticalTabs), PaletteStep::Saved));
    assert_eq!(s.theme.tab_pos, "left");
    s.run_palette(&c, PaletteAction::ToggleVerticalTabs);
    assert_eq!(s.theme.tab_pos, "top");
    assert!(matches!(s.run_palette(&c, PaletteAction::NewTab), PaletteStep::OpenTab));
    s.run_palette(&c, PaletteAction::ToggleNotes);
    assert!(s.modules.notes);
}

#[test]
fn slots_take_the_palettes_colours() {
    assert_eq!(themed("__BG__ __ACCENT__ __ACCENT_RGB__", &palette()), "#010101 #0a141e 10, 20, 30");
}

#[test]
fn history_is_listed_latest_first() {
    let h = vec![visit("https://a/", "A", 1), visit("gator://x", "", 1), visit("https://b/", "<B>", 1)];
    let page = render_gator_history("__ROWS__", "#fff", &h, &palette());
    let (a, b) = (page.find("https://a/").unwrap(), page.find("https://b/").unwrap());
    assert!(b < a);
    assert!(page.contains("&lt;B&gt;"));
    assert!(!page.contains("gator://x"));
    assert!(render_gator_history("__ROWS__", "#fff", &vec![], &palette()).contains("No history yet"));
}

#[test]
fn a_crash_shows_its_reason() {
    let p = render_gator_crash("__CRASH_URL__|__CRASH_REASON__", "#fff", "https://a/?<", "boom<", &palette());
    assert_eq!(p, "https://a/?&lt;|boom&lt;");
    let blank = render_gator_crash("__CRASH_URL__", "#fff", "", "x", &palette());
    assert_eq!(blank, "about:blank");
    assert_eq!(render_gator_about("__VERSION__ __ACCENT__", "#abc", "1.2", &palette()), "1.2 #abc");
}

#[test]
fn locked_passwords_are_not_listed() {
    let list = vec![Login { origin: "https://a.com".to_string(), username: "ada".to_string() }];
    let locked = render_gator_passwords("__ROWS__", "#fff", false, &list, &palette());
    assert!(locked.contains("locked") && !locked.contains("ada"));
    let open = render_gator_passwords("__ROWS__", "#fff", true, &list, &palette());
    assert!(open.contains("ada · ••••••••") && open.contains("gator://passwords?remove=0"));
    assert_eq!(login_to_remove(&list, Some(0)), Some(("https://a.com".to_string(), "ada".to_string())));
    assert_eq!(login_to_remove(&list, Some(1)), None);
    assert_eq!(login_to_remove(&list, None), None);
}

#[test]
fn the_receipt_groups_by_host() {
    let log: Vec<String> = ["https://b/1", "https://a/1", "https://b/2", "junk"].iter().map(|s| s.to_string()).collect();
    let g = group_by_host(&log);
    let hosts: Vec<&str> = g.iter().map(|x| x.0.as_str()).collect();
    assert_eq!(hosts, ["(other)", "a", "b"]);
    assert_eq!(g[2].1, ["https://b/1", "https://b/2"]);
    let page = render_gator_why(&log, &palette());
    assert!(page.contains("https://b/2"));
    assert!(render_gator_why(&vec![], &palette()).contains("Nothing was blocked on that page."));
}

#[test]
fn everything_can_be_exported() {
    let mut p = Profile::new();
    p.record_visit("https://a/", "A", 1);
    p.toggle_bookmark("https://b/", "B", 2);
    let page = render_gator_export(p.bookmarks.len(), p.history.len(), &palette());
    assert!(page.contains("gator://export?get=all"));
    let doc = parse_json(&export_json(&p, &settings())).unwrap();
    assert_eq!(doc.get_text("format").as_deref(), Some("navgator-export"));
    assert_eq!(doc.get("settings").unwrap().get_text("search").as_deref(), Some("https://duckduckgo.com/?q=%s"));
}

#[test]
fn add_ons_are_listed() {
    let mut reg = Registry::new();
    assert!(render_gator_extensions("__ROWS__", "#fff", &reg, &vec![], &palette()).contains("No userscripts installed"));
    reg.upsert(Addon {
        id: "x".to_string(),
        name: "Nice & small".to_string(),
        version: "1.0".to_string(),
        enabled: true,
        requested: PermissionSet::new(),
        granted: PermissionSet::new(),
        matches: vec![MatchPattern::Glob("*".to_string())],
        connect: vec![],
        path: "/x.user.js".to_string(),
        content_hash: 1,
    });
    let page = render_gator_extensions("__ROWS__", "#fff", &reg, &vec!["storage".to_string()], &palette());
    assert!(page.contains("Nice &amp; small"));
    assert!(page.contains("disable=x"));
}

#[test]
fn downloads_are_followed() {
    let mut d = Downloads::new();
    assert_eq!(d.notify_download_started("https://a/x.zip".to_string(), "/h/x.zip".to_string()), "Downloading x.zip…");
    let page = render_gator_downloads("__ROWS__", "#fff", &d.list, &palette());
    assert!(page.contains("downloading…"));
    assert!(d.notify_download_completed("/h/x.zip", true).starts_with("Saved x.zip"));
    assert!(d.list[0].done && d.list[0].success);
    assert_eq!(file_name("/a/b.c"), "b.c");
    assert!(render_gator_downloads("__ROWS__", "#fff", &vec![], &palette()).contains("No downloads yet"));
}

#[test]
fn the_welcome_page_shows_few_sites_once() {
    let mut h = Vec::new();
    for i in 0..20 {
        h.push(visit(&format!("https://s{i}.com/"), "", i + 1));
    }
    h.push(visit("https://www.s19.com/deep", "Deep", 1));
    let s = top_sites(&h);
    assert_eq!(s.len(), MAX_SITES);
    assert_eq!(s[0].host, "s19.com");
    assert_eq!(s[0].letter, "S");
    let demo = sites_to_show(&vec![]);
    assert_eq!(demo[0].name, "Figma");
    let colours = vec![grey(9); demo.len()];
    let page = render_gator_welcome("__CLOCK_HIDE__|__NOTES_HIDE__|__KBD__|__TOPSITES__", "", modules(), &demo, &colours, true, &palette());
    assert!(page.starts_with('|'));
    assert!(page.contains("⌘K"));
    assert!(page.contains("https://figma.com"));
}

#[test]
fn wallpapers_stay_in_their_place() {
    assert!(wallpaper_css(" https://a/x.png ").contains("url(\"https://a/x.png\")"));
    assert_eq!(wallpaper_css("https://a/x\")}"), "");
    assert_eq!(wallpaper_css("javascript:x"), "");
    assert_eq!(wallpaper_css(""), "");
}

#[test]
fn the_settings_page_offers_the_opposite() {
    assert_eq!(
        toggle_link("block_ads", true, "privacy"),
        "<a class=\"tog on\" href=\"gator://settings?block_ads=off#privacy\"><span class=\"knob\"></span></a>"
    );
    let steps = step_pills("radius", 13, &vec![0, 12, 24]);
    assert!(steps.contains("pill on\" href=\"gator://settings?radius=12#"));
    assert_eq!(steps.matches("pill on").count(), 1);
    let looks = LookChoices {
        presets: vec![],
        bases: vec![],
        accents: vec![],
        fonts: vec![],
        densities: vec![],
        tab_positions: vec![],
        wallpapers: vec![],
    };
    let d = Doings { blocked: 42, import_msg: "<i>".to_string(), sync_status: String::new(), saved: None };
    let mut s = settings();
    s.sync_api_key = "lyk_secret".to_string();
    let page = render_gator_settings("__ADS_BLOCKED__ __IMPORT_MSG__ __KEY_STATUS__", &s, &catalog(), &looks, &d, &palette());
    assert!(page.starts_with("42 &lt;i&gt; "));
    assert!(!page.contains("lyk_secret"));
}

#[test]
fn requests_go_where_they_belong() {
    assert!(matches!(load_web_resource("https://a/", None), Some(Route::Network)));
    assert!(matches!(load_web_resource("https://a/", Some(Mode::Replay)), Some(Route::Archive(Mode::Replay))));
    assert!(matches!(load_web_resource("gator://history", None), Some(Route::Internal(Page::History))));
    assert!(matches!(load_web_resource("gator://export?get=all", None), Some(Route::Internal(Page::ExportFile))));
    assert!(matches!(load_web_resource("gator://passwords?remove=3", None), Some(Route::Internal(Page::Passwords(Some(3))))));
    assert!(load_web_resource("nonsense", None).is_none());
    match load_web_resource("navgator://gm/set?token=t&key=a%20b", None) {
        Some(Route::Bridge(path, pairs)) => {
            assert_eq!(path, "/set");
            let want = [("token", "t"), ("key", "a b")];
            assert_eq!(pairs, want.map(|(k, v)| (k.to_string(), v.to_string())));
        }
        other => panic!("{other:?}"),
    }
    match load_web_resource("gator://extensions?enable=x", None) {
        Some(Route::Internal(Page::Extensions(AddonCommand::Enable(id)))) => assert_eq!(id, "x"),
        other => panic!("{other:?}"),
    }
    match load_web_resource("gator://font/mono", None) {
        Some(Route::Internal(Page::Font(f))) => assert!(matches!(f, FontFile::JetBrainsMono)),
        other => panic!("{other:?}"),
    }
    match load_web_resource("gator://nowhere", None) {
        Some(Route::Internal(p)) => {
            assert!(matches!(p, Page::Unknown(ref h) if h == "nowhere"));
            assert_eq!(p.content_type(), "text/html; charset=utf-8");
        }
        other => panic!("{other:?}"),
    }
    assert!(Page::ExportFile.disposition().is_some());
    assert!(Page::History.disposition().is_none());
    assert!(unknown_page("<x>").contains("&lt;x&gt;"));
    let u = UrlParts {
        text: "http://a/".to_string(),
        scheme: "http".to_string(),
        username: String::new(),
        password: None,
        host: Some("a".to_string()),
        port: None,
        path: "/".to_string(),
        query: None,
        pairs: vec![],
        fragment: None,
    };
    assert!(matches!(route_parts(&u, None), Route::Network));
}

#[test]
fn web_pages_do_not_open_internal_ones() {
    let s = "https://d.com/?q=%s";
    assert!(matches!(request_navigation("gator://settings", Some("https://a/"), s), Some(Navigation::Deny)));
    assert!(matches!(request_navigation("gator://settings", Some("gator://welcome"), s), Some(Navigation::Allow)));
    assert!(matches!(request_navigation("https://a/", None, s), Some(Navigation::AllowWithAddons(_))));
    assert!(request_navigation("nonsense", None, s).is_none());
    assert_eq!(navigate_from_omnibox("example.com", s).as_deref(), Some("https://example.com/"));
}

#[test]
fn archived_responses_are_found_again() {
    let mut h = DefaultHasher::new();
    "GET".hash(&mut h);
    0u8.hash(&mut h);
    "https://a/".hash(&mut h);
    let k = key("GET", "https://a/");
    assert_eq!(k, format!("{:016x}", h.finish()));
    assert_eq!(meta_name(&k), format!("{k}.json"));
    assert_eq!(body_name(&k), format!("{k}.body"));
    assert_eq!(index_line("k", 200, 3, "GET", "u"), "k\t200\t3\tGET\tu");
    assert_eq!(miss_line("GET", "u"), "GET u");
    assert!(matches!(parse_mode("record"), Some(Mode::Record)));
    assert!(parse_mode("other").is_none());
}

#[test]
fn recorded_responses_are_replayed() {
    let headers = vec![
        ("Content-Encoding".to_string(), Some("gzip".to_string())),
        ("x".to_string(), Some("y".to_string())),
    ];
    let c = capture("GET", "https://a/", 404, &headers, vec![1, 2, 3]);
    assert_eq!(c.line, format!("{}\t404\t3\tGET\thttps://a/", key("GET", "https://a/")));
    let again = lookup(Some(&c.meta), Some(c.stored.body.clone())).unwrap();
    assert_eq!(again.status, c.stored.status);
    assert_eq!(again.headers, c.stored.headers);
    assert_eq!(again.headers, pairs(&[("x", "y")]));
    assert_eq!(again.body, [1, 2, 3]);
    assert_eq!(
        c.meta,
        r#"{"headers":[["x","y"]],"method":"GET","status":404,"url":"https://a/"}"#
    );
    let other = r#"{"url":"u","status":200,"headers":[["a","b"]],"method":"GET","more":1}"#;
    assert_eq!(lookup(Some(other), None).unwrap().headers, pairs(&[("a", "b")]));
    assert!(lookup(None, Some(vec![1])).is_none());
    assert!(lookup(Some("{"), None).is_none());
    assert!(lookup(Some(r#"{"headers":[],"method":"GET","status":65536,"url":"u"}"#), None).is_none());
    assert!(lookup(Some(r#"{"headers":[["a"]],"method":"GET","status":200,"url":"u"}"#), None).is_none());
}

#[test]
fn replay_never_fetches() {
    assert!(matches!(step(Mode::Replay, false), Step::Read));
    assert!(matches!(step(Mode::Record, false), Step::Fetch));
    assert!(matches!(step(Mode::Record, true), Step::Read));
    let miss = answer(Mode::Replay, None);
    assert_eq!(miss.status, GATEWAY_TIMEOUT);
    assert!(miss.missed);
    let kept = keep_headers(&vec![
        ("Content-Length".to_string(), Some("3".to_string())),
        ("content-type".to_string(), Some("text/html".to_string())),
        ("x".to_string(), None),
    ]);
    assert_eq!(kept, pairs(&[("content-type", "text/html")]));
    let meta = Meta { method: "GET".to_string(), url: "u".to_string(), status: 200, headers: kept };
    let stored: Stored = lookup(Some(&meta_text(&meta)), None).unwrap();
    assert!(stored.body.is_empty());
    let hit = answer(Mode::Replay, Some(stored));
    assert_eq!(hit.status, 200);
    assert!(!hit.missed);
}

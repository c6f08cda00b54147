//! Starting up, and the sandbox's own test.

use navgator::codec::Rgb;
use navgator::dashboard::{draw_dashboard, ends_row, sections, site, Section};
use navgator::sandbox::{
    connect_probe, exec_probe, file_probe, guarded_files, run_sandbox_selftest, sandbox_enabled,
    socket_probe,
};
use navgator::settings::{Catalog, Modules, Settings, Theme};
use navgator::startup::{
    build_number, config_dir, config_file, control_socket, default_message, desktop_entry,
    desktop_main, engine_options, navgator_preferences, open_window, os_prefers_dark, prepend,
    restored_session, with_primary, DefaultStep, Launch,
};

fn catalog() -> Catalog {
    Catalog {
        bases: strings(&["obsidian", "porcelain"]),
        accents: strings(&["blue"]),
        densities: strings(&["comfy"]),
        fonts: strings(&["grotesk"]),
        wallpapers: strings(&["none"]),
        top: "top".to_string(),
        left: "left".to_string(),
        fill: "fill".to_string(),
        fit: "fit".to_string(),
        light_bases: strings(&["porcelain"]),
        colours: Vec::new(),
        other_colour: Rgb { red: 1, green: 2, blue: 3 },
    }
}

fn strings(v: &[&str]) -> Vec<String> {
    v.iter().map(|s| s.to_string()).collect()
}

fn settings() -> Settings {
    let theme = Theme {
        base: "porcelain".to_string(),
        accent: "blue".to_string(),
        density: "comfy".to_string(),
        font: "grotesk".to_string(),
        tab_pos: "top".to_string(),
        wallpaper: "none".to_string(),
        tab_fit: "fit".to_string(),
        radius: 10,
        glass: 20,
        tab_max_w: 200,
    };
    let modules = Modules { clock: true, search: true, sites: true, notes: false, feed: false };
    Settings::with_look(theme, modules)
}

#[test]
fn files_lie_in_the_browsers_directory() {
    assert_eq!(config_file(Some("/x"), Some("/h"), "a.txt").as_deref(), Some("/x/navgator/a.txt"));
    assert_eq!(config_file(None, Some("/h/"), "a.txt").as_deref(), Some("/h/.config/navgator/a.txt"));
    assert_eq!(config_file(None, None, "a.txt"), None);
    assert_eq!(config_file(Some(""), None, "a.txt").as_deref(), Some("navgator/a.txt"));
    assert_eq!(config_dir(Some("/x"), None).as_deref(), Some("/x/navgator"));
    for (base, name) in [("/x", "a"), ("/x/", "a"), ("", "a"), ("/x", "/a")] {
        let path = std::path::PathBuf::from(base).join("navgator").join(name);
        assert_eq!(config_file(Some(base), None, name).as_deref(), path.to_str());
    }
}

#[test]
fn the_environment_names_the_control_socket() {
    assert_eq!(control_socket(Some("/a"), Some("/b")).as_deref(), Some("/a"));
    assert_eq!(control_socket(None, Some("/b")).as_deref(), Some("/b"));
    assert_eq!(control_socket(None, None), None);
}

#[test]
fn a_process_knows_what_it_is_for() {
    assert!(matches!(desktop_main(&strings(&["n"])), Launch::Browser));
    assert!(matches!(desktop_main(&strings(&["n", "https://a"])), Launch::Browser));
    assert!(matches!(desktop_main(&strings(&["n", "--sandbox-selftest"])), Launch::SelfTest));
    assert!(matches!(desktop_main(&strings(&["n", "--content-process"])), Launch::NoToken));
    match desktop_main(&strings(&["n", "--content-process", "tok"])) {
        Launch::Content(t) => assert_eq!(t, "tok"),
        other => panic!("{other:?}"),
    }
}

#[test]
fn the_engine_is_set_up() {
    let o = engine_options(false, true, false, Some("/x"), None);
    assert!(o.multiprocess && !o.sandbox);
    assert_eq!(o.config_dir.as_deref(), Some("/x/navgator"));
    let o = engine_options(true, true, true, None, None);
    assert!(!o.multiprocess && o.sandbox && o.config_dir.is_none());
    assert!(!sandbox_enabled(false, true));
    let p = navgator_preferences();
    assert_eq!(p.len(), 25);
    assert_eq!(p[0], "dom_intersection_observer_enabled");
    assert_eq!(p[24], "layout_writing_mode_enabled");
}

#[test]
fn an_address_takes_the_sessions_place() {
    let file = Some("https://a.com/\n#PANE1\nhttps://b.com/\n");
    assert_eq!(restored_session(true, file), (vec![], vec![]));
    assert_eq!(restored_session(false, file), (strings(&["https://a.com/"]), strings(&["https://b.com/"])));
    assert_eq!(restored_session(false, None), (vec![], vec![]));
    assert_eq!(open_window(vec![], "gator://welcome"), ["gator://welcome"]);
    assert_eq!(open_window(strings(&["https://a/"]), "gator://welcome"), ["https://a/"]);
}

#[test]
fn the_look_follows_the_system() {
    assert!(os_prefers_dark(Some("dark"), false));
    assert!(!os_prefers_dark(Some("light"), true));
    assert!(os_prefers_dark(Some("other"), true));
    assert!(!os_prefers_dark(None, false));
    let c = catalog();
    let mut s = settings();
    s.follow_system(false, &c, "obsidian");
    assert_eq!(s.theme.base, "porcelain");
    s.follow_system(true, &c, "obsidian");
    assert_eq!(s.theme.base, "obsidian");
    assert_eq!(s.accent, "#010203");
    assert!(s.dark);
    let mut chosen = settings();
    chosen.theme_base_explicit = true;
    chosen.follow_system(true, &c, "obsidian");
    assert_eq!(chosen.theme.base, "porcelain");
}

#[test]
fn pages_are_switched_to_dark_and_back() {
    let mut s = settings();
    assert!(s.toggle_force_dark());
    assert!(s.force_dark);
    assert!(!s.toggle_force_dark());
}

#[test]
fn the_launcher_opens_links() {
    let e = desktop_entry("/usr/bin/navgator");
    assert!(e.starts_with("[Desktop Entry]\nVersion=1.0\nName=NavGator\n"));
    assert!(e.contains("\nExec=/usr/bin/navgator %u\n"));
    assert!(e.ends_with("StartupNotify=true\n"));
    assert_eq!(default_message(DefaultStep::NoHome), "No HOME directory.");
    assert_eq!(default_message(DefaultStep::NoBinary), "Could not locate the NavGator binary.");
    assert_eq!(default_message(DefaultStep::NoDirectory), "Could not create ~/.local/share/applications.");
    assert_eq!(default_message(DefaultStep::NotWritten), "Could not write navgator.desktop.");
    assert!(default_message(DefaultStep::Registered).starts_with("NavGator is now your default browser"));
}

#[test]
fn builds_are_numbered() {
    assert_eq!(build_number(Some("12"), Some("7\n")), "12");
    assert_eq!(build_number(Some("  "), Some("7\n")), "7");
    assert_eq!(build_number(None, Some("\n")), "0");
    assert_eq!(build_number(None, None), "0");
}

#[test]
fn fonts_fall_back() {
    assert_eq!(prepend(strings(&["a"]), &strings(&["x", "y"])), ["x", "y", "a"]);
    assert_eq!(with_primary("y", &strings(&["x", "y", "a"])), ["y", "x", "a"]);
}

#[test]
fn a_search_empties_the_field() {
    let all = Modules { clock: true, search: true, sites: true, notes: true, feed: true };
    let mut s = "  cats ".to_string();
    assert_eq!(draw_dashboard(all, &mut s, false, None), None);
    assert_eq!(draw_dashboard(all, &mut s, true, None).as_deref(), Some("cats"));
    assert_eq!(s, "");
    let mut blank = "  ".to_string();
    assert_eq!(draw_dashboard(all, &mut blank, true, None), None);
    assert_eq!(blank, "  ");
    let mut s = "cats".to_string();
    assert_eq!(draw_dashboard(all, &mut s, true, Some(1)).as_deref(), Some("github.com"));
    assert_eq!(s, "");
    assert_eq!(draw_dashboard(all, &mut s, true, Some(10)), None);
    let mut s = "cats".to_string();
    let no_field = Modules { search: false, sites: false, ..all };
    assert_eq!(draw_dashboard(no_field, &mut s, true, Some(1)), None);
    assert_eq!(s, "cats");
}

#[test]
fn the_new_tab_page_has_its_sections() {
    let all = Modules { clock: true, search: true, sites: true, notes: true, feed: true };
    assert_eq!(
        sections(all),
        [Section::Clock, Section::Search, Section::Sites, Section::NotesAndReading]
    );
    assert_eq!(
        sections(Modules { clock: false, search: false, sites: false, notes: false, feed: true }),
        [Section::Reading]
    );
    assert_eq!(
        sections(Modules { clock: false, search: false, sites: true, notes: true, feed: false }),
        [Section::Sites, Section::Notes]
    );
    let maps = site(9).unwrap();
    assert_eq!((maps.name, maps.letter, maps.hue, maps.domain), ("Maps", 'M', 230, "maps.google.com"));
    assert!(site(10).is_none());
    assert!(ends_row(4) && ends_row(9) && !ends_row(0));
}

#[test]
fn the_sandbox_is_tested() {
    assert_eq!(guarded_files(Some("/h")), ["/h/.ssh/id_rsa", "/etc/shadow"]);
    assert_eq!(guarded_files(None)[0], "/root/.ssh/id_rsa");
    let denied = vec![
        file_probe("/etc/shadow", Some("denied".to_string())),
        connect_probe("1.1.1.1:80", Some("no route".to_string())),
        socket_probe(Some("denied".to_string())),
        exec_probe(false),
    ];
    let (report, code) = run_sandbox_selftest(true, "Applied", &denied);
    assert_eq!(code, 0);
    assert_eq!(
        report,
        "\n=== navgator sandbox selftest ===\nsandbox outcome: Applied\n\n  \
         [gate] file-read     -> DENIED   (/etc/shadow: denied)\n  \
         [gate] tcp-connect   -> DENIED   (1.1.1.1:80: no route)\n  \
         [gate] inet-socket   -> DENIED   (UDP/AF_INET bind: denied)\n  \
         [info] process-exec  -> ALLOWED   (/bin/true spawn (informational until seccomp enforce))\n\n\
         result: PASS (all hard gates denied)\n"
    );
}

#[test]
fn one_leak_fails_the_sandbox() {
    let probes = vec![file_probe("/etc/shadow", None), connect_probe("1.1.1.1:80", Some("x".to_string()))];
    assert_eq!(probes[0].detail, "/etc/shadow: OPENED (leak!)");
    let (report, code) = run_sandbox_selftest(true, "Applied", &probes);
    assert_eq!(code, 1);
    assert!(report.ends_with("result: FAIL (a forbidden op was ALLOWED)\n"));
    assert_eq!(run_sandbox_selftest(false, "Stub", &probes).1, 0);
    assert_eq!(connect_probe("a:1", None).detail, "a:1: CONNECTED (leak!)");
    assert!(socket_probe(None).detail.contains("CREATED (leak!"));
}

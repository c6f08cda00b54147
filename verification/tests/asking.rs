//! Permissions, dialogs, add-ons and their bridge, keys and the pointer.

use std::collections::hash_map::DefaultHasher;
use std::hash::{Hash, Hasher};

use navgator::addons::{
    describe_match_pattern, inject_userscripts, is_bare_script, name_permissions,
    scan_userscript_files, switch_label, Addon, MatchPattern, Permission, PermissionSet,
    PermissionTexts, Registry, Script,
};
use navgator::bridge::{
    addon_cap_token, addon_storage_load, addon_storage_path, addon_storage_save, connect_allows,
    delete_value, deny, handle_gm_bridge, keys_answer, permitted_call, put_value, read_args,
    stored_answer, value_answer, BridgeStep,
};
use navgator::codec::Rgb;
use navgator::dialogs::{
    flatten_options, offers, request_authentication, show_embedder_control, Control, Dialog,
    DialogDeed, DialogEvent, DialogQueue, SelectItem, SelectOpt, SimpleKind, MAX_DIALOGS,
};
use navgator::input::{
    counts_from_divider, cursor_moved, key_for_page, keyboard_input, mouse_input, mouse_wheel,
    resize_cursor, resize_direction_at, Button, ButtonAction, ChromeFlags, Edges, KeyAction,
    KeyContext, KeyShortcut, PageKey, PendingShortcuts, Pointer, PointerShape, PressedKey,
    ResizeCursor, ResizeDirection, ShortcutDeed, WheelAction, MAX_PENDING,
};
use navgator::json::{parse_json, Json};
use navgator::omnibar::{
    bookmark_labels, is_command_entry, list_commands, list_rows, omnibar_step, omnibar_verb,
    zoom_mark, OmniDeed, OmniEvent, OmniPick, ToolbarClick, ToolbarDeed,
};
use navgator::permissions::{origin_that_asks, Ledger, PermissionAnswer, PermissionStep};
use navgator::profile::{Bookmark, HistoryEntry, Profile};
use navgator::window::TabWindow;

fn s(x: &str) -> String {
    x.to_string()
}

#[test]
fn standing_answers_hold() {
    let mut l = Ledger::new();
    match l.request("https://a", "Camera") {
        PermissionStep::Ask(q) => assert_eq!(q, "https://a is requesting permission: Camera"),
        other => panic!("{other:?}"),
    }
    assert_eq!(l.answer("https://a", "Camera", PermissionAnswer::AllowOnce), (true, false));
    assert!(matches!(l.request("https://a", "Camera"), PermissionStep::Ask(_)));
    l.answer("https://a", "Camera", PermissionAnswer::BlockAlways);
    assert!(matches!(l.request("https://a", "Camera"), PermissionStep::Deny));
    l.answer("https://a", "Camera", PermissionAnswer::AllowAlways);
    assert!(matches!(l.request("https://a", "Camera"), PermissionStep::Allow));
    let back = Ledger::load(&l.save());
    assert_eq!(back.get("https://a", "Camera"), Some(true));
    assert_eq!(back.get("https://b", "Camera"), None);
    assert_eq!(origin_that_asks(Some("https://a/x")), "https://a");
    assert_eq!(origin_that_asks(None), "");
}

#[test]
fn dialogs_answer_once() {
    let mut q = DialogQueue::new();
    let prompt = show_embedder_control(Control::Simple(SimpleKind::Prompt, s("Name?"), s("Ada")), 4).unwrap();
    assert_eq!(prompt.title(), "Prompt");
    assert!(q.push_dialog(prompt));
    assert!(q.push_dialog(request_authentication("https://a/", false, 5)));
    let deeds = q.draw_dialogs(&vec![DialogEvent::Accept, DialogEvent::Nothing], false, false);
    assert!(deeds.iter().any(|d| matches!(d, DialogDeed::ConfirmWith(4, t) if t == "Ada")));
    assert_eq!(q.items.len(), 1);
    let deeds = q.draw_dialogs(&vec![DialogEvent::Cancel], false, false);
    assert!(deeds.iter().any(|d| matches!(d, DialogDeed::Cancel(5))));
    assert!(q.items.is_empty());
    for i in 0..(MAX_DIALOGS as u64 + 3) {
        q.push_dialog(Dialog::ContextMenu { handle: i });
    }
    assert_eq!(q.items.len(), MAX_DIALOGS);
}

#[test]
fn an_alert_cannot_be_cancelled() {
    let d = show_embedder_control(Control::Simple(SimpleKind::Alert, s("x"), s("")), 1).unwrap();
    assert!(matches!(d.draw_one_dialog(DialogEvent::Cancel, false, false), (DialogDeed::Nothing, true)));
    assert!(matches!(d.draw_one_dialog(DialogEvent::Accept, false, false), (DialogDeed::Confirm(1), false)));
    let menu = Dialog::ContextMenu { handle: 2 };
    assert!(matches!(menu.draw_one_dialog(DialogEvent::Back, false, false), (DialogDeed::Nothing, true)));
    assert!(matches!(menu.draw_one_dialog(DialogEvent::Back, true, false).0, DialogDeed::GoBack));
}

#[test]
fn colours_and_choices_are_picked() {
    let c = show_embedder_control(Control::Color(Some(Rgb { red: 1, green: 2, blue: 3 })), 9).unwrap();
    match c.draw_one_dialog(DialogEvent::Accept, false, false) {
        (DialogDeed::Pick(9, Some(c)), false) => assert_eq!((c.red, c.green, c.blue), (1, 2, 3)),
        other => panic!("{other:?}"),
    }
    let items = vec![SelectItem::Group(s("G"), vec![SelectOpt { id: Some(3), label: s("x"), disabled: false }])];
    let rows = flatten_options(&items);
    assert_eq!(rows.len(), 2);
    assert!(rows[0].id.is_none() && rows[0].disabled);
    let d = show_embedder_control(Control::Select(items), 8).unwrap();
    assert!(matches!(d.draw_one_dialog(DialogEvent::Chosen(0), false, false), (DialogDeed::Nothing, true)));
    assert!(matches!(d.draw_one_dialog(DialogEvent::Chosen(1), false, false), (DialogDeed::Select(8, 3), false)));
    assert!(show_embedder_control(Control::Other, 1).is_none());
    assert!(offers(&vec![], None));
    assert!(offers(&vec![s("png")], Some("PNG")));
    assert!(!offers(&vec![s("png")], Some("txt")));
}

fn addon(id: &str, enabled: bool) -> Addon {
    let mut requested = PermissionSet::new();
    requested.storage = true;
    Addon {
        id: s(id),
        name: s(id),
        version: s("1"),
        enabled,
        requested,
        granted: if enabled { requested } else { PermissionSet::new() },
        matches: vec![],
        connect: vec![s("*.api.com")],
        path: s("/x"),
        content_hash: 7,
    }
}

#[test]
fn a_changed_script_asks_again() {
    let mut r = Registry::new();
    r.load_addons(vec![Script { file_name: s("a.user.js"), has_metadata: true, addon: addon("a", true) }]);
    assert!(!r.addons[0].enabled, "a new script waits for consent");
    r.set_addon_consent("a", true);
    assert!(r.addons[0].enabled && r.addons[0].granted.contains(Permission::Storage));
    r.load_addons(vec![Script { file_name: s("a.user.js"), has_metadata: true, addon: addon("a", false) }]);
    assert!(r.addons[0].enabled, "an unchanged script keeps its switch");
    let mut more = addon("a", false);
    more.content_hash = 8;
    more.requested.clipboard = true;
    r.load_addons(vec![Script { file_name: s("a.user.js"), has_metadata: true, addon: more }]);
    assert!(!r.addons[0].enabled, "more permissions need consent");
    assert!(!r.addons[0].granted.contains(Permission::Clipboard));
    r.load_addons(vec![]);
    assert!(r.addons.is_empty(), "what is not on disk is forgotten");
    r.load_addons(vec![Script { file_name: s("x.js"), has_metadata: true, addon: addon("x", false) }]);
    assert!(!r.addons[0].enabled, "a bare name does not make a script with metadata trusted");
    r.load_addons(vec![]);
    r.load_addons(vec![Script { file_name: s("x.js"), has_metadata: false, addon: addon("x", false) }]);
    assert!(r.addons[0].enabled, "a bare script without metadata is trusted");
}

#[test]
fn consent_is_asked_for() {
    let t = PermissionTexts { storage: s("st"), cross_origin_fetch: s("net"), notifications: s("n"), tab_control: s("t"), clipboard: s("c") };
    let mut r = Registry::new();
    r.upsert(addon("a", false));
    r.upsert(addon("b", true));
    let mut q = DialogQueue::new();
    r.prompt_pending_consents(&t, &mut q);
    assert_eq!(q.items.len(), 1);
    assert_eq!(q.items[0].title(), "Enable userscript?");
    match q.items[0].draw_one_dialog(DialogEvent::Enable, false, false) {
        (DialogDeed::EnableAddon(id), false) => assert_eq!(id, "a"),
        other => panic!("{other:?}"),
    }
    let mut p = PermissionSet::new();
    p.clipboard = true;
    assert_eq!(name_permissions(p, &t), ["c"]);
    assert_eq!(r.enabled_matching(&vec![true, true]), ["b"]);
    assert_eq!(r.popover_rows(&vec![false, true]).len(), 2);
    r.remove_addon("a");
    assert_eq!(r.position("a"), None);
    assert_ne!(switch_label(true), switch_label(false));
}

#[test]
fn scripts_are_found_in_order() {
    let names: Vec<String> = ["b.js", "notes.txt", "a.user.js", ".js", "B.js"].iter().map(|n| s(n)).collect();
    assert_eq!(scan_userscript_files(&names), [4, 2, 0]);
    assert!(is_bare_script("b.js"));
    assert!(!is_bare_script("a.user.js"));
    let p = MatchPattern::Match { scheme: s("*"), host: s("*.a.com"), path: s("/*"), all_urls: false };
    assert_eq!(describe_match_pattern(&p), "http(s)://*.a.com/*");
    let i = inject_userscripts(&vec![s("a"), s("b")], &vec![s("b"), s("c")]);
    assert_eq!(i.remove, ["a"]);
    assert_eq!(i.insert, ["c"]);
    assert_eq!(i.keep, ["b"]);
}

#[test]
fn the_bridge_knows_its_callers() {
    let salt = [5u8; 16];
    let mut h = DefaultHasher::new();
    salt.hash(&mut h);
    "a".hash(&mut h);
    let cap = addon_cap_token(&salt, "a");
    assert_eq!(cap, format!("{:016x}", h.finish()));
    let mut r = Registry::new();
    r.upsert(addon("a", true));
    let args = vec![(s("a"), s(r#"{"key":"k","value":[1]}"#))];
    match handle_gm_bridge(&r, &salt, &format!("/{cap}/storage.set"), &args) {
        BridgeStep::Put(id, k, v) => {
            assert_eq!((id.as_str(), k.as_str()), ("a", "k"));
            assert!(matches!(v, Json::List(_)));
        }
        _ => panic!("a put"),
    }
    let denied = |path: &str| match handle_gm_bridge(&r, &salt, path, &args) {
        BridgeStep::Deny(why) => why,
        _ => "allowed",
    };
    assert_eq!(denied("x"), "bad-path");
    assert_eq!(denied("/"), "no-cap");
    assert_eq!(denied("/0000/storage.get"), "bad-cap");
    assert_eq!(denied(&format!("/{cap}/zzz")), "unknown-call");
    assert_eq!(denied(&format!("/{cap}/tabs.open")), "permission-denied");
    let a = addon("a", true);
    let fetch = |u: &str| match permitted_call(&a, "net.fetch", parse_json(&format!(r#"{{"url":"{u}"}}"#)).unwrap()) {
        BridgeStep::Deny(why) => why,
        _ => "allowed",
    };
    assert_eq!(fetch("https://x.api.com/"), "net-fetch-unimplemented");
    assert_eq!(fetch("https://evil.com/"), "connect-not-allowed");
    assert_eq!(fetch("nonsense"), "bad-url");
    assert!(matches!(read_args(&vec![]), Json::Null));
    assert!(connect_allows(&vec![s("*.API.com")], "api.com"));
    assert!(!connect_allows(&vec![s("api.com")], "notapi.com"));
    assert!(!connect_allows(&vec![], "api.com"));
}

#[test]
fn add_ons_keep_values() {
    let mut m = addon_storage_load(Some(r#"{"a":1}"#));
    put_value(&mut m, "b", Json::Bool(true));
    put_value(&mut m, "a", Json::Null);
    assert_eq!(m.len(), 2);
    assert!(keys_answer(&m).contains("\"b\""));
    delete_value(&mut m, "a");
    let kept = addon_storage_save(m);
    assert!(kept.contains("\"b\""));
    assert!(value_answer(addon_storage_load(Some(&kept)), "b").contains("true"));
    assert!(addon_storage_load(None).is_empty());
    assert_eq!(addon_storage_path("us-1"), "addon-storage/us-1.json");
    assert!(deny("no").contains("no"));
    assert_ne!(stored_answer(true), stored_answer(false));
}

#[test]
fn stores_survive_a_restart() {
    let mut m = addon_storage_load(None);
    put_value(&mut m, "b", parse_json(r#"{"x":[1,-2,"\u00e9\n"]}"#).unwrap());
    put_value(&mut m, "c", Json::Null);
    put_value(&mut m, "a", Json::Bool(false));
    let names: Vec<&str> = m.iter().map(|x| x.0.as_str()).collect();
    assert_eq!(names, ["a", "b", "c"]);
    assert_eq!(keys_answer(&m), r#"{"keys":["a","b","c"],"ok":true}"#);
    let file = addon_storage_save(m);
    let back = addon_storage_load(Some(&file));
    assert_eq!(addon_storage_save(back), file);
    let back = addon_storage_load(Some(&file));
    assert_eq!(value_answer(back, "b"), r#"{"ok":true,"value":{"x":[1,-2,"é\n"]}}"#);
    assert_eq!(value_answer(addon_storage_load(Some(&file)), "z"), r#"{"ok":true}"#);
}

#[test]
fn deep_texts_are_not_read() {
    let deep = |n: usize| format!("{}{}", "[".repeat(n), "]".repeat(n));
    assert!(parse_json(&deep(127)).is_some());
    assert!(parse_json(&deep(128)).is_none());
}

#[test]
fn the_toolbar_shows_and_does() {
    let mut w = TabWindow::new();
    let t = w.toolbar(0, false, 100, false);
    assert!(!t.back && !t.forward && !t.save_login && !t.command);
    assert!(t.addons.is_none() && t.zoom.is_none());
    assert_eq!((t.star, t.maximise), ("☆", "Maximize"));
    assert!(matches!(w.click_toolbar(ToolbarClick::Reload, false, false), ToolbarDeed::Nothing));
    w.adopt_tab(1);
    w.notify_url_changed(1, "https://a.com/", "https");
    w.notify_history_changed(1, 2, 1);
    w.click_toolbar(ToolbarClick::Star, false, false);
    let t = w.toolbar(2, true, 110, true);
    assert!(t.back && !t.forward && t.save_login);
    assert_eq!(t.addons.as_deref(), Some("2"));
    assert_eq!(t.zoom.as_deref(), Some("110%"));
    assert_eq!((t.star, t.maximise), ("★", "Restore"));
    assert!(matches!(w.click_toolbar(ToolbarClick::Back, false, false), ToolbarDeed::GoBack));
    assert!(matches!(w.click_toolbar(ToolbarClick::Forward, false, false), ToolbarDeed::Nothing));
    assert!(matches!(w.click_toolbar(ToolbarClick::SaveLogin, false, false), ToolbarDeed::Nothing));
    assert!(matches!(w.click_toolbar(ToolbarClick::Maximise, false, true), ToolbarDeed::SetMaximised(false)));
    assert!(matches!(w.click_toolbar(ToolbarClick::Settings, false, false), ToolbarDeed::Open("gator://settings")));
    w.click_toolbar(ToolbarClick::Close, false, false);
    assert!(w.wants_close);
    let mut p = Profile::new();
    w.toggle_bookmark_active(&mut p, 3);
    assert_eq!(p.bookmarks[0].url, "https://a.com/");
    assert_eq!(w.bookmark_target(&p.bookmarks, 0).as_deref(), Some("https://a.com/"));
    assert_eq!(w.bookmark_target(&p.bookmarks, 1), None);
    w.toggle_bookmark_active(&mut p, 4);
    assert!(p.bookmarks.is_empty());
}

fn ctrl() -> KeyContext {
    KeyContext {
        pressed: true,
        ctrl: true,
        shift: false,
        alt: false,
        consumed: false,
        dialog_open: false,
        find_open: false,
        fullscreen: false,
        tabs: 3,
        active: 2,
    }
}

#[test]
fn shortcuts_belong_to_the_browser_or_the_page() {
    let key = |k: &str| PressedKey::Character(s(k));
    assert!(matches!(keyboard_input(&key("t"), ctrl()), KeyAction::NewTab));
    assert!(matches!(keyboard_input(&key("T"), KeyContext { shift: true, ..ctrl() }), KeyAction::ReopenTab));
    assert!(matches!(keyboard_input(&key("9"), ctrl()), KeyAction::SelectTab(2)));
    assert!(matches!(keyboard_input(&PressedKey::Tab, ctrl()), KeyAction::SelectTab(0)));
    assert!(matches!(keyboard_input(&PressedKey::Tab, KeyContext { shift: true, ..ctrl() }), KeyAction::SelectTab(1)));
    assert!(matches!(keyboard_input(&key("f"), ctrl()), KeyAction::Offer(KeyShortcut::Find, _)));
    assert!(matches!(keyboard_input(&key("f"), KeyContext { dialog_open: true, ..ctrl() }), KeyAction::Run(KeyShortcut::Find)));
    assert!(matches!(keyboard_input(&key("t"), KeyContext { alt: true, ..ctrl() }), KeyAction::Forward(..)));
    assert!(matches!(keyboard_input(&key("x"), KeyContext { ctrl: false, dialog_open: true, ..ctrl() }), KeyAction::Nothing));
    assert!(matches!(key_for_page(&PressedKey::Space), Some(PageKey::Character(c)) if c == " "));
    assert!(key_for_page(&PressedKey::F5).is_none());
}

#[test]
fn pages_may_keep_a_shortcut() {
    let mut p = PendingShortcuts::new();
    p.remember(1, KeyShortcut::Find);
    p.remember(2, KeyShortcut::Bookmark);
    assert_eq!(p.notify_input_event_handled(1, true, false), None);
    assert_eq!(p.notify_input_event_handled(1, false, false), None);
    assert_eq!(p.notify_input_event_handled(2, false, false), Some(KeyShortcut::Bookmark));
    for i in 0..(3 * MAX_PENDING as u64) {
        p.remember(i, KeyShortcut::Find);
    }
    let mut w = TabWindow::new();
    let mut f = ChromeFlags { focus_omnibox: false, find_open: false, find_focus: false, show_console: false, console_filter_focus: false };
    assert!(matches!(w.run_key_shortcut(&mut f, KeyShortcut::Find), ShortcutDeed::Nothing));
    assert!(f.find_open && f.find_focus);
    assert!(matches!(w.run_key_shortcut(&mut f, KeyShortcut::History), ShortcutDeed::Nothing));
    w.adopt_tab(1);
    assert!(matches!(w.run_key_shortcut(&mut f, KeyShortcut::History), ShortcutDeed::OpenHistory));
    w.run_key_shortcut(&mut f, KeyShortcut::CommandPalette);
    assert_eq!(w.location, ">");
}

#[test]
fn the_pointer_acts_where_it_is() {
    let e = Edges { top: true, bottom: false, left: true, right: false };
    assert_eq!(resize_direction_at(false, e), Some(ResizeDirection::NorthWest));
    assert_eq!(resize_direction_at(true, e), None);
    assert_eq!(resize_cursor(ResizeDirection::East), ResizeCursor::EastWest);
    let p = Pointer { resize: None, over_chrome: false, over_drag: false, left_of_divider: false, consumed: false, dialog_open: false, split: true, focused: 0 };
    let (a, focus) = mouse_input(Button::Left, true, p);
    assert_eq!(focus, 1, "a press focuses its pane");
    assert!(matches!(a, ButtonAction::ToPage(_)));
    let chrome = Pointer { over_chrome: true, ..p };
    assert!(!matches!(mouse_input(Button::Left, true, chrome).0, ButtonAction::ToPage(_)));
    assert!(matches!(cursor_moved(chrome).0, PointerShape::Controls));
    assert!(matches!(mouse_wheel(true, true, p), WheelAction::ZoomIn));
    assert!(!counts_from_divider(p));
    assert!(counts_from_divider(Pointer { focused: 1, ..p }));
}

#[test]
fn the_address_bar_lists_and_goes() {
    assert!(matches!(omnibar_verb("t mail"), Some(('t', r)) if r == "mail"));
    assert!(matches!(omnibar_verb("/word"), Some(('/', r)) if r == "word"));
    assert!(omnibar_verb("hello").is_none());
    assert!(is_command_entry(" >x"));
    let mut w = TabWindow::new();
    w.adopt_tab(1);
    w.notify_url_changed(1, "https://mail.com/", "https");
    let rows = list_rows("t MAIL", &w.pane0.tabs, &vec![], &vec![]);
    assert_eq!(rows.len(), 1);
    assert!(matches!(rows[0].pick, OmniPick::Tab(0)));
    let marks = vec![Bookmark { url: s("https://b/"), title: s("A very long bookmark title"), updated: 1 }];
    assert_eq!(list_rows("b ", &vec![], &marks, &vec![]).len(), 1);
    assert!(bookmark_labels(&marks)[0].chars().count() <= 18);
    let h = vec![HistoryEntry { url: s("https://news/"), title: s(""), visits: 1, updated: 1 }];
    assert_eq!(list_rows("new", &vec![], &vec![], &h).len(), 1);
    let names = vec![s("New tab"), s("Dark pages")];
    assert_eq!(list_commands(">dark", &names), [1]);
    let enter = OmniEvent { enter: true, clicked: None, escape: false };
    assert!(matches!(omnibar_step(">dark", enter, &vec![], &vec![1]), OmniDeed::Command(1)));
    let go = omnibar_step("cats", enter, &vec![], &vec![]);
    assert!(matches!(go, OmniDeed::Go(ref t) if t == "cats"));
    w.apply_omnibar(&go);
    assert_eq!(w.location, "cats");
    assert!(!w.location_dirty);
    w.edit_location("dogs");
    assert!(w.location_dirty);
    assert_eq!(zoom_mark(100), None);
    assert_eq!(zoom_mark(150).as_deref(), Some("150%"));
}

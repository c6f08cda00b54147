//! History, bookmarks, syncing, logins, and the encrypted stores.

use navgator::autofill::{AutofillProfile, AutofillStore};
use navgator::console::{message_colour, ConsoleLog, ConsoleLogLevel, MessageColour, MAX_MESSAGES};
use navgator::credentials::{
    autofill, credential_firewall_check, find_for_origin, read_form, save_login_active,
    unlock_passwords, Credential, FormStep, SaveStep,
};
use navgator::favicon::{
    capture_thumbnail, favicon_cache_path, favicon_to_png, fills_image, icon_to_cache, to_rgba,
    Image, PixelFormat, PREVIEW_WIDTH,
};
use navgator::highlights::{Highlight, HighlightMap, HighlightStore};
use navgator::merge::{
    chrome_millis, chrome_visit, firefox_mark, firefox_millis, firefox_visit,
    import_browser_history, imported_visits,
    load_sync_cursors, logins_to_open, password_record, save_sync_cursors, start_sync, sync_status_line, Cursors,
    RemoteMark, RemotePassword, RemoteVisit, SealedLogin, SyncOutcome, SyncStart,
};
use navgator::profile::{
    load_profile, save_bookmarks, save_history, suggestions, HistoryEntry, Profile, MAX_HISTORY,
    MAX_SUGGESTIONS,
};
use navgator::ranking::rank;
use navgator::unicode::{capital, find_letter, letter_for};

fn s(x: &str) -> String {
    x.to_string()
}

#[test]
fn visits_are_counted() {
    let mut p = Profile::new();
    p.record_visit("https://a/", "A", 1);
    p.record_visit("https://a/", "", 2);
    p.record_visit("gator://welcome", "W", 3);
    assert_eq!(p.history.len(), 1);
    assert_eq!(p.history[0].visits, 2);
    assert_eq!(p.history[0].title, "A");
    assert_eq!(p.history[0].updated, 2);
    for i in 0..(MAX_HISTORY + 10) {
        p.record_visit(&format!("https://x{i}/"), "", 4);
    }
    assert_eq!(p.history.len(), MAX_HISTORY);
}

#[test]
fn a_bookmark_toggles() {
    let mut p = Profile::new();
    p.toggle_bookmark("https://a/", "A", 1);
    assert_eq!(p.bookmarks.len(), 1);
    p.toggle_bookmark("https://a/", "A", 2);
    assert!(p.bookmarks.is_empty());
}

#[test]
fn profiles_survive_a_restart() {
    let mut p = Profile::new();
    p.record_visit("https://a/", "A\tb", -5);
    p.toggle_bookmark("https://b/", "B", 7);
    let (h, b) = (save_history(&p.history), save_bookmarks(&p.bookmarks));
    assert_eq!(h, "https://a/\tA b\t1\t-5\n");
    assert_eq!(b, "https://b/\tB\t7\n");
    let q = load_profile(Some(&h), Some(&b));
    assert_eq!(q.history[0].title, "A b");
    assert_eq!(q.history[0].updated, -5);
    assert_eq!(q.bookmarks[0].url, "https://b/");
    assert!(load_profile(None, None).history.is_empty());
}

#[test]
fn suggestions_are_the_most_visited() {
    let mut p = Profile::new();
    for i in 0..10 {
        for _ in 0..=i {
            p.record_visit(&format!("https://ab{i}/"), "", 1);
        }
    }
    let found = suggestions(&p.history, "AB");
    assert_eq!(found.len(), MAX_SUGGESTIONS);
    assert_eq!(found[0].0, "https://ab9/");
    assert!(suggestions(&p.history, "zzz").is_empty());
    assert_eq!(rank(&vec![1, 3, 3, 2]), [1, 2, 3, 0]);
}

#[test]
fn other_browsers_data_is_taken_over() {
    assert_eq!(chrome_millis(11_644_473_600_000_000 + 5000), 5);
    assert_eq!(chrome_millis(0), 0);
    assert_eq!(firefox_millis(7000), 7);
    assert_eq!(firefox_millis(-7999), -7);
    assert_eq!(imported_visits(-3), 0);
    assert_eq!(chrome_visit(s("u"), None, None, None), (s("u"), s(""), 1, 0));
    assert_eq!(firefox_visit(s("u"), Some(s("t")), Some(4), Some(9000)), (s("u"), s("t"), 4, 9));
    assert_eq!(firefox_mark(s("u"), None), (s("u"), s("u")));
    let mut p = Profile::new();
    let marks = vec![(s("https://a/"), s("A")), (s("https://a/"), s("again"))];
    let visits = vec![HistoryEntry { url: s("https://h/"), title: s("H"), visits: 3, updated: 9 }];
    assert_eq!(p.import(&marks, &visits, 1), "Imported 1 bookmark(s) + 1 history entry.");
    assert_eq!(p.import(&marks, &visits, 1), "No new bookmarks or history found (Chrome / Firefox / …).");
}

#[test]
fn syncing_never_goes_back() {
    let mut p = Profile::new();
    p.toggle_bookmark("https://a/", "new", 10);
    let out = SyncOutcome {
        ok: true,
        message: s("done"),
        bookmarks: vec![
            RemoteMark { url: s("https://a/"), title: s("old"), updated: 5, deleted: false },
            RemoteMark { url: s("https://b/"), title: s("b"), updated: 5, deleted: false },
        ],
        history: vec![RemoteVisit { url: s("https://h/"), title: s("h"), visits: 2, updated: 3, deleted: false }],
        passwords: Vec::new(),
        cursor_bookmarks: 7,
        cursor_history: 8,
        cursor_passwords: 9,
    };
    let c = p.apply_sync(&out).unwrap();
    assert_eq!((c.bookmarks, c.history, c.passwords), (7, 8, 9));
    assert_eq!(p.bookmarks[0].title, "new");
    assert_eq!(p.bookmarks.len(), 2);
    assert_eq!(p.history.len(), 1);
    p.apply_sync(&out);
    assert_eq!((p.bookmarks.len(), p.history.len()), (2, 1));
    let failed = SyncOutcome { ok: false, ..out };
    assert!(p.apply_sync(&failed).is_none());
}

#[test]
fn cursors_survive_a_restart() {
    let file = save_sync_cursors(Cursors { bookmarks: 1, history: -2, passwords: 3 });
    assert_eq!(file, "bookmarks=1\nhistory=-2\npasswords=3\n");
    let c = load_sync_cursors(Some(&file));
    assert_eq!((c.bookmarks, c.history, c.passwords), (1, -2, 3));
    assert_eq!(load_sync_cursors(None).bookmarks, 0);
}

#[test]
fn syncing_starts_only_when_it_can() {
    assert!(matches!(start_sync(true, "k", true, true, true, true), SyncStart::Busy));
    assert!(matches!(start_sync(false, " ", true, true, true, true), SyncStart::NoKey));
    let none = start_sync(false, "k", false, false, false, true);
    assert!(matches!(none, SyncStart::NoCollection));
    assert_eq!(sync_status_line(none).as_deref(), Some("Enable a collection to sync first."));
    let go = start_sync(false, "k", true, false, true, false);
    assert!(matches!(go, SyncStart::Go { bookmarks: true, history: false, passwords: false }));
    assert_eq!(sync_status_line(SyncStart::Busy), None);
    let (id, blob) = password_record("https://a", "ada", &[1, 255]);
    assert_eq!(blob, "01ff");
    assert!(id.contains("ada"));
}

fn sealed(username: &str, blob: Option<Vec<u8>>) -> SealedLogin {
    SealedLogin { origin: s("https://a"), username: s(username), blob, updated: 4 }
}

#[test]
fn sent_logins_are_opened_again() {
    let mut p = Profile::new();
    p.record_visit("https://a/", "A", 1);
    let sealed = vec![sealed("ada", Some(vec![1, 255])), sealed("bob", None), sealed("cy", Some(vec![16]))];
    let cursors = Cursors { bookmarks: 1, history: 2, passwords: 3 };
    let snapshot = p.snapshot("key", true, false, true, &sealed, cursors);
    assert_eq!(snapshot.api_key, "key");
    assert!(snapshot.sync_bookmarks && !snapshot.sync_history && snapshot.sync_passwords);
    assert_eq!(
        snapshot.passwords,
        vec![(s("https://a\u{1f}ada"), s("01ff"), 4), (s("https://a\u{1f}cy"), s("10"), 4)]
    );
    assert_eq!(snapshot.history.len(), 1);
    assert_eq!(snapshot.history[0].url, "https://a/");
    assert_eq!(snapshot.cursors.history, 2);
    assert!(p.snapshot("key", true, false, false, &sealed, cursors).passwords.is_empty());

    let mut back: Vec<RemotePassword> = snapshot
        .passwords
        .iter()
        .map(|r| RemotePassword { payload: r.1.clone(), deleted: false })
        .collect();
    back.push(RemotePassword { payload: s("no hex"), deleted: false });
    back.push(RemotePassword { payload: s("0a"), deleted: true });
    let out = SyncOutcome {
        ok: true,
        message: s("done"),
        bookmarks: Vec::new(),
        history: Vec::new(),
        passwords: back,
        cursor_bookmarks: 0,
        cursor_history: 0,
        cursor_passwords: 0,
    };
    assert_eq!(logins_to_open(&out, true), vec![vec![1u8, 255], vec![16]]);
    assert!(logins_to_open(&out, false).is_empty());
    let failed = SyncOutcome { ok: false, ..out };
    assert!(logins_to_open(&failed, true).is_empty());
}

fn login(origin: &str) -> Credential {
    Credential { origin: s(origin), username: s("ada"), password: s("p\"w"), updated: 1 }
}

#[test]
fn logins_are_filled_in_at_home() {
    let v = vec![login("https://a.com")];
    assert_eq!(autofill("F", true, &v, "https://a.com/in").as_deref(), Some("(F)(\"ada\", \"p\\\"w\")"));
    assert_eq!(autofill("F", false, &v, "https://a.com/in"), None);
    assert_eq!(autofill("F", true, &v, "https://b.com/"), None);
    assert_eq!(find_for_origin(&v, "https://a.com"), Some(0));
    assert_eq!(find_for_origin(&v, "https://b.com"), None);
}

#[test]
fn lookalikes_are_warned_of() {
    let v = vec![login("https://paypal.com")];
    let warning = credential_firewall_check(true, &v, "https://paypa1.com", "paypa1.com").unwrap();
    assert!(warning.contains("paypal.com") && warning.contains("paypa1.com"));
    assert!(credential_firewall_check(true, &v, "https://paypal.com", "paypal.com").is_none());
    assert!(credential_firewall_check(false, &v, "https://paypa1.com", "paypa1.com").is_none());
    assert!(credential_firewall_check(true, &v, "https://other.org", "other.org").is_none());
    assert!(credential_firewall_check(true, &v, "", "").is_none());
}

#[test]
fn logins_are_saved_from_forms() {
    assert!(matches!(save_login_active("gator://x", true), SaveStep::Tell(m) if m.contains("http(s)")));
    assert!(matches!(save_login_active("https://a.com/x", false), SaveStep::Tell(m) if m.contains("Unlock")));
    assert!(matches!(save_login_active("https://a.com/x", true), SaveStep::Read(o) if o == "https://a.com"));
    match read_form(r#"{"u":"ada","p":"pw"}"#, "https://a.com", 4) {
        FormStep::Save(c, m) => {
            assert_eq!((c.username.as_str(), c.password.as_str(), c.updated), ("ada", "pw", 4));
            assert_eq!(m, "Saved login for https://a.com.");
        }
        other => panic!("{other:?}"),
    }
    assert!(!matches!(read_form(r#"{"u":"ada","p":""}"#, "o", 4), FormStep::Save(..)));
    assert_eq!(unlock_passwords(Ok(2), true), (s("Password store unlocked (2 saved)."), true));
    assert_eq!(unlock_passwords(Err(s("no")), true), (s("Unlock failed: no"), false));
}

#[test]
fn the_identity_is_kept_under_lock() {
    let mut a = AutofillStore::load(s("/x"));
    assert!(!a.is_unlocked());
    assert!(a.profile().is_blank());
    assert_eq!(a.path(), "/x");
    assert_eq!(a.unlock(Some(&vec![1]), Err(s("wrong"))), Err(s("wrong")));
    assert!(!a.is_unlocked());
    let mut p = AutofillProfile::default();
    p.city = s("Turin");
    assert!(!p.is_blank());
    p.email = s("a\"b\n@c");
    p.updated = -7;
    a.set_profile(p);
    let plain = a.save();
    let mut b = AutofillStore::load(s("/x"));
    assert_eq!(b.unlock(Some(&vec![1]), Ok(Some(plain))), Ok(()));
    assert!(b.is_unlocked());
    assert_eq!((b.profile().city.as_str(), b.profile().email.as_str()), ("Turin", "a\"b\n@c"));
    assert_eq!(b.profile().updated, -7);
    assert_eq!(b.unlock(Some(&vec![1]), Ok(Some(s("{\"city\":\"Turin\"}")))), Ok(()));
    assert!(b.profile().is_blank(), "an identity has every field");
    assert_eq!(a.unlock(None, Err(s("unused"))), Ok(()));
    assert!(a.is_unlocked() && a.profile().is_blank(), "a missing file unlocks an empty identity");
    a.set_profile(AutofillProfile::default());
    assert!(a.profile().is_blank());
    a.lock();
    assert!(!a.is_unlocked());
    assert_eq!(a.unlock(None, Err(s("unused"))), Ok(()));
    assert!(a.is_unlocked());
    let mut blank = AutofillProfile::default();
    blank.updated = 9;
    assert!(blank.is_blank());
    blank.cc_exp_year = s(" ");
    assert!(!blank.is_blank());
}

fn passage(t: &str) -> Highlight {
    Highlight { text: s(t), prefix: s(""), suffix: s(""), color: s("#ff0") }
}

#[test]
fn passages_are_found_by_origin() {
    let mut h = HighlightStore::load(s("/h"));
    assert!(!h.is_unlocked());
    assert_eq!(h.path(), "/h");
    let mut m = HighlightMap::new();
    m.put("https://b", vec![passage("old")]);
    assert_eq!(h.unlock(Some(&vec![1]), Err(s("wrong"))), Err(s("wrong")));
    assert_eq!(h.unlock(Some(&vec![1]), Ok(Some(m.to_text()))), Ok(()));
    h.add("https://a", passage("x"));
    h.add("https://a", passage("y"));
    assert_eq!(h.for_origin("https://a").len(), 2);
    assert_eq!(h.for_origin("https://a")[1].text, "y");
    assert_eq!(h.for_origin("https://b")[0].text, "old");
    h.lock();
    assert!(h.for_origin("https://a").is_empty());
    assert!(!h.is_unlocked());
    h.add("https://a", passage("z"));
    assert!(h.for_origin("https://a").is_empty(), "nothing is handed out while locked");
    let mut back = HighlightStore::load(s("/h"));
    assert_eq!(back.unlock(Some(&vec![1]), Ok(Some(h.save()))), Ok(()));
    assert_eq!(back.for_origin("https://a")[0].text, "z");
    assert_eq!(h.save(), r##"{"https://a":[{"color":"#ff0","prefix":"","suffix":"","text":"z"}]}"##);
    assert_eq!(back.unlock(Some(&vec![1]), Ok(Some(s("[]")))), Ok(()));
    assert!(back.for_origin("https://a").is_empty());
}

#[test]
fn icons_become_png_files() {
    let image = Image { width: 2, height: 1, format: PixelFormat::BGRA8, data: vec![3, 2, 1, 255, 6, 5, 4, 128] };
    assert_eq!(to_rgba(image.format, &image.data), [1, 2, 3, 255, 4, 5, 6, 128]);
    let file = favicon_to_png(&image).unwrap();
    let mut reader = png::Decoder::new(std::io::Cursor::new(file.clone())).read_info().unwrap();
    let mut buf = vec![0; 8];
    let info = reader.next_frame(&mut buf).unwrap();
    assert_eq!((info.width, info.height), (2, 1));
    assert_eq!(buf, [1, 2, 3, 255, 4, 5, 6, 128]);
    assert!(!fills_image(2, 2, &vec![0; 8]));
    let short = Image { width: 9, height: 9, format: PixelFormat::RGBA8, data: vec![0; 4] };
    assert!(favicon_to_png(&short).is_none());
    assert_eq!(to_rgba(PixelFormat::K8, &vec![7]), [7, 7, 7, 255]);
    assert_eq!(to_rgba(PixelFormat::KA8, &vec![7, 8]), [7, 7, 7, 8]);
    assert_eq!(to_rgba(PixelFormat::RGB8, &vec![1, 2, 3]), [1, 2, 3, 255]);
    let (path, bytes) = icon_to_cache("https://www.a.com/x", &image).unwrap();
    assert_eq!(path, "favicons/a.com.png");
    assert_eq!(bytes, file);
    assert!(icon_to_cache("nonsense", &image).is_none());
    assert_eq!(favicon_cache_path("../../etc"), None);
    assert_eq!(favicon_cache_path(""), None);
}

#[test]
fn previews_are_scaled_down() {
    let raw: Vec<u8> = (0..640u32 * 2).flat_map(|i| [(i % 251) as u8, 0, 0, 255]).collect();
    let p = capture_thumbnail(&raw, 640, 2).unwrap();
    assert_eq!((p.width, p.height), (PREVIEW_WIDTH, 1));
    assert_eq!(p.data.len(), PREVIEW_WIDTH * 4);
    assert_eq!(p.data[4], 2);
    assert!(capture_thumbnail(&raw, 0, 2).is_none());
    assert!(capture_thumbnail(&vec![0; 3], 1, 1).is_none());
}

#[test]
fn the_console_forgets_the_oldest() {
    let mut c = ConsoleLog::new();
    for i in 0..(MAX_MESSAGES + 3) {
        c.show_console_message(ConsoleLogLevel::Log, format!("m{i}"));
    }
    assert_eq!(c.messages.len(), MAX_MESSAGES);
    assert_eq!(c.messages[0].text, "m3");
    c.clear();
    c.show_console_message(ConsoleLogLevel::Error, s("Boom"));
    c.show_console_message(ConsoleLogLevel::Info, s("fine"));
    assert_eq!(c.shown(""), [0, 1]);
    assert_eq!(c.shown("BOOM"), [0]);
    assert_eq!(c.shown("info"), [1]);
    assert!(matches!(message_colour(ConsoleLogLevel::Error), MessageColour::Red));
    assert!(matches!(message_colour(ConsoleLogLevel::Warn), MessageColour::Amber));
}

#[test]
fn letters_stand_for_names() {
    assert_eq!(capital("ßa"), "SS");
    assert_eq!(capital(""), "");
    assert_eq!(find_letter("--é1"), Some('é'));
    assert_eq!(letter_for("…", true), "•");
    assert_eq!(letter_for("abc", true), "A");
    assert_eq!(letter_for("abc", false), "a");
}

#[test]
fn imported_history_comes_newest_first() {
    let e = |url: &str, updated: i64| HistoryEntry { url: s(url), title: s(""), visits: 1, updated };
    let all = import_browser_history(&vec![e("a", 5), e("b", 1), e("c", 9), e("d", 5)]);
    let urls: Vec<&str> = all.iter().map(|x| x.url.as_str()).collect();
    assert_eq!(urls, ["c", "a", "d", "b"]);
}

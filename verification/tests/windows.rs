//! Tabs, panes, windows, and what pages report of themselves.

use navgator::frame::{
    apply_force_dark, close_window, find_run, find_step, toast_label, toast_step, user_event,
    DarkStep, FindBar, FrameState, IpcCommand, IpcDeed, PaneStep, TabDeed, WakeStep, WakeUp,
};
use navgator::input::{map_cursor, notify_cursor_changed, PageCursor};
use navgator::reports::{web_address, LoadStep, MAX_BLOCKED};
use navgator::tabs::{
    drag_target_slot, drop_target, fresh_tab, menu_label, tab_label, tab_order, tab_row,
    tab_row_action, TabAction, TabFill, TabIcon, TabMenu, MAX_CLOSED,
};
use navgator::window::TabWindow;

/// A window with a tab for each address.
fn window(urls: &[&str]) -> TabWindow {
    let mut w = TabWindow::new();
    for (i, u) in urls.iter().enumerate() {
        w.adopt_tab(i as u64 + 1);
        w.notify_url_changed(i as u64 + 1, u, "https");
    }
    w
}

fn urls(w: &TabWindow) -> Vec<String> {
    w.pane0.urls()
}

#[test]
fn closing_a_tab_keeps_the_active_one() {
    let mut w = window(&["https://a/", "https://b/", "https://c/"]);
    w.select_tab(0, 1);
    w.close_tab(0, 0);
    assert_eq!(urls(&w), ["https://b/", "https://c/"]);
    assert_eq!(w.pane0.active, 0);
    assert_eq!(w.location, "https://b/");
    assert_eq!(w.closed_tabs, ["https://a/"]);
    assert!(!w.wants_close);
}

#[test]
fn the_last_tab_takes_the_window_with_it() {
    let mut w = window(&["https://a/"]);
    w.close_tab(0, 0);
    assert!(w.wants_close);
}

#[test]
fn a_closed_tab_comes_back() {
    let mut w = window(&["https://a/", "https://b/"]);
    w.close_tab(0, 1);
    assert_eq!(w.reopen_closed_tab().as_deref(), Some("https://b/"));
    assert_eq!(w.reopen_closed_tab(), None);
}

#[test]
fn few_closed_tabs_are_remembered() {
    let mut w = window(&["https://first/"]);
    for i in 0..40u64 {
        w.adopt_tab(100 + i);
        w.notify_url_changed(100 + i, &format!("https://x{i}/"), "https");
        w.close_tab(0, 1);
    }
    assert_eq!(w.closed_tabs.len(), MAX_CLOSED);
    assert_eq!(w.closed_tabs[MAX_CLOSED - 1], "https://x39/");
}

#[test]
fn pinned_tabs_come_first() {
    let mut w = window(&["https://a/", "https://b/", "https://c/"]);
    w.toggle_pin(2);
    assert_eq!(tab_order(&w.pane0.tabs), [2, 0, 1]);
    w.toggle_pin(2);
    assert_eq!(tab_order(&w.pane0.tabs), [0, 1, 2]);
}

#[test]
fn closing_the_others_spares_pinned_tabs() {
    let mut w = window(&["https://a/", "https://b/", "https://c/"]);
    w.toggle_pin(0);
    w.close_others(2);
    assert_eq!(urls(&w), ["https://a/", "https://c/"]);
    assert_eq!(w.pane0.active, 1);
}

#[test]
fn a_moved_tab_stays_active() {
    let mut w = window(&["https://a/", "https://b/", "https://c/"]);
    w.select_tab(0, 0);
    assert!(w.move_tab(0, 2));
    assert_eq!(urls(&w), ["https://b/", "https://c/", "https://a/"]);
    assert_eq!(w.pane0.active, 2);
    assert!(!w.move_tab(1, 1));
}

#[test]
fn a_drag_ends_within_its_group() {
    let mut w = window(&["https://a/", "https://b/", "https://c/"]);
    w.toggle_pin(0);
    let order = tab_order(&w.pane0.tabs);
    // The pointer is before every tab, but a loose tab stays behind the pinned one.
    let ahead = vec![true, true, true];
    assert_eq!(drag_target_slot(&w.pane0.tabs, Some(2), &order, &ahead), Some(1));
    assert_eq!(drag_target_slot(&w.pane0.tabs, None, &order, &ahead), None);
    assert_eq!(drop_target(&order, 2, 1), Some(1));
    w.pane0.drag_tab = Some(2);
    assert!(w.finish_drag(&order, Some(1)));
    assert_eq!(urls(&w), ["https://a/", "https://c/", "https://b/"]);
    assert_eq!(w.pane0.drag_tab, None);
    // Nothing is dragged now, and a tab that is let go where it was does not move.
    assert!(!w.finish_drag(&order, Some(1)));
    w.pane0.drag_tab = Some(1);
    assert!(!w.finish_drag(&order, Some(1)));
    assert_eq!(urls(&w), ["https://a/", "https://c/", "https://b/"]);
}

#[test]
fn a_split_opens_and_closes() {
    let mut w = window(&["https://a/"]);
    w.toggle_split(50, "gator://welcome");
    assert!(w.split);
    assert_eq!(w.focused, 1);
    assert_eq!(w.pane1.urls(), ["https://a/"]);
    assert_eq!(w.locate_tab(50), Some((1, 0)));
    w.toggle_split(51, "gator://welcome");
    assert!(!w.split);
    assert_eq!(w.focused, 0);
    assert!(w.pane1.tabs.is_empty());
    assert_eq!(urls(&w), ["https://a/"]);
}

#[test]
fn a_saved_split_comes_back() {
    let mut w = window(&["https://a/"]);
    w.restore_split(&vec![8, 9], &vec!["https://x/".to_string(), "https://y/".to_string()]);
    assert!(w.split);
    assert_eq!(w.focused, 0);
    assert_eq!(w.pane1.urls(), ["https://x/", "https://y/"]);
    assert_eq!(w.save_session(), "https://a/\n#PANE1\nhttps://x/\nhttps://y/\n");
}

#[test]
fn tab_actions_are_carried_out() {
    let mut w = window(&["https://a/", "https://b/"]);
    assert!(matches!(w.apply_tab_action(TabAction::Nothing, "gator://welcome"), (TabDeed::Nothing, false)));
    assert!(matches!(w.apply_tab_action(TabAction::Select(0), "gator://welcome"), (TabDeed::Nothing, false)));
    assert_eq!(w.pane0.active, 0);
    assert!(matches!(w.apply_tab_action(TabAction::NewTab, "gator://welcome"), (TabDeed::NewTab, true)));
    match w.apply_tab_action(TabAction::PopOut(1), "gator://welcome") {
        (TabDeed::NewWindow(u), true) => assert_eq!(u, "https://b/"),
        other => panic!("{other:?}"),
    }
    assert_eq!(urls(&w), ["https://a/"]);
    let (_, stop) = w.apply_tab_action(TabAction::TogglePin(0), "gator://welcome");
    assert!(stop && w.pane0.tabs[0].pinned);
}

#[test]
fn commands_from_the_socket() {
    let mut w = window(&["https://a/", "https://b/"]);
    match w.handle_ipc(&IpcCommand::Navigate("https://c.com".to_string())) {
        IpcDeed::Load(u) => assert_eq!(u, "https://c.com/"),
        other => panic!("{other:?}"),
    }
    assert!(matches!(w.handle_ipc(&IpcCommand::Navigate("nonsense".to_string())), IpcDeed::Nothing));
    assert!(matches!(w.handle_ipc(&IpcCommand::Back), IpcDeed::GoBack));
    w.handle_ipc(&IpcCommand::SelectTab(0));
    assert_eq!(w.pane0.active, 0);
    w.handle_ipc(&IpcCommand::CloseTab(0));
    assert_eq!(urls(&w), ["https://b/"]);
    let mut empty = TabWindow::new();
    assert!(matches!(empty.handle_ipc(&IpcCommand::Reload), IpcDeed::Nothing));
}

#[test]
fn what_a_click_on_a_tab_asks_for() {
    assert_eq!(tab_row_action(1, 0, false, true, true, false, None), TabAction::Close(1));
    assert_eq!(tab_row_action(1, 0, false, false, true, false, None), TabAction::Select(1));
    assert_eq!(tab_row_action(1, 1, false, false, true, false, None), TabAction::Nothing);
    assert_eq!(tab_row_action(1, 0, true, false, false, true, None), TabAction::Nothing);
    assert_eq!(tab_row_action(1, 0, false, false, false, true, None), TabAction::Close(1));
    assert_eq!(tab_row_action(1, 0, true, false, true, false, Some(TabMenu::PopOut)), TabAction::PopOut(1));
}

#[test]
fn what_a_tab_looks_like() {
    let mut t = fresh_tab(1, "https://a/");
    t.title = "éclair".to_string();
    t.loading = true;
    let f = tab_row(&t, 0, 0, Some(0), true, false, false);
    assert_eq!(f.label, "éclair");
    assert_eq!(f.fill, TabFill::Active);
    assert!(f.closes && f.faint);
    assert!(matches!(f.icon, TabIcon::Letter(_, ref l) if l == "É"));
    t.loading = false;
    t.pinned = true;
    let f = tab_row(&t, 1, 0, None, true, true, false);
    assert!(f.label.is_empty() && !f.closes && !f.faint);
    assert_eq!(f.fill, TabFill::Hovered);
    assert!(matches!(f.icon, TabIcon::Picture));
    assert_eq!(tab_label("x", true, true), "x");
    assert_eq!(menu_label(TabMenu::TogglePin, true, false), "Unpin tab");
    assert_eq!(menu_label(TabMenu::ToggleOrientation, false, true), "Horizontal tabs");
}

#[test]
fn pages_report_their_titles_and_loading() {
    let mut w = window(&["https://a/"]);
    let t = w.notify_page_title_changed(1, Some("Hello".to_string())).unwrap();
    assert_eq!(t.title, "Hello");
    assert_eq!(t.url, "https://a/");
    assert!(w.notify_page_title_changed(9, Some("x".to_string())).is_none());
    assert!(matches!(w.notify_load_status_changed(1, false), Some(LoadStep::Started)));
    assert!(w.pane0.tabs[0].loading);
    assert!(matches!(w.notify_load_status_changed(1, true), Some(LoadStep::Finished { web: true })));
    assert!(!w.pane0.tabs[0].loading);
    assert!(w.notify_history_changed(1, 3, 1));
    assert_eq!(w.pane0.active_nav(), (true, true));
    assert!(web_address("http://a"));
    assert!(!web_address("gator://a"));
}

#[test]
fn a_crashed_page_is_replaced() {
    let mut w = window(&["https://a/"]);
    let to = w.notify_crashed(1, "out of memory").unwrap();
    assert!(to.starts_with("gator://crash?"), "{to}");
    assert!(w.pane0.tabs[0].crashed);
    assert!(w.notify_crashed(2, "x").is_none());
}

#[test]
fn the_receipt_is_bounded() {
    let mut w = window(&["https://a/"]);
    for i in 0..(MAX_BLOCKED + 5) {
        w.note_blocked(0, 0, &format!("https://ad/{i}"));
    }
    let log = w.open_why();
    assert_eq!(log.len(), MAX_BLOCKED);
}

#[test]
fn the_status_line_says_what_is_hovered() {
    let mut w = window(&["https://a/"]);
    assert_eq!(w.status_line(), None);
    assert!(w.notify_status_text_changed(1, Some("https://b/".to_string())));
    assert_eq!(w.status_line().as_deref(), Some("https://b/"));
    w.notify_status_text_changed(1, Some(String::new()));
    assert_eq!(w.status_line(), None);
}

#[test]
fn pages_that_play_are_marked() {
    let mut w = window(&["https://a/"]);
    w.notify_media_session_event(1, true);
    assert!(w.pane0.tabs[0].audible);
    w.notify_media_session_event(1, false);
    assert!(!w.pane0.tabs[0].audible);
}

#[test]
fn a_page_may_close_itself() {
    let mut w = window(&["https://a/", "https://b/"]);
    w.notify_closed(1);
    assert_eq!(urls(&w), ["https://b/"]);
}

#[test]
fn the_browser_ends_with_its_last_window() {
    let mut all = vec![1, 2];
    assert!(!close_window(&mut all, 1));
    assert_eq!(all, [2]);
    assert!(!close_window(&mut all, 7));
    assert!(close_window(&mut all, 2));
}

#[test]
fn frames_settle_after_a_resize() {
    let mut f = FrameState::new();
    assert_eq!(f.render_pane((0, 0), (10, 10), false), (true, PaneStep::Blank));
    assert_eq!(f.settle, 24);
    for _ in 0..24 {
        assert!(f.end_frame());
    }
    assert!(!f.end_frame());
    for i in 1..=48u32 {
        assert_eq!(f.render_pane((10, 10), (10, 10), true), (false, PaneStep::Page(i % 24 == 0)));
    }
    let mut last = FrameState { settle: 0, tick: u32::MAX };
    assert_eq!(last.render_pane((1, 1), (1, 1), true), (false, PaneStep::Page(true)));
    assert_eq!(last.tick, 0);
}

#[test]
fn text_is_looked_for_in_a_page() {
    let mut bar = FindBar::new();
    assert_eq!(bar.start("F", "a\"b"), find_run("F", "a\"b"));
    assert!(bar.open && bar.focus);
    bar.found(3);
    assert_eq!(bar.count_label(), "1/3");
    bar.stepped(2);
    assert_eq!(bar.count_label(), "2/3");
    let (focus, calls) = bar.draw("F", Some("x"), true, false, true);
    assert!(focus);
    assert_eq!(calls.len(), 3);
    assert_eq!(calls[0], "(F)(\"x\")");
    assert_eq!(calls[1], find_step(true));
    assert!(calls[1].ends_with("(-1)"));
    assert!(!bar.open && bar.matches == 0);
    assert_eq!(bar.query, "x");
    let (focus, calls) = bar.draw("F", None, true, true, true);
    assert!(!focus && calls.is_empty());
    bar.found(0);
    assert_eq!(bar.count_label(), "0/0");
}

#[test]
fn only_web_pages_are_darkened() {
    assert_eq!(apply_force_dark("https://a/", true), DarkStep::Darken);
    assert_eq!(apply_force_dark("https://a/", false), DarkStep::Restore);
    assert_eq!(apply_force_dark("gator://welcome", true), DarkStep::Nothing);
    let w = window(&["https://a/", "gator://why"]);
    assert_eq!(w.force_dark_steps(true), [(1, DarkStep::Darken), (2, DarkStep::Nothing)]);
}

#[test]
fn a_download_is_announced() {
    assert_eq!(toast_label("x.zip"), "↓  x.zip");
    let mut t = Some("x".to_string());
    assert!(!toast_step(&mut t, false, false, true));
    assert!(t.is_some());
    assert!(toast_step(&mut t, true, false, true));
    assert!(t.is_none());
    assert!(!toast_step(&mut t, true, false, true));
}

#[test]
fn the_page_chooses_the_pointer() {
    assert_eq!(map_cursor(PageCursor::Hidden), PageCursor::Default);
    assert_eq!(map_cursor(PageCursor::Grab), PageCursor::Grab);
    let mut kept = PageCursor::Default;
    assert_eq!(notify_cursor_changed(&mut kept, PageCursor::Text, false), None);
    assert_eq!(kept, PageCursor::Text);
    let shown = notify_cursor_changed(&mut kept, PageCursor::Hidden, true);
    assert_eq!(shown, Some(PageCursor::Default));
    assert_eq!(kept, PageCursor::Default);
}

#[test]
fn wake_ups_reach_one_window() {
    assert_eq!(user_event(WakeUp::Exit, 2), WakeStep::Stop);
    assert_eq!(user_event(WakeUp::Wake, 2), WakeStep::Refresh { handed: false });
    assert_eq!(user_event(WakeUp::SyncDone, 2), WakeStep::Refresh { handed: true });
    assert_eq!(user_event(WakeUp::Ipc, 0), WakeStep::Refresh { handed: false });
}

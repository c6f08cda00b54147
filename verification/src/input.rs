//! Keyboard and mouse: what the browser takes for itself, what pages may have first, and what goes
//! to the page.

use std::collections::HashMap;

use vstd::prelude::*;
use vstd::std_specs::hash::*;
use vstd::string::*;

use crate::number;
use crate::text;
use crate::window;
use crate::window::TabWindow;

verus! {

// ---------------------------------------------------------------------------
// Keys
// ---------------------------------------------------------------------------

/// A key, as the window system names it.
#[derive(Debug)]
pub enum PressedKey {
    Character(String),
    Space,
    Enter,
    Backspace,
    Delete,
    Tab,
    Escape,
    ArrowLeft,
    ArrowRight,
    ArrowUp,
    ArrowDown,
    Home,
    End,
    F5,
    Other,
}

/// `PressedKey` as mathematical values.
#[verifier::ext_equal]
pub enum PressedView {
    Character(Seq<char>),
    Space,
    Enter,
    Backspace,
    Delete,
    Tab,
    Escape,
    ArrowLeft,
    ArrowRight,
    ArrowUp,
    ArrowDown,
    Home,
    End,
    F5,
    Other,
}

impl View for PressedKey {
    type V = PressedView;

    open spec fn view(&self) -> PressedView {
        match self {
            PressedKey::Character(s) => PressedView::Character(s@),
            PressedKey::Space => PressedView::Space,
            PressedKey::Enter => PressedView::Enter,
            PressedKey::Backspace => PressedView::Backspace,
            PressedKey::Delete => PressedView::Delete,
            PressedKey::Tab => PressedView::Tab,
            PressedKey::Escape => PressedView::Escape,
            PressedKey::ArrowLeft => PressedView::ArrowLeft,
            PressedKey::ArrowRight => PressedView::ArrowRight,
            PressedKey::ArrowUp => PressedView::ArrowUp,
            PressedKey::ArrowDown => PressedView::ArrowDown,
            PressedKey::Home => PressedView::Home,
            PressedKey::End => PressedView::End,
            PressedKey::F5 => PressedView::F5,
            PressedKey::Other => PressedView::Other,
        }
    }
}

/// A key, as pages know it.
#[derive(Debug)]
pub enum PageKey {
    Character(String),
    Enter,
    Backspace,
    Delete,
    Tab,
    Escape,
    ArrowLeft,
    ArrowRight,
    ArrowUp,
    ArrowDown,
    Home,
    End,
}

/// `PageKey` as mathematical values.
#[verifier::ext_equal]
pub enum PageKeyView {
    Character(Seq<char>),
    Enter,
    Backspace,
    Delete,
    Tab,
    Escape,
    ArrowLeft,
    ArrowRight,
    ArrowUp,
    ArrowDown,
    Home,
    End,
}

impl View for PageKey {
    type V = PageKeyView;

    open spec fn view(&self) -> PageKeyView {
        match self {
            PageKey::Character(s) => PageKeyView::Character(s@),
            PageKey::Enter => PageKeyView::Enter,
            PageKey::Backspace => PageKeyView::Backspace,
            PageKey::Delete => PageKeyView::Delete,
            PageKey::Tab => PageKeyView::Tab,
            PageKey::Escape => PageKeyView::Escape,
            PageKey::ArrowLeft => PageKeyView::ArrowLeft,
            PageKey::ArrowRight => PageKeyView::ArrowRight,
            PageKey::ArrowUp => PageKeyView::ArrowUp,
            PageKey::ArrowDown => PageKeyView::ArrowDown,
            PageKey::Home => PageKeyView::Home,
            PageKey::End => PageKeyView::End,
        }
    }
}

/// The key that a page is told of; none where pages do not know it.
pub open spec fn page_key(k: PressedView) -> Option<PageKeyView> {
    match k {
        PressedView::Character(s) => Some(PageKeyView::Character(s)),
        PressedView::Space => Some(PageKeyView::Character(" "@)),
        PressedView::Enter => Some(PageKeyView::Enter),
        PressedView::Backspace => Some(PageKeyView::Backspace),
        PressedView::Delete => Some(PageKeyView::Delete),
        PressedView::Tab => Some(PageKeyView::Tab),
        PressedView::Escape => Some(PageKeyView::Escape),
        PressedView::ArrowLeft => Some(PageKeyView::ArrowLeft),
        PressedView::ArrowRight => Some(PageKeyView::ArrowRight),
        PressedView::ArrowUp => Some(PageKeyView::ArrowUp),
        PressedView::ArrowDown => Some(PageKeyView::ArrowDown),
        PressedView::Home => Some(PageKeyView::Home),
        PressedView::End => Some(PageKeyView::End),
        PressedView::F5 => None,
        PressedView::Other => None,
    }
}

/// The key inside an optional one.
pub open spec fn optional_key(k: Option<PageKey>) -> Option<PageKeyView> {
    match k {
        Some(x) => Some(x@),
        None => None,
    }
}

/// The key that a page is told of.
pub fn key_for_page(k: &PressedKey) -> (r: Option<PageKey>)
    ensures
        optional_key(r) == page_key(k@),
{
    match k {
        PressedKey::Character(s) => Some(PageKey::Character(s.clone())),
        PressedKey::Space => Some(PageKey::Character(" ".to_owned())),
        PressedKey::Enter => Some(PageKey::Enter),
        PressedKey::Backspace => Some(PageKey::Backspace),
        PressedKey::Delete => Some(PageKey::Delete),
        PressedKey::Tab => Some(PageKey::Tab),
        PressedKey::Escape => Some(PageKey::Escape),
        PressedKey::ArrowLeft => Some(PageKey::ArrowLeft),
        PressedKey::ArrowRight => Some(PageKey::ArrowRight),
        PressedKey::ArrowUp => Some(PageKey::ArrowUp),
        PressedKey::ArrowDown => Some(PageKey::ArrowDown),
        PressedKey::Home => Some(PageKey::Home),
        PressedKey::End => Some(PageKey::End),
        PressedKey::F5 => None,
        PressedKey::Other => None,
    }
}

/// A shortcut of the browser's that a page may take for itself.
#[derive(Clone, Copy, Debug, PartialEq, Eq, Structural)]
pub enum KeyShortcut {
    CommandPalette,
    Bookmark,
    Find,
    History,
    Downloads,
    DevTools,
    ZoomIn,
    ZoomOut,
    ZoomReset,
    ToggleSplit,
}

/// What surrounds a key event.
#[derive(Clone, Copy, Debug, PartialEq, Eq, Structural)]
pub struct KeyContext {
    pub pressed: bool,
    pub ctrl: bool,
    pub shift: bool,
    pub alt: bool,
    /// The browser's own controls have taken the key.
    pub consumed: bool,
    pub dialog_open: bool,
    pub find_open: bool,
    pub fullscreen: bool,
    /// How many tabs the focused pane has, and which of them is active.
    pub tabs: usize,
    pub active: usize,
}

/// What a key does.
#[derive(Debug)]
pub enum KeyAction {
    Nothing,
    NewTab,
    ReopenTab,
    CloseTab,
    Quit,
    FocusOmnibox,
    NewWindow,
    Reload,
    SelectTab(usize),
    /// The page has the key first; the shortcut runs if it does not take it.
    Offer(KeyShortcut, PageKey),
    Run(KeyShortcut),
    CloseFind,
    ClearDialogs,
    ExitFullscreen,
    /// The page gets the key, down or up.
    Forward(PageKey, bool),
}

/// `KeyAction` as mathematical values.
#[verifier::ext_equal]
pub enum ActionView {
    Nothing,
    NewTab,
    ReopenTab,
    CloseTab,
    Quit,
    FocusOmnibox,
    NewWindow,
    Reload,
    SelectTab(usize),
    Offer(KeyShortcut, PageKeyView),
    Run(KeyShortcut),
    CloseFind,
    ClearDialogs,
    ExitFullscreen,
    Forward(PageKeyView, bool),
}

impl View for KeyAction {
    type V = ActionView;

    open spec fn view(&self) -> ActionView {
        match self {
            KeyAction::Nothing => ActionView::Nothing,
            KeyAction::NewTab => ActionView::NewTab,
            KeyAction::ReopenTab => ActionView::ReopenTab,
            KeyAction::CloseTab => ActionView::CloseTab,
            KeyAction::Quit => ActionView::Quit,
            KeyAction::FocusOmnibox => ActionView::FocusOmnibox,
            KeyAction::NewWindow => ActionView::NewWindow,
            KeyAction::Reload => ActionView::Reload,
            KeyAction::SelectTab(i) => ActionView::SelectTab(*i),
            KeyAction::Offer(s, k) => ActionView::Offer(*s, k@),
            KeyAction::Run(s) => ActionView::Run(*s),
            KeyAction::CloseFind => ActionView::CloseFind,
            KeyAction::ClearDialogs => ActionView::ClearDialogs,
            KeyAction::ExitFullscreen => ActionView::ExitFullscreen,
            KeyAction::Forward(k, down) => ActionView::Forward(k@, *down),
        }
    }
}

/// A letter key, whatever its case.
pub open spec fn is_letter(s: Seq<char>, c: Seq<char>) -> bool {
    text::lowered(s) == c
}

/// The tab that a number key selects: the last one for 9, else the one of that number, if it is
/// there.
pub open spec fn numbered_tab(n: nat, tabs: usize) -> ActionView {
    if n == 9 && tabs > 0 {
        ActionView::SelectTab((tabs - 1) as usize)
    } else if 1 <= n <= 8 && n <= tabs {
        ActionView::SelectTab((n - 1) as usize)
    } else {
        ActionView::Nothing
    }
}

/// The tab next to the active one, going round; with one tab there is none.
pub open spec fn neighbour(tabs: usize, active: usize, back: bool) -> ActionView {
    if tabs > 1 {
        let n = if back {
            (active + tabs - 1) % (tabs as int)
        } else {
            (active + 1) % (tabs as int)
        };
        ActionView::SelectTab(n as usize)
    } else {
        ActionView::Nothing
    }
}

/// What a reserved shortcut does; nothing where the key is none. These are the ways out of a page,
/// so that no page can keep the user in.
pub open spec fn reserved(k: PressedView, c: KeyContext) -> Option<ActionView> {
    match k {
        PressedView::Character(s) => if is_letter(s, "t"@) {
            Some(
                if c.shift {
                    ActionView::ReopenTab
                } else {
                    ActionView::NewTab
                },
            )
        } else if is_letter(s, "w"@) {
            Some(ActionView::CloseTab)
        } else if is_letter(s, "q"@) {
            Some(ActionView::Quit)
        } else if is_letter(s, "l"@) {
            Some(ActionView::FocusOmnibox)
        } else if is_letter(s, "n"@) {
            Some(ActionView::NewWindow)
        } else if is_letter(s, "r"@) {
            Some(ActionView::Reload)
        } else {
            match number::read_unsigned(s, usize::MAX as nat) {
                Some(n) => if 1 <= n <= 9 {
                    Some(numbered_tab(n, c.tabs))
                } else {
                    None
                },
                None => None,
            }
        },
        PressedView::Tab => Some(neighbour(c.tabs, c.active, c.shift)),
        _ => None,
    }
}

/// The shortcut that a page may take for itself.
pub open spec fn overridable(k: PressedView, shift: bool) -> Option<KeyShortcut> {
    match k {
        PressedView::Character(s) => if is_letter(s, "k"@) {
            Some(KeyShortcut::CommandPalette)
        } else if is_letter(s, "d"@) {
            Some(KeyShortcut::Bookmark)
        } else if is_letter(s, "f"@) {
            Some(KeyShortcut::Find)
        } else if is_letter(s, "h"@) {
            Some(KeyShortcut::History)
        } else if is_letter(s, "j"@) {
            Some(
                if shift {
                    KeyShortcut::DevTools
                } else {
                    KeyShortcut::Downloads
                },
            )
        } else if s == "="@ || s == "+"@ {
            Some(KeyShortcut::ZoomIn)
        } else if s == "-"@ || s == "_"@ {
            Some(KeyShortcut::ZoomOut)
        } else if s == "0"@ {
            Some(KeyShortcut::ZoomReset)
        } else if s == "\\"@ {
            Some(KeyShortcut::ToggleSplit)
        } else {
            None
        },
        _ => None,
    }
}

/// Escape's own doings, in their order; none where it goes to the page.
pub open spec fn escape_action(c: KeyContext) -> Option<ActionView> {
    if c.find_open {
        Some(ActionView::CloseFind)
    } else if c.dialog_open {
        Some(ActionView::ClearDialogs)
    } else if c.fullscreen {
        Some(ActionView::ExitFullscreen)
    } else {
        None
    }
}

/// What becomes of a key that is no shortcut: the page gets it, unless the browser's own controls
/// or a dialog have it, or pages do not know it.
pub open spec fn to_page(k: PressedView, c: KeyContext) -> ActionView {
    if c.consumed || c.dialog_open {
        ActionView::Nothing
    } else {
        match page_key(k) {
            Some(p) => ActionView::Forward(p, c.pressed),
            None => ActionView::Nothing,
        }
    }
}

/// A chord that can be a shortcut: the key goes down with Ctrl held, and without Alt.
pub open spec fn is_chord(c: KeyContext) -> bool {
    c.pressed && c.ctrl && !c.alt
}

/// What a key does.
pub open spec fn key_action(k: PressedView, c: KeyContext) -> ActionView {
    if is_chord(c) && reserved(k, c) is Some {
        reserved(k, c)->0
    } else if is_chord(c) && overridable(k, c.shift) is Some {
        let s = overridable(k, c.shift)->0;
        if c.consumed || c.dialog_open || c.tabs == 0 {
            ActionView::Run(s)
        } else {
            ActionView::Offer(s, page_key(k)->0)
        }
    } else if c.pressed && k is F5 {
        ActionView::Reload
    } else if c.pressed && k is Escape && escape_action(c) is Some {
        escape_action(c)->0
    } else {
        to_page(k, c)
    }
}

fn letter(s: &str, c: &str) -> (r: bool)
    ensures
        r == is_letter(s@, c@),
{
    text::same(text::to_lower(s).as_str(), c)
}

fn reserved_for(k: &PressedKey, c: KeyContext) -> (r: Option<KeyAction>)
    requires
        c.tabs > 1 ==> c.active < c.tabs,
    ensures
        match r {
            Some(a) => reserved(k@, c) == Some(a@),
            None => reserved(k@, c) is None,
        },
{
    match k {
        PressedKey::Character(t) => {
            let s: &str = t.as_str();
            if letter(s, "t") {
                if c.shift {
                    Some(KeyAction::ReopenTab)
                } else {
                    Some(KeyAction::NewTab)
                }
            } else if letter(s, "w") {
                Some(KeyAction::CloseTab)
            } else if letter(s, "q") {
                Some(KeyAction::Quit)
            } else if letter(s, "l") {
                Some(KeyAction::FocusOmnibox)
            } else if letter(s, "n") {
                Some(KeyAction::NewWindow)
            } else if letter(s, "r") {
                Some(KeyAction::Reload)
            } else {
                match number::parse_unsigned(s, usize::MAX as u64) {
                    Some(v) => {
                        let n: usize = v as usize;
                        if n < 1 || n > 9 {
                            None
                        } else if n == 9 && c.tabs > 0 {
                            Some(KeyAction::SelectTab(c.tabs - 1))
                        } else if n <= 8 && n <= c.tabs {
                            Some(KeyAction::SelectTab(n - 1))
                        } else {
                            Some(KeyAction::Nothing)
                        }
                    },
                    None => None,
                }
            }
        },
        PressedKey::Tab => {
            if c.tabs > 1 {
                let next: usize = if c.shift {
                    if c.active == 0 {
                        c.tabs - 1
                    } else {
                        c.active - 1
                    }
                } else if c.active == c.tabs - 1 {
                    0
                } else {
                    c.active + 1
                };
                proof {
                    let t = c.tabs as int;
                    let a = c.active as int;
                    if c.shift {
                        if a > 0 {
                            assert(a + t - 1 == t + (a - 1));
                            vstd::arithmetic::div_mod::lemma_mod_add_multiples_vanish(a - 1, t);
                            vstd::arithmetic::div_mod::lemma_small_mod((a - 1) as nat, t as nat);
                        } else {
                            vstd::arithmetic::div_mod::lemma_small_mod((t - 1) as nat, t as nat);
                        }
                    } else if a == t - 1 {
                        vstd::arithmetic::div_mod::lemma_mod_self_0(t);
                    } else {
                        vstd::arithmetic::div_mod::lemma_small_mod((a + 1) as nat, t as nat);
                    }
                }
                Some(KeyAction::SelectTab(next))
            } else {
                Some(KeyAction::Nothing)
            }
        },
        _ => None,
    }
}

fn overridable_for(k: &PressedKey, shift: bool) -> (r: Option<KeyShortcut>)
    ensures
        r == overridable(k@, shift),
{
    match k {
        PressedKey::Character(t) => {
            let s: &str = t.as_str();
            if letter(s, "k") {
                Some(KeyShortcut::CommandPalette)
            } else if letter(s, "d") {
                Some(KeyShortcut::Bookmark)
            } else if letter(s, "f") {
                Some(KeyShortcut::Find)
            } else if letter(s, "h") {
                Some(KeyShortcut::History)
            } else if letter(s, "j") {
                if shift {
                    Some(KeyShortcut::DevTools)
                } else {
                    Some(KeyShortcut::Downloads)
                }
            } else if text::same(s, "=") || text::same(s, "+") {
                Some(KeyShortcut::ZoomIn)
            } else if text::same(s, "-") || text::same(s, "_") {
                Some(KeyShortcut::ZoomOut)
            } else if text::same(s, "0") {
                Some(KeyShortcut::ZoomReset)
            } else if text::same(s, "\\") {
                Some(KeyShortcut::ToggleSplit)
            } else {
                None
            }
        },
        _ => None,
    }
}

/// Decides what a key does.
pub fn keyboard_input(k: &PressedKey, c: KeyContext) -> (r: KeyAction)
    requires
        c.tabs > 1 ==> c.active < c.tabs,
    ensures
        r@ == key_action(k@, c),
{
    if c.pressed && c.ctrl && !c.alt {
        match reserved_for(k, c) {
            Some(a) => {
                return a;
            },
            None => {},
        }
        match overridable_for(k, c.shift) {
            Some(s) => {
                if c.consumed || c.dialog_open || c.tabs == 0 {
                    return KeyAction::Run(s);
                }
                return match key_for_page(k) {
                    Some(p) => KeyAction::Offer(s, p),
                    None => KeyAction::Run(s),
                };
            },
            None => {},
        }
    }
    if c.pressed {
        match k {
            PressedKey::F5 => {
                return KeyAction::Reload;
            },
            PressedKey::Escape => {
                if c.find_open {
                    return KeyAction::CloseFind;
                }
                if c.dialog_open {
                    return KeyAction::ClearDialogs;
                }
                if c.fullscreen {
                    return KeyAction::ExitFullscreen;
                }
            },
            _ => {},
        }
    }
    if c.consumed || c.dialog_open {
        return KeyAction::Nothing;
    }
    match key_for_page(k) {
        Some(p) => KeyAction::Forward(p, c.pressed),
        None => KeyAction::Nothing,
    }
}

/// A reserved shortcut never reaches the page, whatever the page or the browser is doing.
pub proof fn reserved_shortcuts_never_reach_the_page(k: PressedView, c: KeyContext)
    requires
        is_chord(c),
        reserved(k, c) is Some,
    ensures
        !(key_action(k, c) is Offer),
        !(key_action(k, c) is Forward),
        !(key_action(k, c) is Run),
{
}

/// With Alt held no key is a shortcut: the page gets it, or nobody does.
pub proof fn alt_leaves_keys_to_the_page(k: PressedView, c: KeyContext)
    requires
        c.alt,
        !(k is F5),
        !(k is Escape),
    ensures
        key_action(k, c) == to_page(k, c),
{
}

/// While a dialog is open no key reaches the page.
pub proof fn dialogs_keep_keys_from_the_page(k: PressedView, c: KeyContext)
    requires
        c.dialog_open,
    ensures
        !(key_action(k, c) is Offer),
        !(key_action(k, c) is Forward),
{
}

/// A tab that a key selects is one that is there.
pub proof fn selected_tabs_are_there(k: PressedView, c: KeyContext)
    requires
        is_chord(c),
        c.tabs > 1 ==> c.active < c.tabs,
    ensures
        key_action(k, c) matches ActionView::SelectTab(i) ==> i < c.tabs,
{
    if c.tabs > 1 {
        vstd::arithmetic::div_mod::lemma_mod_bound(c.active + c.tabs - 1, c.tabs as int);
        vstd::arithmetic::div_mod::lemma_mod_bound(c.active + 1, c.tabs as int);
    }
}

// ---------------------------------------------------------------------------
// Shortcuts that wait for the page
// ---------------------------------------------------------------------------

/// How many shortcuts may wait before all of them are forgotten.
pub const MAX_PENDING: usize = 128;

/// The shortcuts that wait for the page's verdict, by the number of the key event.
pub open spec fn remembered(
    m: Map<u64, KeyShortcut>,
    id: u64,
    s: KeyShortcut,
) -> Map<u64, KeyShortcut> {
    if m.dom().len() > MAX_PENDING {
        Map::empty().insert(id, s)
    } else {
        m.insert(id, s)
    }
}

/// The shortcuts that wait for the page's verdict.
pub struct PendingShortcuts {
    map: HashMap<u64, KeyShortcut>,
}

impl View for PendingShortcuts {
    type V = Map<u64, KeyShortcut>;

    closed spec fn view(&self) -> Map<u64, KeyShortcut> {
        self.map@
    }
}

impl PendingShortcuts {
    /// Nothing waits.
    pub fn new() -> (r: PendingShortcuts)
        ensures
            r@ == Map::<u64, KeyShortcut>::empty(),
    {
        PendingShortcuts { map: HashMap::new() }
    }

    /// Remembers a shortcut until the verdict on its key comes. Where too many wait, those are
    /// forgotten first.
    pub fn remember(&mut self, id: u64, s: KeyShortcut)
        ensures
            final(self)@ == remembered(old(self)@, id, s),
    {
        broadcast use group_hash_axioms;

        if self.map.len() > MAX_PENDING {
            self.map.clear();
        }
        self.map.insert(id, s);
    }

    /// The page's verdict on a key: the shortcut that waited for it is forgotten, and is handed
    /// back to be run if the page neither prevented nor consumed the key.
    pub fn notify_input_event_handled(&mut self, id: u64, prevented: bool, consumed: bool) -> (r:
        Option<KeyShortcut>)
        ensures
            final(self)@ == old(self)@.remove(id),
            r == if old(self)@.dom().contains(id) && !prevented && !consumed {
                Some(old(self)@[id])
            } else {
                None
            },
    {
        broadcast use group_hash_axioms;

        match self.map.remove(&id) {
            Some(s) => {
                if prevented || consumed {
                    None
                } else {
                    Some(s)
                }
            },
            None => None,
        }
    }
}

/// A shortcut runs at most once: after its verdict it no longer waits.
pub proof fn a_verdict_is_final(m: Map<u64, KeyShortcut>, id: u64, s: KeyShortcut)
    ensures
        remembered(m, id, s).dom().contains(id),
        remembered(m, id, s)[id] == s,
        !remembered(m, id, s).remove(id).dom().contains(id),
{
}

/// However many verdicts stay out, the shortcuts that wait stay few.
pub proof fn waiting_shortcuts_are_bounded(m: Map<u64, KeyShortcut>, id: u64, s: KeyShortcut)
    requires
        m.dom().finite(),
        m.dom().len() <= MAX_PENDING + 1,
    ensures
        remembered(m, id, s).dom().finite(),
        remembered(m, id, s).dom().len() <= MAX_PENDING + 1,
{
    if m.dom().len() > MAX_PENDING {
        let e = Map::<u64, KeyShortcut>::empty();
        assert(e.dom() =~= Set::<u64>::empty());
        assert(e.insert(id, s).dom() =~= e.dom().insert(id));
    } else {
        assert(m.insert(id, s).dom() =~= m.dom().insert(id));
    }
}

// ---------------------------------------------------------------------------
// Running a shortcut
// ---------------------------------------------------------------------------

/// What the browser's controls are asked to show on the next frame.
#[derive(Clone, Copy, Debug, PartialEq, Eq, Structural)]
pub struct ChromeFlags {
    pub focus_omnibox: bool,
    pub find_open: bool,
    pub find_focus: bool,
    pub show_console: bool,
    pub console_filter_focus: bool,
}

/// What is left to do of a shortcut.
#[derive(Clone, Copy, Debug, PartialEq, Eq, Structural)]
pub enum ShortcutDeed {
    Nothing,
    ToggleBookmark,
    OpenHistory,
    OpenDownloads,
    ZoomIn,
    ZoomOut,
    ZoomReset,
    ToggleSplit,
}

/// The window after a shortcut: the command palette is the address bar with a mark in it, and a
/// page that is opened settles the address bar.
pub open spec fn window_after(w: window::WindowView, s: KeyShortcut) -> window::WindowView {
    match s {
        KeyShortcut::CommandPalette => window::WindowView {
            location: ">"@,
            location_dirty: true,
            ..w
        },
        KeyShortcut::History | KeyShortcut::Downloads => if w.pane(w.focused).active < w.pane(
            w.focused,
        ).tabs.len() {
            window::WindowView { location_dirty: false, ..w }
        } else {
            w
        },
        _ => w,
    }
}

/// The controls after a shortcut.
pub open spec fn flags_after(c: ChromeFlags, s: KeyShortcut) -> ChromeFlags {
    match s {
        KeyShortcut::CommandPalette => ChromeFlags { focus_omnibox: true, ..c },
        KeyShortcut::Find => ChromeFlags { find_open: true, find_focus: true, ..c },
        KeyShortcut::DevTools => ChromeFlags {
            show_console: !c.show_console,
            console_filter_focus: !c.show_console,
            ..c
        },
        _ => c,
    }
}

/// What is left to do of a shortcut; a page is opened only in a tab.
pub open spec fn shortcut_deed(s: KeyShortcut, has_tab: bool) -> ShortcutDeed {
    match s {
        KeyShortcut::Bookmark => ShortcutDeed::ToggleBookmark,
        KeyShortcut::History => if has_tab {
            ShortcutDeed::OpenHistory
        } else {
            ShortcutDeed::Nothing
        },
        KeyShortcut::Downloads => if has_tab {
            ShortcutDeed::OpenDownloads
        } else {
            ShortcutDeed::Nothing
        },
        KeyShortcut::ZoomIn => ShortcutDeed::ZoomIn,
        KeyShortcut::ZoomOut => ShortcutDeed::ZoomOut,
        KeyShortcut::ZoomReset => ShortcutDeed::ZoomReset,
        KeyShortcut::ToggleSplit => ShortcutDeed::ToggleSplit,
        _ => ShortcutDeed::Nothing,
    }
}

impl TabWindow {
    /// Runs a shortcut.
    pub fn run_key_shortcut(&mut self, c: &mut ChromeFlags, s: KeyShortcut) -> (r: ShortcutDeed)
        ensures
            final(self)@ == window_after(old(self)@, s),
            *final(c) == flags_after(*old(c), s),
            r == shortcut_deed(
                s,
                old(self)@.pane(old(self)@.focused).active < old(self)@.pane(
                    old(self)@.focused,
                ).tabs.len(),
            ),
            old(self)@.wf() ==> final(self)@.wf(),
    {
        let focused: usize = self.focused;
        let has_tab: bool = self.pane(focused).active < self.pane(focused).tabs.len();
        match s {
            KeyShortcut::CommandPalette => {
                self.location = ">".to_owned();
                self.location_dirty = true;
                c.focus_omnibox = true;
                ShortcutDeed::Nothing
            },
            KeyShortcut::Bookmark => ShortcutDeed::ToggleBookmark,
            KeyShortcut::Find => {
                c.find_open = true;
                c.find_focus = true;
                ShortcutDeed::Nothing
            },
            KeyShortcut::History => {
                if has_tab {
                    self.location_dirty = false;
                    ShortcutDeed::OpenHistory
                } else {
                    ShortcutDeed::Nothing
                }
            },
            KeyShortcut::Downloads => {
                if has_tab {
                    self.location_dirty = false;
                    ShortcutDeed::OpenDownloads
                } else {
                    ShortcutDeed::Nothing
                }
            },
            KeyShortcut::DevTools => {
                c.show_console = !c.show_console;
                c.console_filter_focus = c.show_console;
                ShortcutDeed::Nothing
            },
            KeyShortcut::ZoomIn => ShortcutDeed::ZoomIn,
            KeyShortcut::ZoomOut => ShortcutDeed::ZoomOut,
            KeyShortcut::ZoomReset => ShortcutDeed::ZoomReset,
            KeyShortcut::ToggleSplit => ShortcutDeed::ToggleSplit,
        }
    }
}

// ---------------------------------------------------------------------------
// The mouse
// ---------------------------------------------------------------------------

/// A way in which a window is resized.
#[derive(Clone, Copy, Debug, PartialEq, Eq, Structural)]
pub enum ResizeDirection {
    North,
    South,
    East,
    West,
    NorthEast,
    NorthWest,
    SouthEast,
    SouthWest,
}

/// The pointer that shows how a window is resized.
#[derive(Clone, Copy, Debug, PartialEq, Eq, Structural)]
pub enum ResizeCursor {
    NorthSouth,
    EastWest,
    NorthEastSouthWest,
    NorthWestSouthEast,
}

/// Which edges of the window the pointer is at.
#[derive(Clone, Copy, Debug, PartialEq, Eq, Structural)]
pub struct Edges {
    pub top: bool,
    pub bottom: bool,
    pub left: bool,
    pub right: bool,
}

/// The way in which a window is resized at these edges. Corners come first, top before bottom and
/// left before right; a maximised window is not resized.
pub open spec fn resize_at(maximised: bool, e: Edges) -> Option<ResizeDirection> {
    if maximised {
        None
    } else if e.top && e.left {
        Some(ResizeDirection::NorthWest)
    } else if e.top && e.right {
        Some(ResizeDirection::NorthEast)
    } else if e.bottom && e.left {
        Some(ResizeDirection::SouthWest)
    } else if e.bottom && e.right {
        Some(ResizeDirection::SouthEast)
    } else if e.top {
        Some(ResizeDirection::North)
    } else if e.bottom {
        Some(ResizeDirection::South)
    } else if e.left {
        Some(ResizeDirection::West)
    } else if e.right {
        Some(ResizeDirection::East)
    } else {
        None
    }
}

/// The way in which a window is resized at these edges.
pub fn resize_direction_at(maximised: bool, e: Edges) -> (r: Option<ResizeDirection>)
    ensures
        r == resize_at(maximised, e),
{
    if maximised {
        return None;
    }
    if e.top {
        if e.left {
            return Some(ResizeDirection::NorthWest);
        }
        if e.right {
            return Some(ResizeDirection::NorthEast);
        }
    }
    if e.bottom {
        if e.left {
            return Some(ResizeDirection::SouthWest);
        }
        if e.right {
            return Some(ResizeDirection::SouthEast);
        }
    }
    if e.top {
        Some(ResizeDirection::North)
    } else if e.bottom {
        Some(ResizeDirection::South)
    } else if e.left {
        Some(ResizeDirection::West)
    } else if e.right {
        Some(ResizeDirection::East)
    } else {
        None
    }
}

/// The pointer for a way of resizing: opposite ways have the same.
pub open spec fn cursor_for(d: ResizeDirection) -> ResizeCursor {
    match d {
        ResizeDirection::North | ResizeDirection::South => ResizeCursor::NorthSouth,
        ResizeDirection::East | ResizeDirection::West => ResizeCursor::EastWest,
        ResizeDirection::NorthEast
        | ResizeDirection::SouthWest => ResizeCursor::NorthEastSouthWest,
        ResizeDirection::NorthWest
        | ResizeDirection::SouthEast => ResizeCursor::NorthWestSouthEast,
    }
}

/// The pointer for a way of resizing.
pub fn resize_cursor(d: ResizeDirection) -> (r: ResizeCursor)
    ensures
        r == cursor_for(d),
{
    match d {
        ResizeDirection::North | ResizeDirection::South => ResizeCursor::NorthSouth,
        ResizeDirection::East | ResizeDirection::West => ResizeCursor::EastWest,
        ResizeDirection::NorthEast
        | ResizeDirection::SouthWest => ResizeCursor::NorthEastSouthWest,
        ResizeDirection::NorthWest
        | ResizeDirection::SouthEast => ResizeCursor::NorthWestSouthEast,
    }
}

/// Where the pointer is, and what has a claim on it.
#[derive(Clone, Copy, Debug, PartialEq, Eq, Structural)]
pub struct Pointer {
    /// The way in which the window is resized here.
    pub resize: Option<ResizeDirection>,
    /// Over the browser's own controls, at the top or at a side.
    pub over_chrome: bool,
    /// Over the handle by which the window is moved.
    pub over_drag: bool,
    /// Left of the line between the panes.
    pub left_of_divider: bool,
    /// The browser's own controls have taken the event.
    pub consumed: bool,
    pub dialog_open: bool,
    pub split: bool,
    pub focused: usize,
}

/// The pointer is over the pane that has the focus.
pub open spec fn over_focused(p: Pointer) -> bool {
    !p.split || ((p.focused == 0) == p.left_of_divider)
}

/// The page gets what the pointer does.
pub open spec fn reaches_page(p: Pointer) -> bool {
    !p.consumed && !p.over_chrome && !p.dialog_open && over_focused(p)
}

/// Positions on the page count from the line between the panes.
pub open spec fn from_divider(p: Pointer) -> bool {
    p.split && p.focused == 1
}

/// A button of the mouse, as far as it matters here.
#[derive(Clone, Copy, Debug, PartialEq, Eq, Structural)]
pub enum Button {
    Left,
    Right,
    Other,
}

/// What a button of the mouse does.
#[derive(Clone, Copy, Debug, PartialEq, Eq, Structural)]
pub enum ButtonAction {
    Nothing,
    Resize(ResizeDirection),
    ContextMenu,
    DragWindow,
    /// The page gets it, and its tab the focus where the flag is set.
    ToPage(bool),
}

/// The pane that has the focus after a button: a press of the left one in a pane gives it the
/// focus.
pub open spec fn focus_after(b: Button, pressed: bool, p: Pointer) -> usize {
    if b == Button::Left && pressed && p.split && !p.over_chrome {
        if p.left_of_divider {
            0
        } else {
            1
        }
    } else {
        p.focused
    }
}

/// What a button of the mouse does. Resizing comes first, then the menu, then moving the window.
pub open spec fn button_action(b: Button, pressed: bool, p: Pointer) -> ButtonAction {
    if b == Button::Left && pressed && p.resize is Some {
        ButtonAction::Resize(p.resize->0)
    } else if b == Button::Right && pressed && !p.over_chrome && !p.dialog_open {
        ButtonAction::ContextMenu
    } else if b == Button::Left && pressed && p.over_drag && !p.consumed {
        ButtonAction::DragWindow
    } else if reaches_page(Pointer { focused: focus_after(b, pressed, p), ..p }) {
        ButtonAction::ToPage(pressed)
    } else {
        ButtonAction::Nothing
    }
}

/// The pane that has the focus once a button has done what it does: resizing, the menu and moving
/// the window leave it.
pub open spec fn focused_pane_after(b: Button, pressed: bool, p: Pointer) -> usize {
    match button_action(b, pressed, p) {
        ButtonAction::Resize(d) => p.focused,
        ButtonAction::ContextMenu => p.focused,
        ButtonAction::DragWindow => p.focused,
        _ => focus_after(b, pressed, p),
    }
}

fn can_reach_page(p: Pointer) -> (r: bool)
    ensures
        r == reaches_page(p),
{
    !p.consumed && !p.over_chrome && !p.dialog_open && (!p.split || ((p.focused == 0)
        == p.left_of_divider))
}

/// Decides what a button of the mouse does, and which pane has the focus then.
pub fn mouse_input(b: Button, pressed: bool, p: Pointer) -> (r: (ButtonAction, usize))
    ensures
        r.0 == button_action(b, pressed, p),
        r.1 == focused_pane_after(b, pressed, p),
{
    if b == Button::Left && pressed {
        match p.resize {
            Some(d) => {
                return (ButtonAction::Resize(d), p.focused);
            },
            None => {},
        }
    }
    if b == Button::Right && pressed && !p.over_chrome && !p.dialog_open {
        return (ButtonAction::ContextMenu, p.focused);
    }
    if b == Button::Left && pressed && p.over_drag && !p.consumed {
        return (ButtonAction::DragWindow, p.focused);
    }
    let focused: usize = if b == Button::Left && pressed && p.split && !p.over_chrome {
        if p.left_of_divider {
            0
        } else {
            1
        }
    } else {
        p.focused
    };
    let here: Pointer = Pointer { focused, ..p };
    if can_reach_page(here) {
        (ButtonAction::ToPage(pressed), focused)
    } else {
        (ButtonAction::Nothing, focused)
    }
}

/// A press on the browser's own controls never reaches the page, and neither does one while a
/// dialog is open.
pub proof fn chrome_keeps_clicks(b: Button, pressed: bool, p: Pointer)
    requires
        p.over_chrome || p.dialog_open || p.consumed,
    ensures
        !(button_action(b, pressed, p) is ToPage),
{
}

/// A press in a pane reaches the page of that pane: it has the focus by then.
pub proof fn a_press_focuses_its_pane(p: Pointer)
    requires
        p.split,
        button_action(Button::Left, true, p) is ToPage,
    ensures
        focused_pane_after(Button::Left, true, p) == if p.left_of_divider {
            0usize
        } else {
            1
        },
{
}

/// What the pointer shows when it moves.
#[derive(Clone, Copy, Debug, PartialEq, Eq, Structural)]
pub enum PointerShape {
    Resize(ResizeCursor),
    /// The page's own.
    Page,
    /// Whatever the controls under it want.
    Controls,
}

/// What the pointer shows, and whether the page is told that it moved.
pub open spec fn moved_to(p: Pointer) -> (PointerShape, bool) {
    (
        if p.resize is Some {
            PointerShape::Resize(cursor_for(p.resize->0))
        } else if !p.over_chrome {
            PointerShape::Page
        } else {
            PointerShape::Controls
        },
        reaches_page(p),
    )
}

/// Decides what the pointer shows when it moves, and whether the page is told.
pub fn cursor_moved(p: Pointer) -> (r: (PointerShape, bool))
    ensures
        r == moved_to(p),
{
    let shape: PointerShape = match p.resize {
        Some(d) => PointerShape::Resize(resize_cursor(d)),
        None => {
            if !p.over_chrome {
                PointerShape::Page
            } else {
                PointerShape::Controls
            }
        },
    };
    (shape, can_reach_page(p))
}

/// The pointer that a page asks for.
#[derive(Clone, Copy, Debug, PartialEq, Eq, Structural)]
pub enum PageCursor {
    /// No pointer at all.
    Hidden,
    Default,
    Pointer,
    ContextMenu,
    Help,
    Progress,
    Wait,
    Cell,
    Crosshair,
    Text,
    VerticalText,
    Alias,
    Copy,
    Move,
    NoDrop,
    NotAllowed,
    Grab,
    Grabbing,
    EResize,
    NResize,
    NeResize,
    NwResize,
    SResize,
    SeResize,
    SwResize,
    WResize,
    EwResize,
    NsResize,
    NeswResize,
    NwseResize,
    ColResize,
    RowResize,
    AllScroll,
    ZoomIn,
    ZoomOut,
}

/// The pointer that is shown for a page: the one it asks for, except that none of them is hidden.
pub open spec fn visible_cursor(c: PageCursor) -> PageCursor {
    if c is Hidden {
        PageCursor::Default
    } else {
        c
    }
}

/// The pointer that is shown for a page.
pub fn map_cursor(c: PageCursor) -> (r: PageCursor)
    ensures
        r == visible_cursor(c),
{
    match c {
        PageCursor::Hidden => PageCursor::Default,
        other => other,
    }
}

/// Keeps the pointer that the page asks for. The result is what the window is to show now: nothing
/// new while the pointer is elsewhere.
pub fn notify_cursor_changed(
    kept: &mut PageCursor,
    asked: PageCursor,
    over_page: bool,
) -> (r: Option<PageCursor>)
    ensures
        *final(kept) == visible_cursor(asked),
        r == if over_page {
            Some(visible_cursor(asked))
        } else {
            None
        },
{
    *kept = map_cursor(asked);
    if over_page {
        Some(*kept)
    } else {
        None
    }
}

/// What the wheel does.
#[derive(Clone, Copy, Debug, PartialEq, Eq, Structural)]
pub enum WheelAction {
    Nothing,
    ZoomIn,
    ZoomOut,
    ToPage,
}

/// Decides what the wheel does: with Ctrl held it zooms, else the page gets it.
pub fn mouse_wheel(ctrl: bool, up: bool, p: Pointer) -> (r: WheelAction)
    ensures
        r == if ctrl {
            if up {
                WheelAction::ZoomIn
            } else {
                WheelAction::ZoomOut
            }
        } else if reaches_page(p) {
            WheelAction::ToPage
        } else {
            WheelAction::Nothing
        },
{
    if ctrl {
        if up {
            WheelAction::ZoomIn
        } else {
            WheelAction::ZoomOut
        }
    } else if can_reach_page(p) {
        WheelAction::ToPage
    } else {
        WheelAction::Nothing
    }
}

/// Do positions on the page count from the line between the panes?
pub fn counts_from_divider(p: Pointer) -> (r: bool)
    ensures
        r == from_divider(p),
{
    p.split && p.focused == 1
}

// ---------------------------------------------------------------------------
// Laws
// ---------------------------------------------------------------------------

proof fn lemma_letters_differ()
    ensures
        "t"@.len() == 1 && "t"@[0] == 't',
        "w"@.len() == 1 && "w"@[0] == 'w',
        "q"@.len() == 1 && "q"@[0] == 'q',
        "l"@.len() == 1 && "l"@[0] == 'l',
        "n"@.len() == 1 && "n"@[0] == 'n',
        "r"@.len() == 1 && "r"@[0] == 'r',
        "k"@.len() == 1 && "k"@[0] == 'k',
        "d"@.len() == 1 && "d"@[0] == 'd',
        "f"@.len() == 1 && "f"@[0] == 'f',
        "h"@.len() == 1 && "h"@[0] == 'h',
        "j"@.len() == 1 && "j"@[0] == 'j',
{
    reveal_strlit("t");
    reveal_strlit("w");
    reveal_strlit("q");
    reveal_strlit("l");
    reveal_strlit("n");
    reveal_strlit("r");
    reveal_strlit("k");
    reveal_strlit("d");
    reveal_strlit("f");
    reveal_strlit("h");
    reveal_strlit("j");
}

/// Ctrl and a letter that is reserved does what it stands for, in either case and whatever else is
/// going on: T opens a tab, or with Shift the one closed last, W closes the tab, Q quits, L goes to
/// the address bar, N opens a window and R reloads.
pub proof fn reserved_letters_do_their_deed(s: Seq<char>, c: KeyContext)
    requires
        c.pressed && c.ctrl && !c.alt,
    ensures
        text::lowered(s) == "t"@ && c.shift ==> key_action(PressedView::Character(s), c)
            == ActionView::ReopenTab,
        text::lowered(s) == "t"@ && !c.shift ==> key_action(PressedView::Character(s), c)
            == ActionView::NewTab,
        text::lowered(s) == "w"@ ==> key_action(PressedView::Character(s), c) == ActionView::CloseTab,
        text::lowered(s) == "q"@ ==> key_action(PressedView::Character(s), c) == ActionView::Quit,
        text::lowered(s) == "l"@ ==> key_action(PressedView::Character(s), c)
            == ActionView::FocusOmnibox,
        text::lowered(s) == "n"@ ==> key_action(PressedView::Character(s), c) == ActionView::NewWindow,
        text::lowered(s) == "r"@ ==> key_action(PressedView::Character(s), c) == ActionView::Reload,
{
    lemma_letters_differ();
}

/// Ctrl and Tab goes to the next tab, and with Shift to the one before, round and round; with one tab
/// it stays.
pub proof fn ctrl_tab_goes_round(c: KeyContext)
    requires
        c.pressed && c.ctrl && !c.alt,
        c.tabs > 1,
        c.active < c.tabs,
    ensures
        !c.shift && c.active < c.tabs - 1 ==> key_action(PressedView::Tab, c) == ActionView::SelectTab(
            (c.active + 1) as usize,
        ),
        !c.shift && c.active == c.tabs - 1 ==> key_action(PressedView::Tab, c) == ActionView::SelectTab(0),
        c.shift && c.active > 0 ==> key_action(PressedView::Tab, c) == ActionView::SelectTab(
            (c.active - 1) as usize,
        ),
        c.shift && c.active == 0 ==> key_action(PressedView::Tab, c) == ActionView::SelectTab(
            (c.tabs - 1) as usize,
        ),
{
    let n = c.tabs as int;
    let a = c.active as int;
    assert((a + 1) % n == if a + 1 < n {
        a + 1
    } else {
        0
    }) by {
        if a + 1 < n {
            vstd::arithmetic::div_mod::lemma_small_mod((a + 1) as nat, n as nat);
        } else {
            vstd::arithmetic::div_mod::lemma_mod_self_0(n);
        }
    }
    assert((a + n - 1) % n == if a > 0 {
        a - 1
    } else {
        n - 1
    }) by {
        if a > 0 {
            vstd::arithmetic::div_mod::lemma_small_mod((a - 1) as nat, n as nat);
            vstd::arithmetic::div_mod::lemma_mod_add_multiples_vanish(a - 1, n);
            assert(n + (a - 1) == a + n - 1);
        } else {
            vstd::arithmetic::div_mod::lemma_small_mod((n - 1) as nat, n as nat);
        }
    }
}

/// Ctrl and a number goes to the tab of that number, where there is one, and Ctrl and 9 to the last.
pub proof fn ctrl_number_goes_to_that_tab(n: nat, c: KeyContext)
    requires
        c.pressed && c.ctrl && !c.alt,
        1 <= n <= 9,
    ensures
        n == 9 && c.tabs > 0 ==> key_action(PressedView::Character(number::decimal(n)), c)
            == ActionView::SelectTab((c.tabs - 1) as usize),
        n < 9 && n <= c.tabs ==> key_action(PressedView::Character(number::decimal(n)), c)
            == ActionView::SelectTab((n - 1) as usize),
        n < 9 && n > c.tabs ==> key_action(PressedView::Character(number::decimal(n)), c)
            == ActionView::Nothing,
{
    lemma_letters_differ();
    number::lemma_decimal(n);
    number::lemma_read_decimal(n, usize::MAX as nat);
    let s = number::decimal(n);
    let l = text::lowered(s);
    assert(number::is_digit(s[0]));
    assert(l[0] == s[0]);
    assert(l[0] != 't' && l[0] != 'w' && l[0] != 'q' && l[0] != 'l' && l[0] != 'n' && l[0] != 'r');
}

/// The other letters with Ctrl are offered to the page first, where there is one and nothing else has
/// the keys, and else they do what they stand for.
pub proof fn letters_are_offered(s: Seq<char>, c: KeyContext)
    requires
        c.pressed && c.ctrl && !c.alt,
        s.len() == 1,
    ensures
        text::lowered(s) == "f"@ ==> key_action(PressedView::Character(s), c) == if c.consumed
            || c.dialog_open || c.tabs == 0 {
            ActionView::Run(KeyShortcut::Find)
        } else {
            ActionView::Offer(KeyShortcut::Find, PageKeyView::Character(s))
        },
        text::lowered(s) == "d"@ ==> key_action(PressedView::Character(s), c) == if c.consumed
            || c.dialog_open || c.tabs == 0 {
            ActionView::Run(KeyShortcut::Bookmark)
        } else {
            ActionView::Offer(KeyShortcut::Bookmark, PageKeyView::Character(s))
        },
        text::lowered(s) == "k"@ ==> overridable(PressedView::Character(s), c.shift) == Some(
            KeyShortcut::CommandPalette,
        ),
        text::lowered(s) == "h"@ ==> overridable(PressedView::Character(s), c.shift) == Some(
            KeyShortcut::History,
        ),
        text::lowered(s) == "j"@ && !c.shift ==> overridable(PressedView::Character(s), c.shift) == Some(
            KeyShortcut::Downloads,
        ),
        text::lowered(s) == "j"@ && c.shift ==> overridable(PressedView::Character(s), c.shift) == Some(
            KeyShortcut::DevTools,
        ),
        s == seq!['+'] || s == seq!['='] ==> overridable(PressedView::Character(s), c.shift) == Some(
            KeyShortcut::ZoomIn,
        ),
        s == seq!['-'] || s == seq!['_'] ==> overridable(PressedView::Character(s), c.shift) == Some(
            KeyShortcut::ZoomOut,
        ),
        s == seq!['0'] ==> overridable(PressedView::Character(s), c.shift) == Some(
            KeyShortcut::ZoomReset,
        ),
        s == seq!['\\'] ==> overridable(PressedView::Character(s), c.shift) == Some(
            KeyShortcut::ToggleSplit,
        ),
{
    lemma_letters_differ();
    reveal_strlit("=");
    reveal_strlit("+");
    reveal_strlit("-");
    reveal_strlit("_");
    reveal_strlit("0");
    reveal_strlit("\\");
    assert("="@ =~= seq!['='] && "+"@ =~= seq!['+'] && "-"@ =~= seq!['-'] && "_"@ =~= seq!['_']);
    assert("0"@ =~= seq!['0'] && "\\"@ =~= seq!['\\']);
    let l = text::lowered(s);
    assert(l[0] == text::lower_char(s[0]));
    assert("="@[0] == '=' && "+"@[0] == '+' && "-"@[0] == '-' && "_"@[0] == '_' && "0"@[0] == '0'
        && "\\"@[0] == '\\');
    if l == "f"@ || l == "d"@ {
        lemma_no_number(s);
    }
}

proof fn lemma_no_number(s: Seq<char>)
    requires
        s.len() == 1,
        !number::is_digit(s[0]),
    ensures
        number::read_unsigned(s, usize::MAX as nat) is None,
{
    if s[0] == '+' {
        assert(s.skip(1).len() == 0);
    }
}

/// Escape closes the innermost of what is open: the search in the page, then the dialogs, then the
/// full screen; where nothing is, the page gets it. F5 reloads.
pub proof fn escape_closes_what_is_open(c: KeyContext)
    requires
        c.pressed,
    ensures
        c.find_open ==> key_action(PressedView::Escape, c) == ActionView::CloseFind,
        !c.find_open && c.dialog_open ==> key_action(PressedView::Escape, c) == ActionView::ClearDialogs,
        !c.find_open && !c.dialog_open && c.fullscreen ==> key_action(PressedView::Escape, c)
            == ActionView::ExitFullscreen,
        !c.find_open && !c.dialog_open && !c.fullscreen && !c.consumed ==> key_action(
            PressedView::Escape,
            c,
        ) == ActionView::Forward(PageKeyView::Escape, true),
        key_action(PressedView::F5, c) == ActionView::Reload,
{
}

/// A key that is no shortcut reaches the page as it is, down and up, while nothing else has the keys.
pub proof fn plain_keys_reach_the_page(s: Seq<char>, c: KeyContext)
    requires
        !c.ctrl,
        !c.consumed,
        !c.dialog_open,
    ensures
        key_action(PressedView::Character(s), c) == ActionView::Forward(
            PageKeyView::Character(s),
            c.pressed,
        ),
        key_action(PressedView::Enter, c) == ActionView::Forward(PageKeyView::Enter, c.pressed),
        key_action(PressedView::Backspace, c) == ActionView::Forward(PageKeyView::Backspace, c.pressed),
        key_action(PressedView::Delete, c) == ActionView::Forward(PageKeyView::Delete, c.pressed),
        key_action(PressedView::Tab, c) == ActionView::Forward(PageKeyView::Tab, c.pressed),
        key_action(PressedView::ArrowLeft, c) == ActionView::Forward(PageKeyView::ArrowLeft, c.pressed),
        key_action(PressedView::ArrowRight, c) == ActionView::Forward(PageKeyView::ArrowRight, c.pressed),
        key_action(PressedView::ArrowUp, c) == ActionView::Forward(PageKeyView::ArrowUp, c.pressed),
        key_action(PressedView::ArrowDown, c) == ActionView::Forward(PageKeyView::ArrowDown, c.pressed),
        key_action(PressedView::Home, c) == ActionView::Forward(PageKeyView::Home, c.pressed),
        key_action(PressedView::End, c) == ActionView::Forward(PageKeyView::End, c.pressed),
        key_action(PressedView::Space, c) == ActionView::Forward(
            PageKeyView::Character(" "@),
            c.pressed,
        ),
{
}

/// A shortcut that runs does what it stands for: it toggles the bookmark, opens the history or the
/// downloads in a tab, changes the zoom or the split, shows the search bar or the console, or puts the
/// mark of the commands into the address bar.
pub proof fn shortcuts_do_what_they_stand_for(w: window::WindowView, c: ChromeFlags)
    ensures
        shortcut_deed(KeyShortcut::Bookmark, true) == ShortcutDeed::ToggleBookmark,
        shortcut_deed(KeyShortcut::History, true) == ShortcutDeed::OpenHistory,
        shortcut_deed(KeyShortcut::Downloads, true) == ShortcutDeed::OpenDownloads,
        shortcut_deed(KeyShortcut::ZoomIn, true) == ShortcutDeed::ZoomIn,
        shortcut_deed(KeyShortcut::ZoomOut, true) == ShortcutDeed::ZoomOut,
        shortcut_deed(KeyShortcut::ZoomReset, true) == ShortcutDeed::ZoomReset,
        shortcut_deed(KeyShortcut::ToggleSplit, true) == ShortcutDeed::ToggleSplit,
        shortcut_deed(KeyShortcut::History, false) == ShortcutDeed::Nothing,
        flags_after(c, KeyShortcut::Find).find_open && flags_after(c, KeyShortcut::Find).find_focus,
        flags_after(c, KeyShortcut::DevTools).show_console == !c.show_console,
        flags_after(c, KeyShortcut::CommandPalette).focus_omnibox,
        window_after(w, KeyShortcut::CommandPalette).location == ">"@,
        window_after(w, KeyShortcut::ZoomIn) == w && flags_after(c, KeyShortcut::ZoomIn) == c,
{
}

/// A window is resized at the edge that the pointer is at, and at a corner in both ways; one that is
/// maximised is not.
pub proof fn windows_are_resized_at_their_edges(e: Edges)
    ensures
        resize_at(true, e) is None,
        !e.top && !e.bottom && !e.left && !e.right ==> resize_at(false, e) is None,
        e.top && !e.left && !e.right ==> resize_at(false, e) == Some(ResizeDirection::North),
        e.bottom && !e.top && !e.left && !e.right ==> resize_at(false, e) == Some(
            ResizeDirection::South,
        ),
        e.left && !e.top && !e.bottom ==> resize_at(false, e) == Some(ResizeDirection::West),
        e.right && !e.top && !e.bottom && !e.left ==> resize_at(false, e) == Some(ResizeDirection::East),
        e.top && e.left ==> resize_at(false, e) == Some(ResizeDirection::NorthWest),
        e.top && e.right && !e.left ==> resize_at(false, e) == Some(ResizeDirection::NorthEast),
        e.bottom && e.left && !e.top ==> resize_at(false, e) == Some(ResizeDirection::SouthWest),
        e.bottom && e.right && !e.top && !e.left ==> resize_at(false, e) == Some(
            ResizeDirection::SouthEast,
        ),
{
}

/// A press on a page reaches it, where nothing else has a claim; the right button calls up the menu,
/// an edge resizes the window and the handle moves it.
pub proof fn presses_go_where_they_belong(p: Pointer)
    ensures
        p.resize is None && !p.over_chrome && !p.over_drag && !p.consumed && !p.dialog_open
            ==> button_action(Button::Left, true, p) == ButtonAction::ToPage(true),
        p.resize matches Some(d) ==> button_action(Button::Left, true, p) == ButtonAction::Resize(d),
        !p.over_chrome && !p.dialog_open ==> button_action(Button::Right, true, p)
            == ButtonAction::ContextMenu,
        p.resize is None && p.over_drag && !p.consumed ==> button_action(Button::Left, true, p)
            == ButtonAction::DragWindow,
        !p.consumed && !p.over_chrome && !p.dialog_open && !p.split ==> button_action(
            Button::Left,
            false,
            p,
        ) == ButtonAction::ToPage(false) && moved_to(p).1,
        p.split && (p.focused == 0) != p.left_of_divider ==> !moved_to(p).1,
{
}

} // verus!

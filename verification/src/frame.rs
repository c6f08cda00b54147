//! From one frame to the next: what is drawn again, what tabs and the control socket ask for, and
//! looking for text in a page.

use vstd::prelude::*;
use vstd::string::*;

use crate::address;
use crate::codec;
use crate::number;
use crate::reports;
use crate::settings::{Settings, SettingsView};
use crate::tabs;
use crate::tabs::TabAction;
use crate::text;
use crate::window;
use crate::window::TabWindow;

verus! {

// ---------------------------------------------------------------------------
// Drawing again
// ---------------------------------------------------------------------------

/// How many frames are drawn after a pane has changed its size, until the page has caught up.
pub const SETTLE_FRAMES: u32 = 24;

/// How many frames lie between two previews.
pub const PREVIEW_FRAMES: u32 = 24;

/// What is carried from one frame to the next.
#[derive(Clone, Copy, Debug, PartialEq, Eq, Structural)]
pub struct FrameState {
    /// How many frames are still to be drawn.
    pub settle: u32,
    /// The frames counted so far, round and round.
    pub tick: u32,
}

/// The count of frames after one more.
pub open spec fn next_tick(tick: u32) -> u32 {
    if tick == u32::MAX {
        0
    } else {
        (tick + 1) as u32
    }
}

/// What a pane shows.
#[derive(Clone, Copy, Debug, PartialEq, Eq, Structural)]
pub enum PaneStep {
    /// The background alone.
    Blank,
    /// The page, which is kept as a preview where this holds.
    Page(bool),
}

impl FrameState {
    /// Before the first frame.
    pub fn new() -> (r: FrameState)
        ensures
            r.settle == 0,
            r.tick == 0,
    {
        FrameState { settle: 0, tick: 0 }
    }

    /// A pane is to be drawn at a size. Tells whether the size is a new one, so that its pages are
    /// to be resized; some frames are then drawn until they have caught up.
    fn size_pane(&mut self, before: (u32, u32), now: (u32, u32)) -> (r: bool)
        ensures
            r == (before != now),
            final(self).settle == if r {
                SETTLE_FRAMES
            } else {
                old(self).settle
            },
            final(self).tick == old(self).tick,
    {
        if before.0 != now.0 || before.1 != now.1 {
            self.settle = SETTLE_FRAMES;
            true
        } else {
            false
        }
    }

    /// A page was drawn. Tells whether it is time for a preview.
    fn count_frame(&mut self) -> (r: bool)
        ensures
            final(self).tick == next_tick(old(self).tick),
            r == (final(self).tick % PREVIEW_FRAMES == 0),
            final(self).settle == old(self).settle,
    {
        self.tick = if self.tick == u32::MAX {
            0
        } else {
            self.tick + 1
        };
        self.tick % PREVIEW_FRAMES == 0
    }

    /// A pane is drawn at a size. Tells whether its pages are to be resized first, and what is
    /// shown: an empty pane is blank, and counts no frame.
    pub fn render_pane(&mut self, before: (u32, u32), now: (u32, u32), has_tab: bool) -> (r: (
        bool,
        PaneStep,
    ))
        ensures
            r.0 == (before != now),
            r.1 == if !has_tab {
                PaneStep::Blank
            } else {
                PaneStep::Page(next_tick(old(self).tick) % PREVIEW_FRAMES == 0)
            },
            final(self).settle == if r.0 {
                SETTLE_FRAMES
            } else {
                old(self).settle
            },
            final(self).tick == if has_tab {
                next_tick(old(self).tick)
            } else {
                old(self).tick
            },
    {
        let resized: bool = self.size_pane(before, now);
        if !has_tab {
            return (resized, PaneStep::Blank);
        }
        let preview: bool = self.count_frame();
        (resized, PaneStep::Page(preview))
    }

    /// The frame is done. Tells whether another is to be drawn for the sake of a new size.
    pub fn end_frame(&mut self) -> (r: bool)
        ensures
            r == (old(self).settle > 0),
            final(self).settle == if old(self).settle > 0 {
                (old(self).settle - 1) as u32
            } else {
                0u32
            },
            final(self).tick == old(self).tick,
    {
        if self.settle > 0 {
            self.settle = self.settle - 1;
            true
        } else {
            false
        }
    }
}

/// The status line: what the active tab says, where it says anything.
pub open spec fn status_of(w: window::WindowView) -> Option<Seq<char>> {
    let p = w.focused_pane();
    if p.active < p.tabs.len() {
        match p.tabs[p.active as int].status_text {
            Some(s) => if s.len() > 0 {
                Some(s)
            } else {
                None
            },
            None => None,
        }
    } else {
        None
    }
}

/// The label of the message on a download.
pub fn toast_label(message: &str) -> (r: String)
    ensures
        r@ == "↓  "@ + message@,
{
    let mut out: String = "↓  ".to_owned();
    out.append(message);
    out
}

/// The message on a download was clicked, or dismissed: either way it goes. Tells whether the list
/// of downloads is to be loaded in the active tab.
pub fn toast_step(toast: &mut Option<String>, clicked: bool, dismissed: bool, has_tab: bool) -> (r:
    bool)
    ensures
        r == (*old(toast) is Some && clicked && has_tab),
        *final(toast) == if clicked || dismissed {
            None
        } else {
            *old(toast)
        },
{
    let open: bool = toast.is_some() && clicked && has_tab;
    if clicked || dismissed {
        *toast = None;
    }
    open
}

// ---------------------------------------------------------------------------
// Looking for text in a page
// ---------------------------------------------------------------------------

/// The bar in which text is looked for.
#[derive(Debug)]
pub struct FindBar {
    pub open: bool,
    pub focus: bool,
    pub query: String,
    pub matches: usize,
    pub active: usize,
}

/// The call that looks for a text.
pub open spec fn find_call(script: Seq<char>, query: Seq<char>) -> Seq<char> {
    "("@ + script + ")("@ + codec::script_literal(query) + ")"@
}

/// The call that goes to the next match, or the one before.
pub open spec fn step_call(back: bool) -> Seq<char> {
    "(function(d){var ns=document.querySelectorAll('span[data-ngf]');if(!ns.length)return 0;var a=(window.__ngfActive||0)+d;if(a<0)a=ns.length-1;if(a>=ns.length)a=0;window.__ngfActive=a;ns.forEach(function(s,i){s.style.background=(i===a?'#ff9632':'#ffe45e');});ns[a].scrollIntoView({block:'center'});return a+1;})("@
        + (if back {
        "-1"@
    } else {
        "1"@
    }) + ")"@
}

/// The call that takes the marks off the page.
pub open spec fn unmark_call() -> Seq<char> {
    "document.querySelectorAll('span[data-ngf]').forEach(function(s){var p=s.parentNode;if(p){p.replaceChild(document.createTextNode(s.textContent),s);p.normalize();}});"@
}

/// The text inside an optional reference.
pub open spec fn typed_text(o: Option<&str>) -> Option<Seq<char>> {
    match o {
        Some(s) => Some(s@),
        None => None,
    }
}

/// One text or none.
pub open spec fn at_most(on: bool, s: Seq<char>) -> Seq<Seq<char>> {
    if on {
        seq![s]
    } else {
        Seq::empty()
    }
}

/// The calls of one frame of the bar.
pub open spec fn bar_calls(
    script: Seq<char>,
    typed: Option<Seq<char>>,
    previous: bool,
    next: bool,
    close: bool,
) -> Seq<Seq<char>> {
    at_most(
        typed is Some,
        find_call(script, typed->0),
    ) + at_most(previous, step_call(true)) + at_most(next, step_call(false)) + at_most(
        close,
        unmark_call(),
    )
}

impl FindBar {
    /// The bar is closed.
    pub fn new() -> (r: FindBar)
        ensures
            !r.open,
            !r.focus,
            r.query@.len() == 0,
            r.matches == 0,
            r.active == 0,
    {
        FindBar { open: false, focus: false, query: String::new(), matches: 0, active: 0 }
    }

    /// Opens the bar with a text to look for. Returns the call to run in the page.
    pub fn start(&mut self, script: &str, query: &str) -> (r: String)
        ensures
            r@ == find_call(script@, query@),
            final(self).open,
            final(self).focus,
            final(self).query@ == query@,
            final(self).matches == old(self).matches,
            final(self).active == old(self).active,
    {
        self.open = true;
        self.focus = true;
        self.query = query.to_owned();
        find_run(script, query)
    }

    /// The page has counted the matches: the first is shown, if there is one.
    pub fn found(&mut self, n: usize)
        ensures
            final(self).matches == n,
            final(self).active == if n > 0 {
                1usize
            } else {
                0
            },
            final(self).open == old(self).open,
            final(self).focus == old(self).focus,
            final(self).query == old(self).query,
    {
        self.matches = n;
        self.active = if n > 0 {
            1
        } else {
            0
        };
    }

    /// The page has gone to another match.
    pub fn stepped(&mut self, n: usize)
        ensures
            final(self).active == n,
            final(self).matches == old(self).matches,
            final(self).open == old(self).open,
            final(self).focus == old(self).focus,
            final(self).query == old(self).query,
    {
        self.active = n;
    }

    /// Closes the bar. Returns the call that takes the marks off the page.
    pub fn find_close(&mut self) -> (r: &'static str)
        ensures
            !final(self).open,
            final(self).matches == 0,
            final(self).active == old(self).active,
            final(self).focus == old(self).focus,
            final(self).query == old(self).query,
            r@ == unmark_call(),
    {
        self.open = false;
        self.matches = 0;
        "document.querySelectorAll('span[data-ngf]').forEach(function(s){var p=s.parentNode;if(p){p.replaceChild(document.createTextNode(s.textContent),s);p.normalize();}});"
    }

    /// One frame of the bar: the text field is drawn, given the focus where it is waited for, and
    /// the buttons are read. Returns whether the field is to get the focus, and the calls to run in
    /// the page, in order. A closed bar is not drawn.
    pub fn draw(
        &mut self,
        script: &str,
        typed: Option<&str>,
        previous: bool,
        next: bool,
        close: bool,
    ) -> (r: (bool, Vec<String>))
        ensures
            r.0 == (old(self).open && old(self).focus),
            text::texts(r.1@) == if old(self).open {
                bar_calls(script@, typed_text(typed), previous, next, close)
            } else {
                Seq::empty()
            },
            final(self).open == (old(self).open && !close),
            final(self).focus == (old(self).focus && !old(self).open),
            final(self).query@ == if old(self).open && typed is Some {
                typed->0@
            } else {
                old(self).query@
            },
            final(self).matches == if old(self).open && close {
                0
            } else {
                old(self).matches
            },
            final(self).active == old(self).active,
    {
        let mut calls: Vec<String> = Vec::new();
        if !self.open {
            assert(text::texts(calls@) =~= Seq::<Seq<char>>::empty());
            return (false, calls);
        }
        let focus: bool = self.focus;
        self.focus = false;
        match typed {
            Some(q) => {
                self.query = q.to_owned();
                calls.push(find_run(script, q));
            },
            None => {},
        }
        if previous {
            calls.push(find_step(true));
        }
        if next {
            calls.push(find_step(false));
        }
        if close {
            calls.push(self.find_close().to_owned());
        }
        assert(text::texts(calls@) =~= bar_calls(
            script@,
            typed_text(typed),
            previous,
            next,
            close,
        ));
        (focus, calls)
    }

    /// Which match is shown, of how many.
    pub fn count_label(&self) -> (r: String)
        ensures
            r@ == number::decimal(self.active as nat) + "/"@ + number::decimal(self.matches as nat),
    {
        let mut out: String = number::decimal_string(self.active as u64);
        out.append("/");
        out.append(number::decimal_string(self.matches as u64).as_str());
        out
    }
}

/// The call that looks for a text.
pub fn find_run(script: &str, query: &str) -> (r: String)
    ensures
        r@ == find_call(script@, query@),
{
    let mut out: String = "(".to_owned();
    out.append(script);
    out.append(")(");
    out.append(codec::js_string(query).as_str());
    out.append(")");
    out
}

/// The call that goes to the next match, or the one before.
pub fn find_step(back: bool) -> (r: String)
    ensures
        r@ == step_call(back),
{
    let mut out: String = "(function(d){var ns=document.querySelectorAll('span[data-ngf]');if(!ns.length)return 0;var a=(window.__ngfActive||0)+d;if(a<0)a=ns.length-1;if(a>=ns.length)a=0;window.__ngfActive=a;ns.forEach(function(s,i){s.style.background=(i===a?'#ff9632':'#ffe45e');});ns[a].scrollIntoView({block:'center'});return a+1;})(".to_owned();
    out.append(
        if back {
            "-1"
        } else {
            "1"
        },
    );
    out.append(")");
    out
}

// ---------------------------------------------------------------------------
// Dark pages
// ---------------------------------------------------------------------------

/// What is done to a page so that it is dark, or no longer is. Only web pages are changed: internal
/// pages have the browser's colours.
#[derive(Clone, Copy, Debug, PartialEq, Eq, Structural)]
pub enum DarkStep {
    Nothing,
    Darken,
    Restore,
}

/// What is done to a page so that it is dark, or no longer is.
pub open spec fn dark_step(url: Seq<char>, on: bool) -> DarkStep {
    if !reports::is_web_address(url) {
        DarkStep::Nothing
    } else if on {
        DarkStep::Darken
    } else {
        DarkStep::Restore
    }
}

impl Settings {
    /// Switches dark pages on or off. Tells which.
    pub fn toggle_force_dark(&mut self) -> (r: bool)
        ensures
            final(self)@ == (SettingsView { force_dark: r, ..old(self)@ }),
            r == !old(self).force_dark,
    {
        self.force_dark = !self.force_dark;
        self.force_dark
    }
}

fn darken_tabs(t: &Vec<tabs::Tab>, on: bool) -> (r: Vec<(u64, DarkStep)>)
    ensures
        r@ == dark_steps(tabs::tab_views(t@), on),
{
    let mut out: Vec<(u64, DarkStep)> = Vec::new();
    let mut i: usize = 0;
    while i < t.len()
        invariant
            i <= t@.len(),
            out@.len() == i,
            forall|j: int|
                0 <= j < i ==> #[trigger] out@[j] == (t@[j].id, dark_step(t@[j].url@, on)),
        decreases t@.len() - i,
    {
        out.push((t[i].id, apply_force_dark(t[i].url.as_str(), on)));
        i = i + 1;
    }
    assert(out@ =~= dark_steps(tabs::tab_views(t@), on));
    out
}

/// Decides what is done to a page so that it is dark, or no longer is.
pub fn apply_force_dark(url: &str, on: bool) -> (r: DarkStep)
    ensures
        r == dark_step(url@, on),
{
    if !reports::web_address(url) {
        DarkStep::Nothing
    } else if on {
        DarkStep::Darken
    } else {
        DarkStep::Restore
    }
}

// ---------------------------------------------------------------------------
// Tabs
// ---------------------------------------------------------------------------

/// What is left to do of what a tab asks for.
#[derive(Debug)]
pub enum TabDeed {
    Nothing,
    NewTab,
    ToggleOrientation,
    /// Open a window at this address.
    NewWindow(String),
}

/// The window after what a tab asks for.
pub open spec fn after_tab_action(w: window::WindowView, a: TabAction) -> window::WindowView {
    match a {
        TabAction::Select(i) => window::selected(w, w.focused, i),
        TabAction::Close(i) => window::closed(w, w.focused, i),
        TabAction::CloseOthers(i) => window::others_closed(w, i),
        TabAction::TogglePin(i) => if i < w.focused_pane().tabs.len() {
            w.with_tab(
                w.focused,
                i as int,
                tabs::TabView {
                    pinned: !w.focused_pane().tabs[i as int].pinned,
                    ..w.focused_pane().tabs[i as int]
                },
            )
        } else {
            w
        },
        TabAction::PopOut(i) => window::closed(w, w.focused, i),
        _ => w,
    }
}

/// The address that a tab takes to a window of its own.
pub open spec fn popped_out(w: window::WindowView, i: usize, first_page: Seq<char>) -> Seq<char> {
    if i < w.focused_pane().tabs.len() {
        match address::parsed_url(w.focused_pane().tabs[i as int].url) {
            Some(u) => u.text,
            None => first_page,
        }
    } else {
        first_page
    }
}

/// What is left to do of what a tab asks for.
pub open spec fn is_tab_deed(
    w: window::WindowView,
    a: TabAction,
    first_page: Seq<char>,
    d: TabDeed,
) -> bool {
    match a {
        TabAction::NewTab => d is NewTab,
        TabAction::ToggleOrientation => d is ToggleOrientation,
        TabAction::PopOut(i) => d matches TabDeed::NewWindow(u) && u@ == popped_out(
            w,
            i,
            first_page,
        ),
        _ => d is Nothing,
    }
}

/// The pane with the focus has an active tab.
pub open spec fn has_active(w: window::WindowView) -> bool {
    w.focused_pane().active < w.focused_pane().tabs.len()
}

/// The window once the split is switched: the right pane closes, or it opens on the left pane's
/// page.
pub open spec fn split_toggled(w: window::WindowView, id: u64, first_page: Seq<char>) -> window::WindowView {
    if w.split {
        window::unsplit(w)
    } else {
        window::WindowView {
            pane1: tabs::PaneView {
                tabs: w.pane1.tabs.push(
                    tabs::fresh(id, window::seed_address(w.pane0, first_page)),
                ),
                active: 0,
                ..w.pane1
            },
            split: true,
            focused: 1,
            ..w
        }
    }
}

/// Switching the split on and off again leaves the left pane as it was, with the focus.
pub proof fn split_toggles_back(w: window::WindowView, id: u64, first_page: Seq<char>)
    requires
        w.wf(),
        !w.split,
    ensures
        split_toggled(split_toggled(w, id, first_page), id, first_page).pane0 == w.pane0,
        split_toggled(split_toggled(w, id, first_page), id, first_page).focused == w.focused,
        !split_toggled(split_toggled(w, id, first_page), id, first_page).split,
        split_toggled(split_toggled(w, id, first_page), id, first_page).wf(),
{
}

/// What is done to each of some tabs so that it is dark, or no longer is.
pub open spec fn dark_steps(t: Seq<tabs::TabView>, on: bool) -> Seq<(u64, DarkStep)> {
    Seq::new(t.len(), |i: int| (t[i].id, dark_step(t[i].url, on)))
}

impl TabWindow {
    /// Is there an active tab?
    pub fn has_active_tab(&self) -> (r: bool)
        ensures
            r == has_active(self@),
    {
        let p: &tabs::PaneGroup = self.pane(self.focused);
        p.active < p.tabs.len()
    }

    /// Switches the split; `id` is that of the tab that opens with it.
    pub fn toggle_split(&mut self, id: u64, first_page: &str)
        ensures
            final(self)@ == split_toggled(old(self)@, id, first_page@),
            old(self)@.wf() ==> final(self)@.wf(),
    {
        if self.split {
            self.exit_split();
        } else {
            let seed: String = self.split_seed(first_page);
            self.enter_split(id, seed.as_str());
        }
    }

    /// What is done to each tab so that it is dark, or no longer is: the left pane's tabs first.
    pub fn force_dark_steps(&self, on: bool) -> (r: Vec<(u64, DarkStep)>)
        ensures
            r@ == dark_steps(self@.pane0.tabs, on) + dark_steps(self@.pane1.tabs, on),
    {
        let mut out: Vec<(u64, DarkStep)> = darken_tabs(&self.pane0.tabs, on);
        let mut more: Vec<(u64, DarkStep)> = darken_tabs(&self.pane1.tabs, on);
        out.append(&mut more);
        out
    }

    /// The status line.
    pub fn status_line(&self) -> (r: Option<String>)
        ensures
            address::optional_text(r) == status_of(self@),
    {
        let p: &tabs::PaneGroup = self.pane(self.focused);
        if p.active < p.tabs.len() {
            match &p.tabs[p.active].status_text {
                Some(s) => {
                    if s.as_str().unicode_len() > 0 {
                        Some(s.clone())
                    } else {
                        None
                    }
                },
                None => None,
            }
        } else {
            None
        }
    }

    /// Carries out what a tab asks for. Returns what is left to do, and whether the list of tabs
    /// has changed, so that the strip is not drawn any further this frame.
    pub fn apply_tab_action(&mut self, a: TabAction, first_page: &str) -> (r: (TabDeed, bool))
        requires
            old(self)@.wf(),
        ensures
            final(self)@ == after_tab_action(old(self)@, a),
            is_tab_deed(old(self)@, a, first_page@, r.0),
            r.1 == !(a is Nothing || a is Select),
            final(self)@.wf(),
    {
        let focused: usize = self.focused;
        match a {
            TabAction::Nothing => (TabDeed::Nothing, false),
            TabAction::Select(i) => {
                self.select_tab(focused, i);
                (TabDeed::Nothing, false)
            },
            TabAction::Close(i) => {
                self.close_tab(focused, i);
                (TabDeed::Nothing, true)
            },
            TabAction::CloseOthers(i) => {
                self.close_others(i);
                (TabDeed::Nothing, true)
            },
            TabAction::TogglePin(i) => {
                self.toggle_pin(i);
                (TabDeed::Nothing, true)
            },
            TabAction::NewTab => (TabDeed::NewTab, true),
            TabAction::ToggleOrientation => (TabDeed::ToggleOrientation, true),
            TabAction::PopOut(i) => {
                let url: String = self.pop_out_address(i, first_page);
                self.close_tab(focused, i);
                (TabDeed::NewWindow(url), true)
            },
        }
    }

    /// The requests blocked on the active tab's page, kept for the page that lists them.
    pub fn open_why(&self) -> (r: Vec<String>)
        ensures
            text::texts(r@) == {
                let p = self@.focused_pane();
                if p.active < p.tabs.len() {
                    p.tabs[p.active as int].blocked
                } else {
                    Seq::empty()
                }
            },
    {
        let p: &tabs::PaneGroup = self.pane(self.focused);
        if p.active < p.tabs.len() {
            text::copy_strings(&p.tabs[p.active].blocked)
        } else {
            let out: Vec<String> = Vec::new();
            assert(text::texts(out@) =~= Seq::<Seq<char>>::empty());
            out
        }
    }
}

// ---------------------------------------------------------------------------
// The control socket
// ---------------------------------------------------------------------------

/// A command from the control socket.
#[derive(Debug)]
pub enum IpcCommand {
    Navigate(String),
    NewTab,
    Reload,
    Back,
    Forward,
    SelectTab(usize),
    CloseTab(usize),
}

/// What is left to do of a command.
#[derive(Debug)]
pub enum IpcDeed {
    Nothing,
    /// Load this address in the active tab.
    Load(String),
    NewTab,
    Reload,
    GoBack,
    GoForward,
}

/// What is left to do of a command; an address that cannot be read is dropped, and so is what needs
/// a tab where there is none.
pub open spec fn is_ipc_deed(w: window::WindowView, c: IpcCommand, d: IpcDeed) -> bool {
    match c {
        IpcCommand::Navigate(url) => match address::parsed_url(url@) {
            Some(u) => if has_active(w) {
                d matches IpcDeed::Load(x) && x@ == u.text
            } else {
                d is Nothing
            },
            None => d is Nothing,
        },
        IpcCommand::NewTab => d is NewTab,
        IpcCommand::Reload => if has_active(w) {
            d is Reload
        } else {
            d is Nothing
        },
        IpcCommand::Back => if has_active(w) {
            d is GoBack
        } else {
            d is Nothing
        },
        IpcCommand::Forward => if has_active(w) {
            d is GoForward
        } else {
            d is Nothing
        },
        IpcCommand::SelectTab(i) => d is Nothing,
        IpcCommand::CloseTab(i) => d is Nothing,
    }
}

impl TabWindow {
    /// Carries out a command from the control socket, and returns what is left to do.
    pub fn handle_ipc(&mut self, c: &IpcCommand) -> (r: IpcDeed)
        requires
            old(self)@.wf(),
        ensures
            is_ipc_deed(old(self)@, *c, r),
            final(self)@ == match c {
                IpcCommand::SelectTab(i) => window::selected(old(self)@, old(self)@.focused, *i),
                IpcCommand::CloseTab(i) => window::closed(old(self)@, old(self)@.focused, *i),
                _ => old(self)@,
            },
            final(self)@.wf(),
    {
        let focused: usize = self.focused;
        let active: bool = self.has_active_tab();
        match c {
            IpcCommand::Navigate(url) => match address::parse_url(url.as_str()) {
                Some(u) => if active {
                    IpcDeed::Load(u.text)
                } else {
                    IpcDeed::Nothing
                },
                None => IpcDeed::Nothing,
            },
            IpcCommand::NewTab => IpcDeed::NewTab,
            IpcCommand::Reload => if active {
                IpcDeed::Reload
            } else {
                IpcDeed::Nothing
            },
            IpcCommand::Back => if active {
                IpcDeed::GoBack
            } else {
                IpcDeed::Nothing
            },
            IpcCommand::Forward => if active {
                IpcDeed::GoForward
            } else {
                IpcDeed::Nothing
            },
            IpcCommand::SelectTab(i) => {
                self.select_tab(focused, *i);
                IpcDeed::Nothing
            },
            IpcCommand::CloseTab(i) => {
                self.close_tab(focused, *i);
                IpcDeed::Nothing
            },
        }
    }
}

/// The windows without one of them.
pub open spec fn without_window(w: Seq<u64>, id: u64) -> Seq<u64>
    decreases w.len(),
{
    if w.len() == 0 {
        Seq::empty()
    } else if w.last() == id {
        without_window(w.drop_last(), id)
    } else {
        without_window(w.drop_last(), id).push(w.last())
    }
}

/// A window closes. Tells whether the browser is to end: only when no window is left.
pub fn close_window(windows: &mut Vec<u64>, id: u64) -> (r: bool)
    ensures
        final(windows)@ == without_window(old(windows)@, id),
        r == (final(windows)@.len() == 0),
{
    let mut left: Vec<u64> = Vec::new();
    let mut i: usize = 0;
    assert(windows@.take(0) =~= Seq::empty());
    while i < windows.len()
        invariant
            i <= windows@.len(),
            windows@ == old(windows)@,
            left@ == without_window(windows@.take(i as int), id),
        decreases windows@.len() - i,
    {
        assert(windows@.take(i + 1).drop_last() =~= windows@.take(i as int));
        if windows[i] != id {
            left.push(windows[i]);
        }
        i = i + 1;
    }
    assert(windows@.take(windows@.len() as int) =~= windows@);
    *windows = left;
    windows.len() == 0
}

// ---------------------------------------------------------------------------
// Wake-ups
// ---------------------------------------------------------------------------

/// What another thread wakes the event loop for.
#[derive(Clone, Copy, Debug, PartialEq, Eq, Structural)]
pub enum WakeUp {
    /// The engine has something to do.
    Wake,
    /// A command has come in from outside.
    Ipc,
    /// A sync has ended.
    SyncDone,
    /// Rules that hide elements are ready.
    CosmeticReady,
    Exit,
}

/// What a wake-up comes to.
#[derive(Clone, Copy, Debug, PartialEq, Eq, Structural)]
pub enum WakeStep {
    /// The engine is shut down, which writes what it keeps, and then the browser ends.
    Stop,
    /// One window is handed what has come, if it must be; then every window is drawn anew.
    Refresh { handed: bool },
}

/// Decides what a wake-up comes to. What concerns the whole browser is handed to a single window,
/// where one is open.
pub fn user_event(event: WakeUp, windows: usize) -> (r: WakeStep)
    ensures
        r == match event {
            WakeUp::Exit => WakeStep::Stop,
            WakeUp::Wake => WakeStep::Refresh { handed: false },
            _ => WakeStep::Refresh { handed: windows > 0 },
        },
{
    match event {
        WakeUp::Exit => WakeStep::Stop,
        WakeUp::Wake => WakeStep::Refresh { handed: false },
        WakeUp::Ipc | WakeUp::SyncDone | WakeUp::CosmeticReady => WakeStep::Refresh {
            handed: windows > 0,
        },
    }
}

// ---------------------------------------------------------------------------
// Laws
// ---------------------------------------------------------------------------

/// Switching the split on gives the right pane one tab, on the page that the left pane shows, and the
/// focus; the left pane stays as it is either way.
pub proof fn a_split_shows_the_page_twice(w: window::WindowView, id: u64, first_page: Seq<char>)
    requires
        w.wf(),
    ensures
        split_toggled(w, id, first_page).split == !w.split,
        split_toggled(w, id, first_page).pane0 == w.pane0,
        !w.split ==> {
            let r = split_toggled(w, id, first_page);
            &&& r.focused == 1 && r.pane1.active == 0 && r.pane1.tabs.len() == 1
            &&& r.pane1.tabs[0].id == id
            &&& w.pane0.tabs.len() > 0 ==> (address::parsed_url(
                w.pane0.tabs[w.pane0.active as int].url,
            ) matches Some(u) ==> r.pane1.tabs[0].url == u.text)
        },
        w.split ==> split_toggled(w, id, first_page).focused == 0 && split_toggled(
            w,
            id,
            first_page,
        ).pane1.tabs.len() == 0,
{
}

/// Web pages are darkened when that is switched on and restored when it is switched off; no other
/// page is touched.
pub proof fn only_web_pages_are_darkened(rest: Seq<char>, on: bool)
    ensures
        dark_step("http://"@ + rest, on) == if on {
            DarkStep::Darken
        } else {
            DarkStep::Restore
        },
        dark_step("https://"@ + rest, on) == if on {
            DarkStep::Darken
        } else {
            DarkStep::Restore
        },
        dark_step("gator://"@ + rest, on) == DarkStep::Nothing,
        dark_step(Seq::empty(), on) == DarkStep::Nothing,
{
    reveal_strlit("http://");
    reveal_strlit("https://");
    reveal_strlit("gator://");
    assert(("http://"@ + rest).take(7) =~= "http://"@);
    assert(("https://"@ + rest).take(8) =~= "https://"@);
    assert(("gator://"@ + rest)[0] == 'g');
    assert("http://"@[0] == 'h' && "https://"@[0] == 'h');
}

/// Every tab is darkened or restored by its own address.
pub proof fn every_tab_is_darkened(t: Seq<tabs::TabView>, on: bool)
    ensures
        dark_steps(t, on).len() == t.len(),
        forall|i: int|
            0 <= i < t.len() ==> (#[trigger] dark_steps(t, on)[i]).0 == t[i].id && dark_steps(t, on)[i].1
                == dark_step(t[i].url, on),
{
}

/// A closed window is gone and the others stay, in their order.
pub proof fn a_closed_window_is_gone(w: Seq<u64>, id: u64)
    ensures
        without_window(w, id) == w.filter(|x: u64| x != id),
    decreases w.len(),
{
    reveal(Seq::filter);
    if w.len() > 0 {
        a_closed_window_is_gone(w.drop_last(), id);
    }
}

/// What a tab asks for is done in the pane with the focus: a closed tab is gone, as is one that gets
/// a window of its own, and a selected one is active.
pub proof fn tabs_get_what_they_ask_for(w: window::WindowView, i: usize)
    requires
        w.wf(),
        i < w.focused_pane().tabs.len() <= usize::MAX,
    ensures
        after_tab_action(w, TabAction::Close(i)).pane(w.focused).tabs == w.focused_pane().tabs.take(
            i as int,
        ) + w.focused_pane().tabs.skip(i + 1),
        after_tab_action(w, TabAction::PopOut(i)).pane(w.focused).tabs == w.focused_pane().tabs.take(
            i as int,
        ) + w.focused_pane().tabs.skip(i + 1),
        after_tab_action(w, TabAction::Select(i)).pane(w.focused).active == i,
        after_tab_action(w, TabAction::Select(i)).pane(w.focused).tabs == w.focused_pane().tabs,
        after_tab_action(w, TabAction::NewTab) == w,
        after_tab_action(w, TabAction::ToggleOrientation) == w,
        after_tab_action(w, TabAction::Nothing) == w,
{
    window::a_closed_tab_is_gone(w, w.focused, i);
}

/// After "close other tabs" the tab it was asked on is the active one.
pub proof fn the_asking_tab_stays(w: window::WindowView, i: usize)
    requires
        w.wf(),
        i < w.focused_pane().tabs.len() <= usize::MAX,
    ensures
        ({
            let p = after_tab_action(w, TabAction::CloseOthers(i)).focused_pane();
            p.active < p.tabs.len() && p.tabs[p.active as int] == w.focused_pane().tabs[i as int]
        }),
{
    window::the_kept_tab_is_active(w, i);
}

/// A tab that is pinned is no longer, or the other way round, and nothing else changes: the second
/// time undoes the first.
pub proof fn pinning_toggles(w: window::WindowView, i: usize)
    requires
        i < w.focused_pane().tabs.len(),
    ensures
        ({
            let p = after_tab_action(w, TabAction::TogglePin(i)).focused_pane();
            let t = w.focused_pane().tabs;
            &&& p.tabs.len() == t.len()
            &&& p.tabs[i as int].pinned == !t[i as int].pinned
            &&& p.tabs[i as int].id == t[i as int].id && p.tabs[i as int].url == t[i as int].url
            &&& forall|j: int| 0 <= j < t.len() && j != i ==> p.tabs[j] == #[trigger] t[j]
        }),
{
}

/// A tab that is taken to a window of its own takes its address there.
pub proof fn a_tab_takes_its_page_along(w: window::WindowView, i: usize, first_page: Seq<char>)
    requires
        i < w.focused_pane().tabs.len(),
    ensures
        address::parsed_url(w.focused_pane().tabs[i as int].url) matches Some(u) ==> popped_out(
            w,
            i,
            first_page,
        ) == u.text,
        address::parsed_url(w.focused_pane().tabs[i as int].url) is None ==> popped_out(
            w,
            i,
            first_page,
        ) == first_page,
{
}

/// Each use of the bar makes its own call, and no other: typing looks for the text, the buttons step
/// back and on, and closing takes the marks off.
pub proof fn the_bar_calls_what_was_used(script: Seq<char>, q: Seq<char>)
    ensures
        bar_calls(script, None, false, false, false).len() == 0,
        bar_calls(script, Some(q), false, false, false) == seq![
            "("@ + script + ")("@ + codec::script_literal(q) + ")"@,
        ],
        bar_calls(script, None, true, false, false) == seq![step_call(true)],
        bar_calls(script, None, false, true, false) == seq![step_call(false)],
        bar_calls(script, None, false, false, true) == seq![unmark_call()],
        step_call(true) != step_call(false),
        "-1)"@.is_suffix_of(step_call(true)),
        "(1)"@.is_suffix_of(step_call(false)),
{
    let s = "(function(d){var ns=document.querySelectorAll('span[data-ngf]');if(!ns.length)return 0;var a=(window.__ngfActive||0)+d;if(a<0)a=ns.length-1;if(a>=ns.length)a=0;window.__ngfActive=a;ns.forEach(function(s,i){s.style.background=(i===a?'#ff9632':'#ffe45e');});ns[a].scrollIntoView({block:'center'});return a+1;})("@;
    reveal_strlit("(function(d){var ns=document.querySelectorAll('span[data-ngf]');if(!ns.length)return 0;var a=(window.__ngfActive||0)+d;if(a<0)a=ns.length-1;if(a>=ns.length)a=0;window.__ngfActive=a;ns.forEach(function(s,i){s.style.background=(i===a?'#ff9632':'#ffe45e');});ns[a].scrollIntoView({block:'center'});return a+1;})(");
    reveal_strlit("-1");
    reveal_strlit("1");
    reveal_strlit(")");
    reveal_strlit("-1)");
    reveal_strlit("(1)");
    let n = s.len() as int;
    assert(step_call(true).len() == n + 3 && step_call(false).len() == n + 2);
    assert(step_call(true).skip(n) =~= "-1)"@);
    assert(s[n - 1] == '(');
    assert(step_call(false).skip(n - 1) =~= "(1)"@);
    assert(bar_calls(script, Some(q), false, false, false) =~= seq![find_call(script, q)]);
    assert(bar_calls(script, None, true, false, false) =~= seq![step_call(true)]);
    assert(bar_calls(script, None, false, true, false) =~= seq![step_call(false)]);
    assert(bar_calls(script, None, false, false, true) =~= seq![unmark_call()]);
}

/// The status line is what the active tab says; an empty message is none.
pub proof fn the_status_line_is_the_active_tabs(w: window::WindowView, s: Seq<char>)
    requires
        w.focused_pane().active < w.focused_pane().tabs.len(),
    ensures
        s.len() > 0 ==> (status_of(w) == Some(s)
            <==> w.focused_pane().tabs[w.focused_pane().active as int].status_text == Some(s)),
        w.focused_pane().tabs[w.focused_pane().active as int].status_text is None ==> status_of(w) is None,
        status_of(w) matches Some(t) ==> t.len() > 0,
{
}

/// A command from outside does what it is called, in the active tab: an address is loaded in its normal
/// form, and the page is reloaded or led back or forward. Without a tab, or with what is no address,
/// nothing is left to do; a new tab is opened in any case.
pub proof fn commands_do_what_they_are_called(w: window::WindowView, url: String, i: usize, d: IpcDeed)
    ensures
        w.focused_pane().active < w.focused_pane().tabs.len() ==> {
            &&& is_ipc_deed(w, IpcCommand::Reload, d) <==> d is Reload
            &&& is_ipc_deed(w, IpcCommand::Back, d) <==> d is GoBack
            &&& is_ipc_deed(w, IpcCommand::Forward, d) <==> d is GoForward
            &&& address::parsed_url(url@) matches Some(u) ==> (is_ipc_deed(w, IpcCommand::Navigate(url), d)
                <==> (d matches IpcDeed::Load(x) && x@ == u.text))
        },
        w.focused_pane().active >= w.focused_pane().tabs.len() ==> {
            &&& is_ipc_deed(w, IpcCommand::Reload, d) <==> d is Nothing
            &&& is_ipc_deed(w, IpcCommand::Back, d) <==> d is Nothing
            &&& is_ipc_deed(w, IpcCommand::Forward, d) <==> d is Nothing
            &&& is_ipc_deed(w, IpcCommand::Navigate(url), d) <==> d is Nothing
        },
        address::parsed_url(url@) is None ==> (is_ipc_deed(w, IpcCommand::Navigate(url), d)
            <==> d is Nothing),
        is_ipc_deed(w, IpcCommand::NewTab, d) <==> d is NewTab,
        is_ipc_deed(w, IpcCommand::SelectTab(i), d) <==> d is Nothing,
        is_ipc_deed(w, IpcCommand::CloseTab(i), d) <==> d is Nothing,
{
}

} // verus!

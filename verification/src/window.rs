//! A window's panes as a state machine: what selecting, closing, moving and splitting do, and
//! what the pages' reports change.

use vstd::prelude::*;
use vstd::string::*;

use crate::address;
use crate::session;
use crate::tabs;
use crate::tabs::{PaneGroup, Tab};
use crate::text;

verus! {

/// The state of a window that concerns its tabs.
pub struct TabWindow {
    pub pane0: PaneGroup,
    pub pane1: PaneGroup,
    /// Both panes are shown.
    pub split: bool,
    /// The pane that the address bar and the shortcuts act on, 0 or 1.
    pub focused: usize,
    /// The text in the address bar.
    pub location: String,
    /// The user has edited the address bar and not yet gone there.
    pub location_dirty: bool,
    /// The addresses of closed tabs, the latest last.
    pub closed_tabs: Vec<String>,
    /// The last tab is gone, and the window is to close.
    pub wants_close: bool,
}

/// `TabWindow` as mathematical values.
#[verifier::ext_equal]
pub struct WindowView {
    pub pane0: tabs::PaneView,
    pub pane1: tabs::PaneView,
    pub split: bool,
    pub focused: usize,
    pub location: Seq<char>,
    pub location_dirty: bool,
    pub closed_tabs: Seq<Seq<char>>,
    pub wants_close: bool,
}

impl View for TabWindow {
    type V = WindowView;

    open spec fn view(&self) -> WindowView {
        WindowView {
            pane0: self.pane0@,
            pane1: self.pane1@,
            split: self.split,
            focused: self.focused,
            location: self.location@,
            location_dirty: self.location_dirty,
            closed_tabs: text::texts(self.closed_tabs@),
            wants_close: self.wants_close,
        }
    }
}

impl WindowView {
    /// The pane by its number.
    pub open spec fn pane(self, pane: usize) -> tabs::PaneView {
        if pane == 1 {
            self.pane1
        } else {
            self.pane0
        }
    }

    /// The window with another pane in the place of one.
    pub open spec fn with_pane(self, pane: usize, p: tabs::PaneView) -> WindowView {
        if pane == 1 {
            WindowView { pane1: p, ..self }
        } else {
            WindowView { pane0: p, ..self }
        }
    }

    /// The window with a tab replaced.
    pub open spec fn with_tab(self, pane: usize, i: int, t: tabs::TabView) -> WindowView {
        self.with_pane(
            pane,
            tabs::PaneView { tabs: self.pane(pane).tabs.update(i, t), ..self.pane(pane) },
        )
    }

    pub open spec fn focused_pane(self) -> tabs::PaneView {
        self.pane(self.focused)
    }

    /// In each pane that has tabs the active mark is on one of them; the right pane has tabs, and
    /// the focus, only while the window is split.
    pub open spec fn wf(self) -> bool {
        &&& self.pane0.tabs.len() > 0 ==> self.pane0.active < self.pane0.tabs.len()
        &&& self.pane1.tabs.len() > 0 ==> self.pane1.active < self.pane1.tabs.len()
        &&& self.focused == 0 || (self.focused == 1 && self.split)
        &&& !self.split ==> self.pane1.tabs.len() == 0
    }
}

/// A pane without tabs: nothing in it is dragged, and nothing is to be scrolled to.
pub open spec fn empty_pane() -> tabs::PaneView {
    tabs::PaneView {
        tabs: Seq::empty(),
        active: 0,
        drag_tab: None,
        scroll_active_into_view: false,
    }
}

/// A window as it is when it opens, before it has a tab: one pane, an empty address bar, and no
/// closed tab to go back to.
pub open spec fn empty_window() -> WindowView {
    WindowView {
        pane0: empty_pane(),
        pane1: empty_pane(),
        split: false,
        focused: 0,
        location: Seq::empty(),
        location_dirty: false,
        closed_tabs: Seq::empty(),
        wants_close: false,
    }
}

// ---------------------------------------------------------------------------
// Selecting and closing
// ---------------------------------------------------------------------------

/// The window with a tab selected. Where the pane has the focus the address bar shows the tab's
/// address; a place past the end changes nothing.
pub open spec fn selected(w: WindowView, pane: usize, i: usize) -> WindowView {
    let p = w.pane(pane);
    if i >= p.tabs.len() {
        w
    } else {
        let w2 = w.with_pane(
            pane,
            tabs::PaneView { active: i, scroll_active_into_view: true, ..p },
        );
        if pane == w.focused {
            WindowView { location: p.tabs[i as int].url, location_dirty: false, ..w2 }
        } else {
            w2
        }
    }
}

/// The closed addresses with one more, of which only the latest are kept. A tab that has no
/// address is not remembered.
pub open spec fn remembered(closed: Seq<Seq<char>>, url: Seq<char>) -> Seq<Seq<char>> {
    if url.len() == 0 {
        closed
    } else {
        let all = closed.push(url);
        if all.len() > tabs::MAX_CLOSED {
            all.skip(all.len() - tabs::MAX_CLOSED)
        } else {
            all
        }
    }
}

/// The window without its right pane.
pub open spec fn unsplit(w: WindowView) -> WindowView {
    if !w.split {
        w
    } else {
        WindowView {
            pane1: tabs::PaneView { tabs: Seq::empty(), active: 0, ..w.pane1 },
            split: false,
            focused: 0,
            ..w
        }
    }
}

/// The window with a tab closed. Another tab of the pane becomes active if the closed one was;
/// where the pane is left empty the split ends or the focus goes to the other pane, and where
/// both are empty the window is to close.
pub open spec fn closed(w: WindowView, pane: usize, i: usize) -> WindowView {
    let p = w.pane(pane);
    if i >= p.tabs.len() {
        w
    } else {
        let w2 = WindowView {
            closed_tabs: remembered(w.closed_tabs, p.tabs[i as int].url),
            ..w.with_pane(pane, tabs::PaneView { tabs: p.tabs.remove(i as int), ..p })
        };
        if p.tabs.len() > 1 {
            selected(
                w2,
                pane,
                tabs::active_after_close(p.active as int, i as int, p.tabs.len() - 1) as usize,
            )
        } else if w2.pane0.tabs.len() == 0 && w2.pane1.tabs.len() == 0 {
            WindowView { wants_close: true, ..w2 }
        } else if !w2.split {
            w2
        } else if w2.pane1.tabs.len() == 0 {
            unsplit(w2)
        } else {
            let last = w2.pane1.tabs.len() - 1;
            selected(
                WindowView { focused: 1, ..w2 },
                1,
                if w2.pane1.active <= last {
                    w2.pane1.active
                } else {
                    last as usize
                },
            )
        }
    }
}

/// No more than the limit is remembered, once a tab with an address has been closed.
pub proof fn remembered_is_bounded(c: Seq<Seq<char>>, url: Seq<char>)
    requires
        url.len() > 0,
    ensures
        remembered(c, url).len() <= tabs::MAX_CLOSED,
        remembered(c, url).len() > 0,
        remembered(c, url).last() == url,
{
}

/// Selecting and closing keep the window well formed.
pub proof fn closed_keeps_wf(w: WindowView, pane: usize, i: usize)
    requires
        w.wf(),
        pane <= 1,
        w.pane0.tabs.len() <= usize::MAX,
        w.pane1.tabs.len() <= usize::MAX,
    ensures
        selected(w, pane, i).wf(),
        closed(w, pane, i).wf(),
        unsplit(w).wf(),
{
}

/// A window that has a tab after a close does not ask to be closed, and one that has none does.
pub proof fn window_closes_when_empty(w: WindowView, pane: usize, i: usize)
    requires
        w.wf(),
        pane <= 1,
        !w.wants_close,
        i < w.pane(pane).tabs.len() <= usize::MAX,
        w.pane0.tabs.len() <= usize::MAX,
        w.pane1.tabs.len() <= usize::MAX,
    ensures
        closed(w, pane, i).wants_close <==> closed(w, pane, i).pane0.tabs.len() == 0 && closed(
            w,
            pane,
            i,
        ).pane1.tabs.len() == 0,
{
}

/// The window with a tab taken out of the pane that has the focus: the tab it was asked on and
/// the pinned ones stay, and the first of these becomes active.
pub open spec fn others_closed(w: WindowView, keep: usize) -> WindowView {
    let p = w.focused_pane();
    let n = p.tabs.len();
    if keep >= n {
        w
    } else {
        let w2 = WindowView {
            closed_tabs: w.closed_tabs + tabs::dropped_urls(p.tabs, keep as int, n),
            ..w.with_pane(
                w.focused,
                tabs::PaneView { tabs: tabs::kept_tabs(p.tabs, keep as int, n), ..p },
            )
        };
        selected(
            w2,
            w.focused,
            (tabs::kept_tabs(p.tabs, keep as int, (keep + 1) as nat).len() - 1) as usize,
        )
    }
}

// ---------------------------------------------------------------------------
// Finding a tab
// ---------------------------------------------------------------------------

/// The first place of a number among some tabs.
pub open spec fn place_of(t: Seq<tabs::TabView>, id: u64) -> Option<usize>
    decreases t.len(),
{
    if t.len() == 0 {
        None
    } else {
        match place_of(t.drop_last(), id) {
            Some(i) => Some(i),
            None => if t.last().id == id {
                Some((t.len() - 1) as usize)
            } else {
                None
            },
        }
    }
}

/// The pane and the place of a tab: the left pane is searched first.
pub open spec fn located(w: WindowView, id: u64) -> Option<(usize, usize)> {
    match place_of(w.pane0.tabs, id) {
        Some(i) => Some((0usize, i)),
        None => match place_of(w.pane1.tabs, id) {
            Some(i) => Some((1usize, i)),
            None => None,
        },
    }
}

/// A located tab is there and has the number asked for; what is not located is nowhere.
pub proof fn lemma_place_of(t: Seq<tabs::TabView>, id: u64)
    requires
        t.len() <= usize::MAX,
    ensures
        place_of(t, id) matches Some(i) ==> i < t.len() && t[i as int].id == id && forall|j: int|
            0 <= j < i ==> (#[trigger] t[j]).id != id,
        place_of(t, id) is None ==> forall|j: int| 0 <= j < t.len() ==> (#[trigger] t[j]).id != id,
    decreases t.len(),
{
    if t.len() > 0 {
        let s = t.drop_last();
        lemma_place_of(s, id);
        assert forall|j: int| 0 <= j < s.len() implies s[j] == t[j] by {}
    }
}

proof fn lemma_place_is(t: Seq<tabs::TabView>, id: u64, r: Option<usize>)
    requires
        t.len() <= usize::MAX,
        match r {
            Some(i) => i < t.len() && t[i as int].id == id && (forall|j: int|
                0 <= j < i ==> (#[trigger] t[j]).id != id),
            None => forall|j: int| 0 <= j < t.len() ==> (#[trigger] t[j]).id != id,
        },
    ensures
        place_of(t, id) == r,
{
    lemma_place_of(t, id);
}

impl TabWindow {
    /// A window without tabs.
    pub fn new() -> (r: TabWindow)
        ensures
            r@ == empty_window(),
            r@.wf(),
    {
        let r: TabWindow = TabWindow {
            pane0: PaneGroup::new(),
            pane1: PaneGroup::new(),
            split: false,
            focused: 0,
            location: String::new(),
            location_dirty: false,
            closed_tabs: Vec::new(),
            wants_close: false,
        };
        assert(r@ =~= empty_window());
        r
    }

    /// The pane by its number.
    pub fn pane(&self, pane: usize) -> (r: &PaneGroup)
        ensures
            r@ == self@.pane(pane),
    {
        if pane == 1 {
            &self.pane1
        } else {
            &self.pane0
        }
    }

    /// The pane and the place of the tab with this number.
    pub fn locate_tab(&self, id: u64) -> (r: Option<(usize, usize)>)
        ensures
            r == located(self@, id),
            r matches Some(at) ==> at.0 <= 1 && at.1 < self@.pane(at.0).tabs.len(),
    {
        let a: Option<usize> = self.pane0.position(id);
        let b: Option<usize> = self.pane1.position(id);
        proof {
            assert(self.pane0.tabs@.len() <= usize::MAX) by {
                assert(self.pane0.tabs.len() == self.pane0.tabs@.len());
            }
            assert(self.pane1.tabs@.len() <= usize::MAX) by {
                assert(self.pane1.tabs.len() == self.pane1.tabs@.len());
            }
            assert forall|j: int| 0 <= j < self.pane0@.tabs.len() implies (
            #[trigger] self.pane0@.tabs[j]).id == self.pane0.tabs@[j].id by {}
            assert forall|j: int| 0 <= j < self.pane1@.tabs.len() implies (
            #[trigger] self.pane1@.tabs[j]).id == self.pane1.tabs@[j].id by {}
            lemma_place_is(self.pane0@.tabs, id, a);
            lemma_place_is(self.pane1@.tabs, id, b);
        }
        match a {
            Some(i) => Some((0, i)),
            None => match b {
                Some(i) => Some((1, i)),
                None => None,
            },
        }
    }

    /// Selects a tab.
    pub fn select_tab(&mut self, pane: usize, i: usize)
        ensures
            final(self)@ == selected(old(self)@, pane, i),
            old(self)@.wf() ==> final(self)@.wf(),
    {
        if pane == 1 {
            if i >= self.pane1.tabs.len() {
                return;
            }
            if pane == self.focused {
                self.location = self.pane1.tabs[i].url.clone();
                self.location_dirty = false;
            }
            self.pane1.active = i;
            self.pane1.scroll_active_into_view = true;
        } else {
            if i >= self.pane0.tabs.len() {
                return;
            }
            if pane == self.focused {
                self.location = self.pane0.tabs[i].url.clone();
                self.location_dirty = false;
            }
            self.pane0.active = i;
            self.pane0.scroll_active_into_view = true;
        }
    }

    fn remember_closed(&mut self, url: &str)
        ensures
            final(self)@ == (WindowView {
                closed_tabs: remembered(old(self)@.closed_tabs, url@),
                ..old(self)@
            }),
    {
        if url.is_empty() {
            return;
        }
        let ghost all = text::texts(self.closed_tabs@).push(url@);
        self.closed_tabs.push(url.to_owned());
        let ghost mut k: int = 0;
        assert(text::texts(self.closed_tabs@) =~= all.skip(0));
        while self.closed_tabs.len() > tabs::MAX_CLOSED
            invariant
                0 <= k <= all.len(),
                k == 0 || all.len() - k >= tabs::MAX_CLOSED,
                text::texts(self.closed_tabs@) == all.skip(k),
                self.pane0@ == old(self)@.pane0,
                self.pane1@ == old(self)@.pane1,
                self.split == old(self)@.split,
                self.focused == old(self)@.focused,
                self.location@ == old(self)@.location,
                self.location_dirty == old(self)@.location_dirty,
                self.wants_close == old(self)@.wants_close,
            decreases self.closed_tabs@.len(),
        {
            let ghost before = self.closed_tabs@;
            let dropped: String = self.closed_tabs.remove(0);
            proof {
                assert(text::texts(before).len() == before.len());
                assert(text::texts(self.closed_tabs@) =~= text::texts(before).skip(1));
                assert(all.skip(k).skip(1) =~= all.skip(k + 1));
                k = k + 1;
            }
        }
        assert(all.skip(0) =~= all);
        assert(text::texts(self.closed_tabs@).len() == self.closed_tabs@.len());
    }

    /// Leaves the split: the right pane's tabs are closed and the left pane has the focus.
    pub fn exit_split(&mut self)
        ensures
            final(self)@ == unsplit(old(self)@),
            old(self)@.wf() ==> final(self)@.wf(),
    {
        if !self.split {
            return;
        }
        self.pane1.tabs = Vec::new();
        self.pane1.active = 0;
        self.split = false;
        self.focused = 0;
        assert(self@.pane1.tabs =~= Seq::<tabs::TabView>::empty());
    }

    /// Closes a tab. Tells whether the session is to be saved.
    pub fn close_tab(&mut self, pane: usize, i: usize) -> (r: bool)
        requires
            old(self)@.wf(),
            pane <= 1,
        ensures
            final(self)@ == closed(old(self)@, pane, i),
            final(self)@.wf(),
            r == (i < old(self)@.pane(pane).tabs.len() && old(self)@.pane(pane).tabs.len() > 1),
    {
        proof {
            assert(self.pane0.tabs.len() == self.pane0.tabs@.len());
            assert(self.pane1.tabs.len() == self.pane1.tabs@.len());
            closed_keeps_wf(self@, pane, i);
        }
        let ghost w = self@;
        let count: usize = self.pane(pane).tabs.len();
        if i >= count {
            return false;
        }
        let active: usize = self.pane(pane).active;
        let url: String = self.pane(pane).tabs[i].url.clone();
        self.remember_closed(url.as_str());
        if pane == 1 {
            let ghost before = self.pane1.tabs@;
            let gone: Tab = self.pane1.tabs.remove(i);
            assert(tabs::tab_views(self.pane1.tabs@) =~= tabs::tab_views(before).remove(i as int));
        } else {
            let ghost before = self.pane0.tabs@;
            let gone: Tab = self.pane0.tabs.remove(i);
            assert(tabs::tab_views(self.pane0.tabs@) =~= tabs::tab_views(before).remove(i as int));
        }
        if count > 1 {
            let len: usize = count - 1;
            let new_active: usize = if active >= len {
                len - 1
            } else if active > i {
                active - 1
            } else {
                active
            };
            self.select_tab(pane, new_active);
            return true;
        }
        if self.pane0.tabs.len() == 0 && self.pane1.tabs.len() == 0 {
            self.wants_close = true;
        } else if self.split {
            if self.pane1.tabs.len() == 0 {
                self.exit_split();
            } else {
                self.focused = 1;
                let n: usize = self.pane1.tabs.len();
                let at: usize = if self.pane1.active <= n - 1 {
                    self.pane1.active
                } else {
                    n - 1
                };
                self.select_tab(1, at);
            }
        }
        false
    }

    /// Adds a tab that has just opened to the pane with the focus, and selects it.
    pub fn adopt_tab(&mut self, id: u64)
        requires
            old(self)@.focused_pane().tabs.len() < usize::MAX,
        ensures
            final(self)@ == selected(
                old(self)@.with_pane(
                    old(self).focused,
                    tabs::PaneView {
                        tabs: old(self)@.focused_pane().tabs.push(tabs::fresh(id, Seq::empty())),
                        ..old(self)@.focused_pane()
                    },
                ),
                old(self).focused,
                old(self)@.focused_pane().tabs.len() as usize,
            ),
            old(self)@.wf() ==> final(self)@.wf(),
    {
        proof {
            reveal_strlit("");
        }
        let t: Tab = tabs::fresh_tab(id, "");
        assert(""@ =~= Seq::<char>::empty());
        let at: usize;
        let ghost pane = self.focused;
        if self.focused == 1 {
            let ghost before = self.pane1.tabs@;
            at = self.pane1.tabs.len();
            self.pane1.tabs.push(t);
            assert(tabs::tab_views(self.pane1.tabs@) =~= tabs::tab_views(before).push(t@));
        } else {
            let ghost before = self.pane0.tabs@;
            at = self.pane0.tabs.len();
            self.pane0.tabs.push(t);
            assert(tabs::tab_views(self.pane0.tabs@) =~= tabs::tab_views(before).push(t@));
        }
        self.select_tab(self.focused, at);
    }

    /// Opens the right pane with one tab at `seed`; where it is open already it only gets the
    /// focus.
    pub fn enter_split(&mut self, id: u64, seed: &str)
        ensures
            final(self)@ == if old(self).split {
                WindowView { focused: 1, ..old(self)@ }
            } else {
                WindowView {
                    pane1: tabs::PaneView {
                        tabs: old(self)@.pane1.tabs.push(tabs::fresh(id, seed@)),
                        active: 0,
                        ..old(self)@.pane1
                    },
                    split: true,
                    focused: 1,
                    ..old(self)@
                }
            },
            old(self)@.wf() ==> final(self)@.wf(),
    {
        if self.split {
            self.focused = 1;
            return;
        }
        let ghost before = self.pane1.tabs@;
        let t: Tab = tabs::fresh_tab(id, seed);
        self.pane1.tabs.push(t);
        assert(tabs::tab_views(self.pane1.tabs@) =~= tabs::tab_views(before).push(t@));
        self.pane1.active = 0;
        self.split = true;
        self.focused = 1;
    }

    /// The address that the right pane opens with: that of the left pane's active tab, or the
    /// given first page where that is none.
    pub fn split_seed(&self, first_page: &str) -> (r: String)
        ensures
            r@ == seed_address(self@.pane0, first_page@),
    {
        if self.pane0.active < self.pane0.tabs.len() {
            match address::parse_url(self.pane0.tabs[self.pane0.active].url.as_str()) {
                Some(u) => {
                    return u.text;
                },
                None => {},
            }
        }
        first_page.to_owned()
    }

    /// Puts back the right pane of a saved session; the left pane keeps the focus.
    pub fn restore_split(&mut self, ids: &Vec<u64>, urls: &Vec<String>)
        requires
            ids@.len() == urls@.len(),
        ensures
            final(self)@ == if urls@.len() == 0 || old(self).split {
                old(self)@
            } else {
                selected(
                    WindowView {
                        pane1: tabs::PaneView {
                            tabs: old(self)@.pane1.tabs + restored_tabs(
                                ids@,
                                text::texts(urls@),
                            ),
                            active: 0,
                            ..old(self)@.pane1
                        },
                        split: true,
                        ..old(self)@
                    },
                    1,
                    0,
                )
            },
            old(self)@.wf() ==> final(self)@.wf(),
    {
        if urls.len() == 0 || self.split {
            return;
        }
        let ghost start = self.pane1@.tabs;
        let ghost all = restored_tabs(ids@, text::texts(urls@));
        let mut i: usize = 0;
        assert(self.pane1@.tabs =~= start + all.take(0));
        while i < urls.len()
            invariant
                i <= urls@.len(),
                ids@.len() == urls@.len(),
                all == restored_tabs(ids@, text::texts(urls@)),
                self.pane1@.tabs == start + all.take(i as int),
                self.pane1.active == old(self)@.pane1.active,
                self.pane1.drag_tab == old(self)@.pane1.drag_tab,
                self.pane1.scroll_active_into_view == old(self)@.pane1.scroll_active_into_view,
                self.pane0@ == old(self)@.pane0,
                self.split == old(self)@.split,
                self.focused == old(self)@.focused,
                self.location@ == old(self)@.location,
                self.location_dirty == old(self)@.location_dirty,
                text::texts(self.closed_tabs@) == old(self)@.closed_tabs,
                self.wants_close == old(self)@.wants_close,
            decreases urls@.len() - i,
        {
            let ghost before = self.pane1.tabs@;
            let t: Tab = tabs::fresh_tab(ids[i], urls[i].as_str());
            self.pane1.tabs.push(t);
            assert(tabs::tab_views(self.pane1.tabs@) =~= tabs::tab_views(before).push(t@));
            assert(self.pane1@.tabs =~= start + all.take(i + 1));
            i = i + 1;
        }
        assert(all.take(urls@.len() as int) =~= all);
        self.pane1.active = 0;
        self.split = true;
        self.select_tab(1, 0);
    }

    /// Pins a tab of the pane with the focus, or unpins it.
    pub fn toggle_pin(&mut self, i: usize)
        ensures
            final(self)@ == if i < old(self)@.focused_pane().tabs.len() {
                old(self)@.with_tab(
                    old(self).focused,
                    i as int,
                    tabs::TabView {
                        pinned: !old(self)@.focused_pane().tabs[i as int].pinned,
                        ..old(self)@.focused_pane().tabs[i as int]
                    },
                )
            } else {
                old(self)@
            },
            old(self)@.wf() ==> final(self)@.wf(),
    {
        let ghost w = self@;
        let ghost pane = self.focused;
        if self.focused == 1 {
            if i < self.pane1.tabs.len() {
                self.pane1.tabs[i].pinned = !self.pane1.tabs[i].pinned;
                assert(self@.pane1.tabs =~= w.with_tab(
                    pane,
                    i as int,
                    self.pane1.tabs@[i as int]@,
                ).pane1.tabs);
            }
        } else {
            if i < self.pane0.tabs.len() {
                self.pane0.tabs[i].pinned = !self.pane0.tabs[i].pinned;
                assert(self@.pane0.tabs =~= w.with_tab(
                    pane,
                    i as int,
                    self.pane0.tabs@[i as int]@,
                ).pane0.tabs);
            }
        }
    }
}

impl TabWindow {
    /// Moves a tab of the pane with the focus to another tab's place. Tells whether anything
    /// moved, and so whether the session is to be saved.
    pub fn move_tab(&mut self, from: usize, to: usize) -> (r: bool)
        ensures
            r == can_move(old(self)@.focused_pane().tabs, from, to),
            final(self)@ == after_move(old(self)@, from, to),
            old(self)@.wf() ==> final(self)@.wf(),
    {
        if self.focused == 1 {
            self.pane1.move_tab(from, to)
        } else {
            self.pane0.move_tab(from, to)
        }
    }

    /// Ends a drag in the pane with the focus: the dragged tab takes its new place if there is
    /// one. Tells whether anything moved.
    pub fn finish_drag(&mut self, order: &Vec<usize>, slot: Option<usize>) -> (r: bool)
        requires
            order@ == tabs::shown_order(old(self)@.focused_pane().tabs),
        ensures
            final(self)@ == dropped(old(self)@, slot),
            r == drop_moves(old(self)@, slot),
            old(self)@.wf() ==> final(self)@.wf(),
    {
        let dragged: Option<usize> = self.pane(self.focused).drag_tab;
        let mut any: bool = false;
        let ghost w = self@;
        proof {
            assert(self.pane0.tabs.len() == self.pane0.tabs@.len());
            assert(self.pane1.tabs.len() == self.pane1.tabs@.len());
        }
        match (dragged, slot) {
            (Some(d), Some(s)) => {
                match tabs::drop_target(order, d, s) {
                    Some(to) => {
                        proof {
                            lemma_drop(w, d, s, to);
                        }
                        any = self.move_tab(d, to);
                    },
                    None => {},
                }
            },
            _ => {},
        }
        if self.focused == 1 {
            self.pane1.drag_tab = None;
        } else {
            self.pane0.drag_tab = None;
        }
        any
    }

    /// Closes the other tabs of the pane with the focus, but for the pinned ones. Tells whether
    /// the session is to be saved.
    pub fn close_others(&mut self, keep: usize) -> (r: bool)
        ensures
            final(self)@ == others_closed(old(self)@, keep),
            r == (keep < old(self)@.focused_pane().tabs.len()),
            old(self)@.wf() ==> final(self)@.wf(),
    {
        let ghost w = self@;
        let ghost p = w.focused_pane();
        let count: usize = self.pane(self.focused).tabs.len();
        if keep >= count {
            return false;
        }
        let mut rest: Vec<Tab> = Vec::new();
        if self.focused == 1 {
            std::mem::swap(&mut rest, &mut self.pane1.tabs);
        } else {
            std::mem::swap(&mut rest, &mut self.pane0.tabs);
        }
        let ghost all = rest@;
        assert(tabs::tab_views(all) == p.tabs);
        let mut kept: Vec<Tab> = Vec::new();
        let mut new_active: usize = 0;
        let mut j: usize = 0;
        let ghost start = self.closed_tabs@;
        assert(tabs::tab_views(kept@) =~= Seq::<tabs::TabView>::empty());
        assert(text::texts(self.closed_tabs@) =~= w.closed_tabs + tabs::dropped_urls(
            p.tabs,
            keep as int,
            0,
        ));
        let ghost pane0 = self.pane0;
        let ghost pane1 = self.pane1;
        while rest.len() > 0
            invariant
                j + rest@.len() == count,
                all.len() == count,
                keep < count,
                rest@ == all.skip(j as int),
                tabs::tab_views(all) == p.tabs,
                tabs::tab_views(kept@) == tabs::kept_tabs(p.tabs, keep as int, j as nat),
                text::texts(self.closed_tabs@) == w.closed_tabs + tabs::dropped_urls(
                    p.tabs,
                    keep as int,
                    j as nat,
                ),
                keep < j ==> new_active == tabs::kept_tabs(
                    p.tabs,
                    keep as int,
                    (keep + 1) as nat,
                ).len() - 1,
                self.pane0 == pane0,
                self.pane1 == pane1,
                self.split == w.split,
                self.focused == w.focused,
                self.location@ == w.location,
                self.location_dirty == w.location_dirty,
                self.wants_close == w.wants_close,
            decreases rest@.len(),
        {
            let t: Tab = rest.remove(0);
            assert(all.skip(j as int).remove(0) =~= all.skip(j + 1));
            assert(t == all[j as int]);
            assert(p.tabs[j as int] == t@);
            let ghost before = kept@;
            let ghost was_closed = text::texts(self.closed_tabs@);
            if j == keep || t.pinned {
                if j == keep {
                    new_active = kept.len();
                }
                kept.push(t);
                assert(tabs::tab_views(kept@) =~= tabs::tab_views(before).push(t@));
            } else if !t.url.as_str().is_empty() {
                self.closed_tabs.push(t.url);
                assert(text::texts(self.closed_tabs@) =~= was_closed.push(t@.url));
                assert(was_closed.push(t@.url) =~= w.closed_tabs + tabs::dropped_urls(
                    p.tabs,
                    keep as int,
                    (j + 1) as nat,
                ));
            }
            j = j + 1;
        }
        proof {
            tabs::close_others_keeps(p.tabs, keep as int, count as nat);
        }
        if self.focused == 1 {
            self.pane1.tabs = kept;
        } else {
            self.pane0.tabs = kept;
        }
        self.select_tab(self.focused, new_active);
        true
    }

    /// Takes the most recently closed tab's address off the list, if it is still an address.
    pub fn reopen_closed_tab(&mut self) -> (r: Option<String>)
        ensures
            final(self)@ == (WindowView {
                closed_tabs: if old(self)@.closed_tabs.len() > 0 {
                    old(self)@.closed_tabs.drop_last()
                } else {
                    old(self)@.closed_tabs
                },
                ..old(self)@
            }),
            address::optional_text(r) == if old(self)@.closed_tabs.len() == 0 {
                None
            } else {
                match address::parsed_url(old(self)@.closed_tabs.last()) {
                    Some(u) => Some(u.text),
                    None => None,
                }
            },
            old(self)@.wf() ==> final(self)@.wf(),
    {
        let ghost before = self.closed_tabs@;
        match self.closed_tabs.pop() {
            None => {
                assert(text::texts(before) =~= text::texts(self.closed_tabs@));
                None
            },
            Some(url) => {
                assert(text::texts(self.closed_tabs@) =~= text::texts(before).drop_last());
                assert(text::texts(before).last() == url@);
                match address::parse_url(url.as_str()) {
                    Some(u) => Some(u.text),
                    None => None,
                }
            },
        }
    }

    /// The address of a tab of the pane with the focus, for a window of its own; the given first
    /// page where it has none.
    pub fn pop_out_address(&self, i: usize, first_page: &str) -> (r: String)
        ensures
            r@ == if i < self@.focused_pane().tabs.len() {
                match address::parsed_url(self@.focused_pane().tabs[i as int].url) {
                    Some(u) => u.text,
                    None => first_page@,
                }
            } else {
                first_page@
            },
    {
        let p: &PaneGroup = self.pane(self.focused);
        if i < p.tabs.len() {
            match address::parse_url(p.tabs[i].url.as_str()) {
                Some(u) => {
                    return u.text;
                },
                None => {},
            }
        }
        first_page.to_owned()
    }

    /// The session as it is written.
    pub fn save_session(&self) -> (r: String)
        ensures
            r@ == session::session_text(
                tabs::tab_urls(self@.pane0.tabs),
                tabs::tab_urls(self@.pane1.tabs),
                self.split,
            ),
    {
        session::write_session(&self.pane0.urls(), &self.pane1.urls(), self.split)
    }
}

/// Both tabs are there, are not the same, and are both pinned or both not.
pub open spec fn can_move(t: Seq<tabs::TabView>, from: usize, to: usize) -> bool {
    from < t.len() && to < t.len() && from != to && t[from as int].pinned == t[to as int].pinned
}

/// The window with a tab of the pane with the focus moved, if it may move.
pub open spec fn after_move(w: WindowView, from: usize, to: usize) -> WindowView {
    let p = w.focused_pane();
    if can_move(p.tabs, from, to) {
        w.with_pane(
            w.focused,
            tabs::PaneView {
                tabs: tabs::moved(p.tabs, from as int, to as int),
                active: tabs::active_after_move(p.active as int, from as int, to as int) as usize,
                scroll_active_into_view: true,
                ..p
            },
        )
    } else {
        w
    }
}

/// The position of a tab in the shown order.
pub open spec fn shown_at(order: Seq<usize>, d: usize) -> int {
    choose|k: int| 0 <= k < order.len() && order[k] == d
}

/// The window once a drag has ended with the dragged tab over `slot`.
pub open spec fn dropped(w: WindowView, slot: Option<usize>) -> WindowView {
    let p = w.focused_pane();
    let order = tabs::shown_order(p.tabs);
    let w2 = match (p.drag_tab, slot) {
        (Some(d), Some(s)) => if order.contains(d) {
            after_move(w, d, tabs::drop_place(order, shown_at(order, d), s as int))
        } else {
            w
        },
        _ => w,
    };
    w2.with_pane(w2.focused, tabs::PaneView { drag_tab: None, ..w2.focused_pane() })
}

/// The dragged tab moves when it is dropped over `slot`.
pub open spec fn drop_moves(w: WindowView, slot: Option<usize>) -> bool {
    let p = w.focused_pane();
    let order = tabs::shown_order(p.tabs);
    match (p.drag_tab, slot) {
        (Some(d), Some(s)) => order.contains(d) && can_move(
            p.tabs,
            d,
            tabs::drop_place(order, shown_at(order, d), s as int),
        ),
        _ => false,
    }
}

proof fn lemma_drop(w: WindowView, d: usize, s: usize, to: usize)
    requires
        w.focused_pane().tabs.len() <= usize::MAX,
        exists|from: int|
            0 <= from < tabs::shown_order(w.focused_pane().tabs).len() && tabs::shown_order(
                w.focused_pane().tabs,
            )[from] == d && to == #[trigger] tabs::drop_place(
                tabs::shown_order(w.focused_pane().tabs),
                from,
                s as int,
            ),
    ensures
        tabs::shown_order(w.focused_pane().tabs).contains(d),
        to == tabs::drop_place(
            tabs::shown_order(w.focused_pane().tabs),
            shown_at(tabs::shown_order(w.focused_pane().tabs), d),
            s as int,
        ),
{
    let order = tabs::shown_order(w.focused_pane().tabs);
    tabs::shown_order_is_a_permutation(w.focused_pane().tabs);
    let from = choose|from: int|
        0 <= from < order.len() && order[from] == d && to == #[trigger] tabs::drop_place(
            order,
            from,
            s as int,
        );
    let k = shown_at(order, d);
    assert(order[k] == d);
    if k < from {
        assert(order[k] != order[from]);
    }
    if from < k {
        assert(order[from] != order[k]);
    }
}

/// The address of the active tab, or the first page where that is none.
pub open spec fn seed_address(p: tabs::PaneView, first_page: Seq<char>) -> Seq<char> {
    if p.active < p.tabs.len() {
        match address::parsed_url(p.tabs[p.active as int].url) {
            Some(u) => u.text,
            None => first_page,
        }
    } else {
        first_page
    }
}

/// The tabs of a saved pane.
pub open spec fn restored_tabs(ids: Seq<u64>, urls: Seq<Seq<char>>) -> Seq<tabs::TabView> {
    Seq::new(urls.len(), |i: int| tabs::fresh(ids[i], urls[i]))
}

// ---------------------------------------------------------------------------
// Laws
// ---------------------------------------------------------------------------

/// A selected tab is the active one of its pane; where the pane has the focus the address bar shows
/// its address, and what was typed there is gone. No tab changes, and the other pane does not.
pub proof fn a_selected_tab_is_shown(w: WindowView, pane: usize, i: usize)
    requires
        pane <= 1,
        i < w.pane(pane).tabs.len(),
    ensures
        selected(w, pane, i).pane(pane).active == i,
        selected(w, pane, i).pane(pane).tabs == w.pane(pane).tabs,
        selected(w, pane, i).pane((1 - pane) as usize) == w.pane((1 - pane) as usize),
        selected(w, pane, i).focused == w.focused,
        selected(w, pane, i).split == w.split,
        selected(w, pane, i).closed_tabs == w.closed_tabs,
        selected(w, pane, i).wants_close == w.wants_close,
        pane == w.focused ==> selected(w, pane, i).location == w.pane(pane).tabs[i as int].url
            && !selected(w, pane, i).location_dirty,
        pane != w.focused ==> selected(w, pane, i).location == w.location && selected(
            w,
            pane,
            i,
        ).location_dirty == w.location_dirty,
{
}

/// A closed tab is gone and all others of its pane stay in their order; the other pane's tabs stay,
/// except that the right pane's go with the split only when it has none.
pub proof fn a_closed_tab_is_gone(w: WindowView, pane: usize, i: usize)
    requires
        w.wf(),
        pane <= 1,
        i < w.pane(pane).tabs.len() <= usize::MAX,
    ensures
        closed(w, pane, i).pane(pane).tabs == w.pane(pane).tabs.take(i as int) + w.pane(pane).tabs.skip(
            i + 1,
        ),
        closed(w, pane, i).pane((1 - pane) as usize).tabs == w.pane((1 - pane) as usize).tabs,
{
    let t = w.pane(pane).tabs;
    assert(t.remove(i as int) =~= t.take(i as int) + t.skip(i + 1));
    if t.len() == 1 {
        assert(t.remove(i as int) =~= Seq::empty());
    }
}

/// A tab that closes can be opened again: its address is the last of those remembered, and those
/// remembered before it stay, except that the oldest make room where there are too many.
pub proof fn a_closed_tab_can_be_reopened(w: WindowView, pane: usize, i: usize)
    requires
        pane <= 1,
        i < w.pane(pane).tabs.len() <= usize::MAX,
        w.pane(pane).tabs[i as int].url.len() > 0,
    ensures
        closed(w, pane, i).closed_tabs.len() > 0,
        closed(w, pane, i).closed_tabs.last() == w.pane(pane).tabs[i as int].url,
        w.closed_tabs.len() < 25 ==> closed(w, pane, i).closed_tabs.drop_last() == w.closed_tabs,
        w.closed_tabs.len() >= 25 ==> closed(w, pane, i).closed_tabs.drop_last() == w.closed_tabs.skip(
            w.closed_tabs.len() - 24,
        ),
{
    let r = closed(w, pane, i).closed_tabs;
    assert(r == remembered(w.closed_tabs, w.pane(pane).tabs[i as int].url));
    if w.closed_tabs.len() < 25 {
        assert(r.drop_last() =~= w.closed_tabs);
    } else {
        assert(r.drop_last() =~= w.closed_tabs.skip(w.closed_tabs.len() - 24));
    }
}

/// Where the last tab of one pane of a split closes, the window is the other pane's: the right pane
/// goes and the left one has the focus, or, where the left one is empty, the right one has it.
pub proof fn an_emptied_pane_gives_up_the_focus(w: WindowView, pane: usize)
    requires
        w.wf(),
        w.split,
        pane <= 1,
        w.pane(pane).tabs.len() == 1,
        0 < w.pane((1 - pane) as usize).tabs.len() <= usize::MAX,
    ensures
        pane == 1 ==> !closed(w, pane, 0).split && closed(w, pane, 0).focused == 0,
        pane == 0 ==> closed(w, pane, 0).split && closed(w, pane, 0).focused == 1 && closed(
            w,
            pane,
            0,
        ).location == w.pane1.tabs[w.pane1.active as int].url,
        closed(w, pane, 0).wants_close == w.wants_close,
{
    let t = w.pane(pane).tabs;
    assert(t.remove(0) =~= Seq::empty());
}

/// Leaving the split closes the right pane's tabs and gives the left pane the focus; the left pane
/// stays as it is.
pub proof fn leaving_the_split(w: WindowView)
    ensures
        !unsplit(w).split,
        w.split ==> unsplit(w).focused == 0 && unsplit(w).pane1.tabs.len() == 0,
        unsplit(w).pane0 == w.pane0,
        !w.split ==> unsplit(w) == w,
{
}

/// After "close other tabs" the tab it was asked on is the active one, the tabs are it and the pinned
/// ones, and the other pane stays as it is.
pub proof fn the_kept_tab_is_active(w: WindowView, keep: usize)
    requires
        w.focused <= 1,
        keep < w.focused_pane().tabs.len() <= usize::MAX,
    ensures
        others_closed(w, keep).focused_pane().active < others_closed(w, keep).focused_pane().tabs.len(),
        others_closed(w, keep).focused_pane().tabs[others_closed(w, keep).focused_pane().active as int]
            == w.focused_pane().tabs[keep as int],
        others_closed(w, keep).location == w.focused_pane().tabs[keep as int].url,
        others_closed(w, keep).pane((1 - w.focused) as usize) == w.pane((1 - w.focused) as usize),
        forall|i: int|
            0 <= i < w.focused_pane().tabs.len() && (#[trigger] w.focused_pane().tabs[i]).pinned
                ==> others_closed(w, keep).focused_pane().tabs.contains(w.focused_pane().tabs[i]),
        forall|k: int|
            0 <= k < others_closed(w, keep).focused_pane().tabs.len() && (#[trigger] others_closed(
                w,
                keep,
            ).focused_pane().tabs[k]) != w.focused_pane().tabs[keep as int] ==> others_closed(
                w,
                keep,
            ).focused_pane().tabs[k].pinned,
{
    let t = w.focused_pane().tabs;
    tabs::close_others_keeps(t, keep as int, t.len());
    tabs::close_others_closes(t, keep as int, t.len());
    let r = others_closed(w, keep).focused_pane().tabs;
    assert(r == tabs::kept_tabs(t, keep as int, t.len()));
    assert forall|k: int| 0 <= k < r.len() && (#[trigger] r[k]) != t[keep as int] implies r[k].pinned by {
        assert(tabs::kept_tabs(t, keep as int, t.len())[k] == r[k]);
        let i = choose|i: int|
            0 <= i < t.len() && (i == keep || t[i].pinned) && #[trigger] t[i] == tabs::kept_tabs(
                t,
                keep as int,
                t.len(),
            )[k];
    }
}

/// A tab is located where it is: the pane and place that are given hold a tab of that number, and
/// where none is given no pane holds one.
pub proof fn a_tab_is_located_where_it_is(w: WindowView, id: u64)
    requires
        w.pane0.tabs.len() <= usize::MAX,
        w.pane1.tabs.len() <= usize::MAX,
    ensures
        located(w, id) matches Some(at) ==> at.0 <= 1 && at.1 < w.pane(at.0).tabs.len() && w.pane(
            at.0,
        ).tabs[at.1 as int].id == id,
        located(w, id) is None ==> (forall|j: int|
            0 <= j < w.pane0.tabs.len() ==> (#[trigger] w.pane0.tabs[j]).id != id) && (forall|j: int|
            0 <= j < w.pane1.tabs.len() ==> (#[trigger] w.pane1.tabs[j]).id != id),
{
    lemma_place_of(w.pane0.tabs, id);
    lemma_place_of(w.pane1.tabs, id);
}

/// A tab moves only among its own kind, pinned or not; then it is at its new place and the same tab
/// is active. Otherwise nothing changes.
pub proof fn tabs_move_within_their_group(w: WindowView, from: usize, to: usize)
    requires
        w.wf(),
        w.focused_pane().tabs.len() <= usize::MAX,
        from < w.focused_pane().tabs.len(),
        to < w.focused_pane().tabs.len(),
    ensures
        w.focused_pane().tabs[from as int].pinned != w.focused_pane().tabs[to as int].pinned
            ==> after_move(w, from, to) == w,
        w.focused_pane().tabs[from as int].pinned == w.focused_pane().tabs[to as int].pinned && from
            != to ==> {
            let p = after_move(w, from, to).focused_pane();
            &&& p.tabs[to as int] == w.focused_pane().tabs[from as int]
            &&& p.tabs.remove(to as int) == w.focused_pane().tabs.remove(from as int)
            &&& p.active < p.tabs.len()
            &&& p.tabs[p.active as int] == w.focused_pane().tabs[w.focused_pane().active as int]
        },
        from == to ==> after_move(w, from, to) == w,
        after_move(w, from, to).pane((1 - w.focused) as usize) == w.pane((1 - w.focused) as usize),
{
    let p = w.focused_pane();
    tabs::a_moved_tab_is_where_it_was_put(p.tabs, from as int, to as int);
    tabs::move_keeps_the_active_tab(p.tabs, p.active as int, from as int, to as int);
}

/// Once a drag has ended nothing is dragged any more, whether or not a tab moved; a drag that ends
/// over no place, or of no tab, moves none.
pub proof fn a_drag_ends(w: WindowView, slot: Option<usize>)
    requires
        w.focused <= 1,
    ensures
        dropped(w, slot).focused_pane().drag_tab is None,
        slot is None || w.focused_pane().drag_tab is None ==> dropped(w, slot).focused_pane().tabs
            == w.focused_pane().tabs && dropped(w, slot).focused_pane().active
            == w.focused_pane().active && !drop_moves(w, slot),
{
}

/// A restored pane has a tab for each saved address, in order.
pub proof fn saved_tabs_come_back(ids: Seq<u64>, urls: Seq<Seq<char>>)
    requires
        ids.len() == urls.len(),
    ensures
        tabs::tab_urls(restored_tabs(ids, urls)) == urls,
        forall|i: int| 0 <= i < urls.len() ==> (#[trigger] restored_tabs(ids, urls)[i]).id == ids[i],
{
    assert(tabs::tab_urls(restored_tabs(ids, urls)) =~= urls);
}

/// A split opens on the page that the left pane shows, where that has an address.
pub proof fn a_split_opens_on_the_shown_page(p: tabs::PaneView, first_page: Seq<char>)
    ensures
        p.active < p.tabs.len() ==> (address::parsed_url(p.tabs[p.active as int].url) matches Some(u)
            ==> seed_address(p, first_page) == u.text),
        p.active < p.tabs.len() && address::parsed_url(p.tabs[p.active as int].url) is None
            ==> seed_address(p, first_page) == first_page,
        p.tabs.len() == 0 ==> seed_address(p, first_page) == first_page,
{
}

/// A tab that is replaced is the only thing that changes: it is there, in its pane and at its place, and
/// every other tab, the active marks, the other pane and the rest of the window are as they were.
pub proof fn only_the_replaced_tab_changes(w: WindowView, pane: usize, i: int, t: tabs::TabView)
    requires
        pane <= 1,
        0 <= i < w.pane(pane).tabs.len(),
    ensures
        w.with_tab(pane, i, t).pane(pane).tabs.len() == w.pane(pane).tabs.len(),
        w.with_tab(pane, i, t).pane(pane).tabs[i] == t,
        forall|j: int|
            0 <= j < w.pane(pane).tabs.len() && j != i ==> #[trigger] w.with_tab(pane, i, t).pane(
                pane,
            ).tabs[j] == w.pane(pane).tabs[j],
        w.with_tab(pane, i, t).pane(pane).active == w.pane(pane).active,
        pane == 0 ==> w.with_tab(pane, i, t).pane1 == w.pane1,
        pane == 1 ==> w.with_tab(pane, i, t).pane0 == w.pane0,
        w.with_tab(pane, i, t).focused == w.focused,
        w.with_tab(pane, i, t).split == w.split,
        w.with_tab(pane, i, t).location == w.location,
{
}

} // verus!

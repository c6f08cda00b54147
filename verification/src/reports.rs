//! What pages report to the window they are in, and what is made of it.

use vstd::prelude::*;
use vstd::string::*;

use crate::address;
use crate::number;
use crate::tabs;
use crate::tabs::Tab;
use crate::text;
use crate::window;
use crate::window::TabWindow;

verus! {

/// How many blocked requests a page's receipt lists.
pub const MAX_BLOCKED: usize = 500;

// ---------------------------------------------------------------------------
// What pages report
// ---------------------------------------------------------------------------

/// The window with a page's new address: the receipt of blocked requests starts anew on a web
/// page, and the address bar follows unless the user is editing it.
pub open spec fn at_url(w: window::WindowView, pane: usize, i: usize, url: Seq<char>, web: bool) -> window::WindowView {
    let t = w.pane(pane).tabs[i as int];
    let t2 = tabs::TabView {
        url,
        blocked: if web {
            Seq::empty()
        } else {
            t.blocked
        },
        ..t
    };
    let w2 = w.with_tab(pane, i as int, t2);
    if pane == w.focused && i == w.pane(pane).active && !w.location_dirty {
        window::WindowView { location: url, ..w2 }
    } else {
        w2
    }
}

/// The window with a page's load begun or finished. A load that has begun clears the status text
/// and the failure mark; one that has finished in the active tab settles the address bar.
pub open spec fn at_load(w: window::WindowView, pane: usize, i: usize, complete: bool) -> window::WindowView {
    let t = w.pane(pane).tabs[i as int];
    if complete {
        let w2 = w.with_tab(pane, i as int, tabs::TabView { loading: false, ..t });
        if pane == w.focused && i == w.pane(pane).active {
            window::WindowView { location_dirty: false, ..w2 }
        } else {
            w2
        }
    } else {
        w.with_tab(
            pane,
            i as int,
            tabs::TabView { loading: true, status_text: None, crashed: false, ..t },
        )
    }
}

/// The window with a blocked request on a page's receipt, up to the limit; where there is no such
/// tab nothing changes.
pub open spec fn with_receipt(w: window::WindowView, pane: usize, i: usize, url: Seq<char>) -> window::WindowView {
    let t = w.pane(pane).tabs[i as int];
    if i < w.pane(pane).tabs.len() && t.blocked.len() < MAX_BLOCKED {
        w.with_tab(pane, i as int, tabs::TabView { blocked: t.blocked.push(url), ..t })
    } else {
        w
    }
}

/// The recovery page for a tab that failed: it offers the way back to the address, unless that
/// was itself the recovery page.
pub open spec fn recovery_pairs(url: Seq<char>, reason: Seq<char>) -> Seq<(Seq<char>, Seq<char>)> {
    let back = if "gator://crash"@.is_prefix_of(url) {
        Seq::empty()
    } else {
        url
    };
    seq![("url"@, back), ("reason"@, reason)]
}

/// What is to be done about a page's new address.
pub struct UrlChange {
    /// The line for those who listen, where the tab's pane has the focus.
    pub announce: Option<String>,
    /// The tab's title, under which the visit is recorded.
    pub title: String,
    /// The address is one of the web, so that its add-ons are to be looked up.
    pub web: bool,
}

/// `url` or `title`, the tab's place and the new value, as it is told to those who listen.
pub open spec fn announcement(kind: Seq<char>, i: usize, value: Seq<char>) -> Seq<char> {
    kind + " "@ + number::decimal(i as nat) + " "@ + value
}

fn announce(kind: &str, i: usize, value: &str) -> (r: String)
    ensures
        r@ == announcement(kind@, i, value@),
{
    let mut out: String = kind.to_owned();
    out.append(" ");
    out.append(number::decimal_string(i as u64).as_str());
    out.append(" ");
    out.append(value);
    out
}


/// What is to be done about a page's new title.
pub struct TitleChange {
    /// The line for those who listen, where the tab's pane has the focus.
    pub announce: Option<String>,
    /// The tab's address and its new title, under which the visit is recorded.
    pub url: String,
    pub title: String,
}

/// A finished load: whether the page is one of the web, whose forms are then watched and whose
/// unwanted elements are hidden.
#[derive(Clone, Copy, Debug, PartialEq, Eq, Structural)]
pub enum LoadStep {
    Started,
    Finished { web: bool },
}

/// An address over http or https, by how it starts.
pub open spec fn is_web_address(url: Seq<char>) -> bool {
    "http://"@.is_prefix_of(url) || "https://"@.is_prefix_of(url)
}

/// Does this address start with `http://` or `https://`?
pub fn web_address(url: &str) -> (r: bool)
    ensures
        r == is_web_address(url@),
{
    text::starts_with(url, "http://") || text::starts_with(url, "https://")
}

impl TabWindow {
    /// Replaces a tab by what a report makes of it.
    fn put_tab(&mut self, pane: usize, i: usize, t: Tab)
        requires
            i < old(self)@.pane(pane).tabs.len(),
        ensures
            final(self)@ == old(self)@.with_tab(pane, i as int, t@),
    {
        let ghost w = self@;
        if pane == 1 {
            self.pane1.tabs.set(i, t);
            assert(self@.pane1.tabs =~= w.pane1.tabs.update(i as int, t@));
        } else {
            self.pane0.tabs.set(i, t);
            assert(self@.pane0.tabs =~= w.pane0.tabs.update(i as int, t@));
        }
    }

    /// A copy of a tab.
    fn copy_tab(&self, pane: usize, i: usize) -> (r: Tab)
        requires
            i < self@.pane(pane).tabs.len(),
        ensures
            r@ == self@.pane(pane).tabs[i as int],
    {
        let t: &Tab = &self.pane(pane).tabs[i];
        assert(t@ == self@.pane(pane).tabs[i as int]);
        let r: Tab = Tab {
            id: t.id,
            url: t.url.clone(),
            title: t.title.clone(),
            can_back: t.can_back,
            can_forward: t.can_forward,
            loading: t.loading,
            status_text: match &t.status_text {
                Some(s) => Some(s.clone()),
                None => None,
            },
            crashed: t.crashed,
            pinned: t.pinned,
            injected_addons: text::copy_strings(&t.injected_addons),
            blocked: text::copy_strings(&t.blocked),
            audible: t.audible,
            starred: t.starred,
        };
        assert(r@ =~= t@);
        r
    }

    fn go_to(&mut self, pane: usize, i: usize, url: &str, web: bool)
        requires
            i < old(self)@.pane(pane).tabs.len(),
        ensures
            final(self)@ == at_url(old(self)@, pane, i, url@, web),
    {
        let ghost w = self@;
        let mut t: Tab = self.copy_tab(pane, i);
        t.url = url.to_owned();
        if web {
            t.blocked = Vec::new();
            assert(t@.blocked =~= Seq::<Seq<char>>::empty());
        }
        let follow: bool = pane == self.focused && i == self.pane(pane).active
            && !self.location_dirty;
        self.put_tab(pane, i, t);
        if follow {
            self.location = url.to_owned();
        }
    }

    /// A page is at a new address. `None` if no tab has this number.
    pub fn notify_url_changed(&mut self, id: u64, url: &str, scheme: &str) -> (r: Option<UrlChange>)
        ensures
            match window::located(old(self)@, id) {
                None => final(self)@ == old(self)@ && r is None,
                Some((p, i)) => {
                    &&& final(self)@ == at_url(
                        old(self)@,
                        p,
                        i,
                        url@,
                        address::is_web_scheme(scheme@),
                    )
                    &&& r matches Some(c) && c.title@ == old(self)@.pane(p).tabs[i as int].title
                        && c.web == address::is_web_scheme(scheme@) && address::optional_text(
                        c.announce,
                    ) == if p == old(self).focused {
                        Some(announcement("url"@, i, url@))
                    } else {
                        None
                    }
                },
            },
            old(self)@.wf() ==> final(self)@.wf(),
    {
        let at: (usize, usize) = match self.locate_tab(id) {
            None => {
                return None;
            },
            Some(at) => at,
        };
        let web: bool = address::web_scheme(scheme);
        let title: String = self.pane(at.0).tabs[at.1].title.clone();
        let line: Option<String> = if at.0 == self.focused {
            Some(announce("url", at.1, url))
        } else {
            None
        };
        self.go_to(at.0, at.1, url, web);
        Some(UrlChange { announce: line, title, web })
    }

    /// A page has a new title, or none. `None` if no tab has this number.
    pub fn notify_page_title_changed(&mut self, id: u64, title: Option<String>) -> (r: Option<
        TitleChange,
    >)
        ensures
            match window::located(old(self)@, id) {
                None => final(self)@ == old(self)@ && r is None,
                Some((p, i)) => {
                    let t = old(self)@.pane(p).tabs[i as int];
                    let name = match title {
                        Some(s) => s@,
                        None => "New tab"@,
                    };
                    &&& final(self)@ == old(self)@.with_tab(
                        p,
                        i as int,
                        tabs::TabView { title: name, ..t },
                    )
                    &&& r matches Some(c) && c.url@ == t.url && c.title@ == name
                        && address::optional_text(c.announce) == if p == old(self).focused {
                        Some(announcement("title"@, i, name))
                    } else {
                        None
                    }
                },
            },
            old(self)@.wf() ==> final(self)@.wf(),
    {
        let at: (usize, usize) = match self.locate_tab(id) {
            None => {
                return None;
            },
            Some(at) => at,
        };
        let name: String = match title {
            Some(s) => s,
            None => "New tab".to_owned(),
        };
        let mut t: Tab = self.copy_tab(at.0, at.1);
        t.title = name.clone();
        let url: String = t.url.clone();
        self.put_tab(at.0, at.1, t);
        let line: Option<String> = if at.0 == self.focused {
            Some(announce("title", at.1, name.as_str()))
        } else {
            None
        };
        Some(TitleChange { announce: line, url, title: name })
    }

    /// A page's history has `entries` entries and stands at `current`. Tells whether a tab has
    /// this number.
    pub fn notify_history_changed(&mut self, id: u64, entries: usize, current: usize) -> (r: bool)
        ensures
            match window::located(old(self)@, id) {
                None => final(self)@ == old(self)@ && !r,
                Some((p, i)) => r && final(self)@ == old(self)@.with_tab(
                    p,
                    i as int,
                    tabs::TabView {
                        can_back: current > 0,
                        can_forward: current + 1 < entries,
                        ..old(self)@.pane(p).tabs[i as int]
                    },
                ),
            },
            old(self)@.wf() ==> final(self)@.wf(),
    {
        match self.locate_tab(id) {
            None => false,
            Some(at) => {
                let mut t: Tab = self.copy_tab(at.0, at.1);
                t.can_back = current > 0;
                t.can_forward = entries > 0 && current < entries - 1;
                self.put_tab(at.0, at.1, t);
                true
            },
        }
    }

    /// A page plays sound, or has stopped. Says whether the tab is now to run slowed down, where
    /// that is to be set: the active tab of the focused pane never is.
    pub fn notify_media_session_event(&mut self, id: u64, playing: bool) -> (r: Option<bool>)
        ensures
            match window::located(old(self)@, id) {
                None => final(self)@ == old(self)@ && r is None,
                Some((p, i)) => {
                    &&& final(self)@ == old(self)@.with_tab(
                        p,
                        i as int,
                        tabs::TabView { audible: playing, ..old(self)@.pane(p).tabs[i as int] },
                    )
                    &&& r == if p == old(self).focused && i == old(self)@.pane(p).active {
                        None
                    } else {
                        Some(!playing)
                    }
                },
            },
            old(self)@.wf() ==> final(self)@.wf(),
    {
        match self.locate_tab(id) {
            None => None,
            Some(at) => {
                let mut t: Tab = self.copy_tab(at.0, at.1);
                t.audible = playing;
                let active: bool = at.0 == self.focused && at.1 == self.pane(at.0).active;
                self.put_tab(at.0, at.1, t);
                if active {
                    None
                } else {
                    Some(!playing)
                }
            },
        }
    }

    /// A page's load has begun or, with `complete`, has finished.
    pub fn notify_load_status_changed(&mut self, id: u64, complete: bool) -> (r: Option<LoadStep>)
        ensures
            match window::located(old(self)@, id) {
                None => final(self)@ == old(self)@ && r is None,
                Some((p, i)) => {
                    &&& final(self)@ == at_load(old(self)@, p, i, complete)
                    &&& r == Some(
                        if complete {
                            LoadStep::Finished {
                                web: is_web_address(old(self)@.pane(p).tabs[i as int].url),
                            }
                        } else {
                            LoadStep::Started
                        },
                    )
                },
            },
            old(self)@.wf() ==> final(self)@.wf(),
    {
        match self.locate_tab(id) {
            None => None,
            Some(at) => {
                let mut t: Tab = self.copy_tab(at.0, at.1);
                t.loading = !complete;
                if !complete {
                    t.status_text = None;
                    t.crashed = false;
                }
                let web: bool = web_address(t.url.as_str());
                self.put_tab(at.0, at.1, t);
                if complete {
                    if at.0 == self.focused && at.1 == self.pane(at.0).active {
                        self.location_dirty = false;
                    }
                    Some(LoadStep::Finished { web })
                } else {
                    Some(LoadStep::Started)
                }
            },
        }
    }

    /// A page's status text has changed. Tells whether a tab has this number.
    pub fn notify_status_text_changed(&mut self, id: u64, status: Option<String>) -> (r: bool)
        ensures
            match window::located(old(self)@, id) {
                None => final(self)@ == old(self)@ && !r,
                Some((p, i)) => r && final(self)@ == old(self)@.with_tab(
                    p,
                    i as int,
                    tabs::TabView {
                        status_text: address::optional_text(status),
                        ..old(self)@.pane(p).tabs[i as int]
                    },
                ),
            },
            old(self)@.wf() ==> final(self)@.wf(),
    {
        match self.locate_tab(id) {
            None => false,
            Some(at) => {
                let mut t: Tab = self.copy_tab(at.0, at.1);
                t.status_text = status;
                self.put_tab(at.0, at.1, t);
                true
            },
        }
    }

    /// A page's process has failed. Gives the address of the recovery page, if a tab has this
    /// number.
    pub fn notify_crashed(&mut self, id: u64, reason: &str) -> (r: Option<String>)
        ensures
            match window::located(old(self)@, id) {
                None => final(self)@ == old(self)@ && r is None,
                Some((p, i)) => {
                    let t = old(self)@.pane(p).tabs[i as int];
                    &&& final(self)@ == old(self)@.with_tab(
                        p,
                        i as int,
                        tabs::TabView { crashed: true, loading: false, ..t },
                    )
                    &&& address::optional_text(r) == address::url_with_params(
                        "gator://crash"@,
                        recovery_pairs(t.url, reason@),
                    )
                },
            },
            old(self)@.wf() ==> final(self)@.wf(),
    {
        match self.locate_tab(id) {
            None => None,
            Some(at) => {
                let mut t: Tab = self.copy_tab(at.0, at.1);
                t.crashed = true;
                t.loading = false;
                let back: String = if text::starts_with(t.url.as_str(), "gator://crash") {
                    String::new()
                } else {
                    t.url.clone()
                };
                let ghost url = t.url@;
                self.put_tab(at.0, at.1, t);
                let mut pairs: Vec<(String, String)> = Vec::new();
                pairs.push(("url".to_owned(), back));
                pairs.push(("reason".to_owned(), reason.to_owned()));
                assert(address::pair_texts(pairs@) =~= recovery_pairs(url, reason@));
                address::parse_with_params("gator://crash", &pairs)
            },
        }
    }

    /// A page has closed itself. Tells whether the session is to be saved.
    pub fn notify_closed(&mut self, id: u64) -> (r: bool)
        requires
            old(self)@.wf(),
        ensures
            match window::located(old(self)@, id) {
                None => final(self)@ == old(self)@ && !r,
                Some((p, i)) => final(self)@ == window::closed(old(self)@, p, i) && r == (old(
                    self,
                )@.pane(p).tabs.len() > 1),
            },
            final(self)@.wf(),
    {
        match self.locate_tab(id) {
            None => false,
            Some(at) => self.close_tab(at.0, at.1),
        }
    }

    /// A request of the tab at this place was blocked: it goes on the page's receipt, up to the
    /// limit.
    pub fn note_blocked(&mut self, pane: usize, i: usize, url: &str)
        ensures
            final(self)@ == with_receipt(old(self)@, pane, i, url@),
            old(self)@.wf() ==> final(self)@.wf(),
    {
        if i >= self.pane(pane).tabs.len() {
            return;
        }
        let mut t: Tab = self.copy_tab(pane, i);
        assert(t@.blocked.len() == t.blocked@.len());
        if t.blocked.len() < MAX_BLOCKED {
            let ghost before = t.blocked@;
            t.blocked.push(url.to_owned());
            assert(text::texts(t.blocked@) =~= text::texts(before).push(url@));
            self.put_tab(pane, i, t);
        }
    }
}

// ---------------------------------------------------------------------------
// Laws
// ---------------------------------------------------------------------------

/// A page's new address is its tab's, and no other tab's; the address bar follows it only where the
/// tab is the one shown and the user is not typing. A web page's receipt starts anew.
pub proof fn the_bar_follows_the_page(
    w: window::WindowView,
    pane: usize,
    i: usize,
    url: Seq<char>,
    web: bool,
)
    requires
        pane <= 1,
        i < w.pane(pane).tabs.len(),
    ensures
        at_url(w, pane, i, url, web).pane(pane).tabs[i as int].url == url,
        at_url(w, pane, i, url, web).pane(pane).tabs[i as int].title == w.pane(pane).tabs[i as int].title,
        web ==> at_url(w, pane, i, url, web).pane(pane).tabs[i as int].blocked.len() == 0,
        !web ==> at_url(w, pane, i, url, web).pane(pane).tabs[i as int].blocked
            == w.pane(pane).tabs[i as int].blocked,
        at_url(w, pane, i, url, web).pane(pane).tabs.len() == w.pane(pane).tabs.len(),
        forall|j: int|
            0 <= j < w.pane(pane).tabs.len() && j != i ==> #[trigger] at_url(
                w,
                pane,
                i,
                url,
                web,
            ).pane(pane).tabs[j] == w.pane(pane).tabs[j],
        at_url(w, pane, i, url, web).pane((1 - pane) as usize) == w.pane((1 - pane) as usize),
        w.location_dirty ==> at_url(w, pane, i, url, web).location == w.location,
        pane != w.focused || i != w.pane(pane).active ==> at_url(w, pane, i, url, web).location
            == w.location,
        !w.location_dirty && pane == w.focused && i == w.pane(pane).active ==> at_url(
            w,
            pane,
            i,
            url,
            web,
        ).location == url,
{
}

/// A load that has begun shows in its tab and clears what the last one left; one that has finished no
/// longer does, and in the tab that is shown it settles the address bar.
pub proof fn loads_show_in_their_tab(w: window::WindowView, pane: usize, i: usize)
    requires
        pane <= 1,
        i < w.pane(pane).tabs.len(),
    ensures
        at_load(w, pane, i, false).pane(pane).tabs[i as int].loading,
        at_load(w, pane, i, false).pane(pane).tabs[i as int].status_text is None,
        !at_load(w, pane, i, false).pane(pane).tabs[i as int].crashed,
        at_load(w, pane, i, false).location_dirty == w.location_dirty,
        !at_load(w, pane, i, true).pane(pane).tabs[i as int].loading,
        at_load(w, pane, i, true).pane(pane).tabs[i as int].crashed == w.pane(pane).tabs[i as int].crashed,
        pane == w.focused && i == w.pane(pane).active ==> !at_load(w, pane, i, true).location_dirty,
        pane != w.focused || i != w.pane(pane).active ==> at_load(w, pane, i, true).location_dirty
            == w.location_dirty,
        at_load(w, pane, i, true).location == w.location,
        at_load(w, pane, i, true).pane(pane).tabs[i as int].url == w.pane(pane).tabs[i as int].url,
        at_load(w, pane, i, false).pane(pane).tabs[i as int].url == w.pane(pane).tabs[i as int].url,
{
}

/// A blocked request goes behind the others on its own page's receipt, while there is room.
pub proof fn blocked_requests_are_receipted(
    w: window::WindowView,
    pane: usize,
    i: usize,
    url: Seq<char>,
)
    requires
        pane <= 1,
        i < w.pane(pane).tabs.len(),
    ensures
        w.pane(pane).tabs[i as int].blocked.len() < 500 ==> with_receipt(w, pane, i, url).pane(
            pane,
        ).tabs[i as int].blocked == w.pane(pane).tabs[i as int].blocked.push(url),
        w.pane(pane).tabs[i as int].blocked.len() >= 500 ==> with_receipt(w, pane, i, url) == w,
        forall|j: int|
            0 <= j < w.pane(pane).tabs.len() && j != i ==> #[trigger] with_receipt(
                w,
                pane,
                i,
                url,
            ).pane(pane).tabs[j] == w.pane(pane).tabs[j],
{
}

/// The recovery page leads back to the page that failed, and says why it did; it does not lead to
/// itself.
pub proof fn recovery_leads_back(url: Seq<char>, reason: Seq<char>)
    ensures
        recovery_pairs(url, reason).contains(("reason"@, reason)),
        !"gator://crash"@.is_prefix_of(url) ==> recovery_pairs(url, reason).contains(("url"@, url)),
        "gator://crash"@.is_prefix_of(url) ==> recovery_pairs(url, reason).contains(
            ("url"@, Seq::empty()),
        ),
        recovery_pairs(url, reason).len() == 2,
{
    let r = recovery_pairs(url, reason);
    assert(r[1] == ("reason"@, reason));
    assert(r[0].0 == "url"@);
    assert(r.contains(r[0]) && r.contains(r[1]));
}

} // verus!

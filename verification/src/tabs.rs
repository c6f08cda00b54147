//! The tabs of a window: one or two panes, each with its own tabs and its own active tab.

use vstd::prelude::*;
use vstd::string::*;

use crate::address;
use crate::codec;
use crate::text;
use crate::unicode;

verus! {

/// How many recently closed tabs are remembered.
pub const MAX_CLOSED: usize = 25;

/// What the browser knows of one tab.
pub struct Tab {
    /// The number by which the embedder finds the tab's page.
    pub id: u64,
    /// The address, empty until the page has reported one.
    pub url: String,
    pub title: String,
    pub can_back: bool,
    pub can_forward: bool,
    pub loading: bool,
    /// A hovered link or a load message, for the status bar.
    pub status_text: Option<String>,
    /// The page's process has failed and the tab shows the recovery page.
    pub crashed: bool,
    /// Pinned tabs come first, have no close button and survive "close other tabs".
    pub pinned: bool,
    /// The add-ons whose scripts are in the tab now.
    pub injected_addons: Vec<String>,
    /// The requests blocked on the current page.
    pub blocked: Vec<String>,
    /// The page is playing sound.
    pub audible: bool,
    /// The star in the address bar is filled.
    pub starred: bool,
}

/// One pane: its tabs, which of them is active, and which is being dragged.
pub struct PaneGroup {
    pub tabs: Vec<Tab>,
    pub active: usize,
    pub drag_tab: Option<usize>,
    pub scroll_active_into_view: bool,
}

/// What an interaction with a tab asks for. The number is the tab's place in its pane.
#[derive(Clone, Copy, Debug, PartialEq, Eq, Structural)]
pub enum TabAction {
    Nothing,
    Select(usize),
    Close(usize),
    CloseOthers(usize),
    TogglePin(usize),
    NewTab,
    ToggleOrientation,
    PopOut(usize),
}

/// An entry of a tab's context menu.
#[derive(Clone, Copy, Debug, PartialEq, Eq, Structural)]
pub enum TabMenu {
    NewTab,
    Close,
    CloseOthers,
    TogglePin,
    ToggleOrientation,
    PopOut,
}

/// `Tab` as mathematical values.
#[verifier::ext_equal]
pub struct TabView {
    pub id: u64,
    pub url: Seq<char>,
    pub title: Seq<char>,
    pub can_back: bool,
    pub can_forward: bool,
    pub loading: bool,
    pub status_text: Option<Seq<char>>,
    pub crashed: bool,
    pub pinned: bool,
    pub injected_addons: Seq<Seq<char>>,
    pub blocked: Seq<Seq<char>>,
    pub audible: bool,
    pub starred: bool,
}

impl View for Tab {
    type V = TabView;

    open spec fn view(&self) -> TabView {
        TabView {
            id: self.id,
            url: self.url@,
            title: self.title@,
            can_back: self.can_back,
            can_forward: self.can_forward,
            loading: self.loading,
            status_text: address::optional_text(self.status_text),
            crashed: self.crashed,
            pinned: self.pinned,
            injected_addons: text::texts(self.injected_addons@),
            blocked: text::texts(self.blocked@),
            audible: self.audible,
            starred: self.starred,
        }
    }
}

/// Some tabs as mathematical values.
pub open spec fn tab_views(tabs: Seq<Tab>) -> Seq<TabView> {
    Seq::new(tabs.len(), |i: int| tabs[i]@)
}

/// `PaneGroup` as mathematical values.
#[verifier::ext_equal]
pub struct PaneView {
    pub tabs: Seq<TabView>,
    pub active: usize,
    pub drag_tab: Option<usize>,
    pub scroll_active_into_view: bool,
}

impl View for PaneGroup {
    type V = PaneView;

    open spec fn view(&self) -> PaneView {
        PaneView {
            tabs: tab_views(self.tabs@),
            active: self.active,
            drag_tab: self.drag_tab,
            scroll_active_into_view: self.scroll_active_into_view,
        }
    }
}

/// A tab as it is when it opens.
pub open spec fn fresh(id: u64, url: Seq<char>) -> TabView {
    TabView {
        id,
        url,
        title: "New tab"@,
        can_back: false,
        can_forward: false,
        loading: false,
        status_text: None,
        crashed: false,
        pinned: false,
        injected_addons: Seq::empty(),
        blocked: Seq::empty(),
        audible: false,
        starred: false,
    }
}

/// The addresses of some tabs.
pub open spec fn tab_urls(tabs: Seq<TabView>) -> Seq<Seq<char>> {
    Seq::new(tabs.len(), |i: int| tabs[i].url)
}

/// A tab that has just opened.
pub fn fresh_tab(id: u64, url: &str) -> (r: Tab)
    ensures
        r@ == fresh(id, url@),
{
    let r: Tab = Tab {
        id,
        url: url.to_owned(),
        title: "New tab".to_owned(),
        can_back: false,
        can_forward: false,
        loading: false,
        status_text: None,
        crashed: false,
        pinned: false,
        injected_addons: Vec::new(),
        blocked: Vec::new(),
        audible: false,
        starred: false,
    };
    assert(r@ =~= fresh(id, url@));
    r
}

// ---------------------------------------------------------------------------
// Order and drag
// ---------------------------------------------------------------------------

/// The places below `n` whose tab is pinned, or is not, in order.
pub open spec fn places(tabs: Seq<TabView>, n: nat, pinned: bool) -> Seq<usize>
    decreases n,
{
    if n == 0 {
        Seq::empty()
    } else if tabs[n - 1].pinned == pinned {
        places(tabs, (n - 1) as nat, pinned).push((n - 1) as usize)
    } else {
        places(tabs, (n - 1) as nat, pinned)
    }
}

/// The order in which tabs are shown: the pinned ones first, else as they are.
pub open spec fn shown_order(tabs: Seq<TabView>) -> Seq<usize> {
    places(tabs, tabs.len(), true) + places(tabs, tabs.len(), false)
}

proof fn lemma_places(tabs: Seq<TabView>, n: nat, pinned: bool)
    requires
        n <= tabs.len(),
        n <= usize::MAX,
    ensures
        places(tabs, n, pinned).len() + places(tabs, n, !pinned).len() == n,
        forall|k: int|
            0 <= k < places(tabs, n, pinned).len() ==> (#[trigger] places(tabs, n, pinned)[k]) < n
                && tabs[places(tabs, n, pinned)[k] as int].pinned == pinned,
        forall|k: int, m: int|
            0 <= k < m < places(tabs, n, pinned).len() ==> places(tabs, n, pinned)[k] < places(
                tabs,
                n,
                pinned,
            )[m],
        forall|i: int|
            0 <= i < n && (#[trigger] tabs[i]).pinned == pinned ==> places(
                tabs,
                n,
                pinned,
            ).contains(i as usize),
    decreases n,
{
    if n > 0 {
        let m = (n - 1) as nat;
        lemma_places(tabs, m, pinned);
        let old_places = places(tabs, m, pinned);
        let new_places = places(tabs, n, pinned);
        assert forall|i: int|
            0 <= i < n && (#[trigger] tabs[i]).pinned == pinned implies new_places.contains(
            i as usize,
        ) by {
            if i < m {
                assert(old_places.contains(i as usize));
                let k = choose|k: int| 0 <= k < old_places.len() && old_places[k] == i as usize;
                assert(new_places[k] == i as usize);
            } else {
                assert(new_places[new_places.len() - 1] == i as usize);
            }
        }
    }
}

/// The shown order names every tab exactly once, and no unpinned tab comes before a pinned one.
pub proof fn shown_order_is_a_permutation(tabs: Seq<TabView>)
    requires
        tabs.len() <= usize::MAX,
    ensures
        shown_order(tabs).len() == tabs.len(),
        forall|k: int| 0 <= k < tabs.len() ==> (#[trigger] shown_order(tabs)[k]) < tabs.len(),
        forall|k: int, m: int|
            0 <= k < m < tabs.len() ==> shown_order(tabs)[k] != shown_order(tabs)[m],
        forall|i: int| 0 <= i < tabs.len() ==> shown_order(tabs).contains(#[trigger] (i as usize)),
        forall|k: int, m: int|
            0 <= k < m < tabs.len() && tabs[shown_order(tabs)[m] as int].pinned
                ==> tabs[shown_order(tabs)[k] as int].pinned,
{
    let n = tabs.len();
    lemma_places(tabs, n, true);
    lemma_places(tabs, n, false);
    let p = places(tabs, n, true);
    let u = places(tabs, n, false);
    let o = shown_order(tabs);
    assert forall|k: int| 0 <= k < n implies (#[trigger] o[k]) < n && tabs[o[k] as int].pinned == (k
        < p.len()) by {
        if k < p.len() {
            assert(o[k] == p[k]);
        } else {
            assert(o[k] == u[k - p.len()]);
        }
    }
    assert forall|k: int, m: int| 0 <= k < m < n implies o[k] != o[m] by {
        assert(tabs[o[k] as int].pinned == (k < p.len()));
        assert(tabs[o[m] as int].pinned == (m < p.len()));
        if m < p.len() {
            assert(o[k] == p[k] && o[m] == p[m]);
        } else if k >= p.len() {
            assert(o[k] == u[k - p.len()] && o[m] == u[m - p.len()]);
        }
    }
    assert forall|i: int| 0 <= i < n implies o.contains(#[trigger] (i as usize)) by {
        if tabs[i].pinned {
            assert(p.contains(i as usize));
            let k = choose|k: int| 0 <= k < p.len() && p[k] == i as usize;
            assert(o[k] == i as usize);
        } else {
            assert(u.contains(i as usize));
            let k = choose|k: int| 0 <= k < u.len() && u[k] == i as usize;
            assert(o[p.len() + k] == i as usize);
        }
    }
}

fn push_places(tabs: &Vec<Tab>, pinned: bool, out: &mut Vec<usize>)
    ensures
        final(out)@ == old(out)@ + places(tab_views(tabs@), tabs@.len(), pinned),
{
    let ghost start = out@;
    let mut i: usize = 0;
    assert(out@ =~= start + places(tab_views(tabs@), 0, pinned));
    while i < tabs.len()
        invariant
            i <= tabs@.len(),
            out@ == start + places(tab_views(tabs@), i as nat, pinned),
        decreases tabs@.len() - i,
    {
        let ghost before = places(tab_views(tabs@), i as nat, pinned);
        if tabs[i].pinned == pinned {
            out.push(i);
            assert(out@ =~= start + before.push(i));
        }
        i = i + 1;
    }
}

/// The order in which tabs are shown.
pub fn tab_order(tabs: &Vec<Tab>) -> (r: Vec<usize>)
    ensures
        r@ == shown_order(tab_views(tabs@)),
{
    let mut out: Vec<usize> = Vec::new();
    push_places(tabs, true, &mut out);
    push_places(tabs, false, &mut out);
    assert(out@ =~= shown_order(tab_views(tabs@)));
    out
}

/// The first position at which `p` holds, or the length.
pub open spec fn first_true(p: Seq<bool>) -> nat
    decreases p.len(),
{
    if p.len() == 0 || p[0] {
        0
    } else {
        1 + first_true(p.skip(1))
    }
}

/// Whether each shown tab is in the same group, pinned or not, as the dragged one.
pub open spec fn same_group(tabs: Seq<TabView>, order: Seq<usize>, dragged: int) -> Seq<bool> {
    Seq::new(order.len(), |k: int| tabs[order[k] as int].pinned == tabs[dragged].pinned)
}

/// One past the last position at which `p` holds, or the length where it holds nowhere.
pub open spec fn past_last_true(p: Seq<bool>) -> nat
    decreases p.len(),
{
    if p.len() == 0 {
        0
    } else if p.last() {
        p.len()
    } else if !p.contains(true) {
        p.len()
    } else {
        past_last_true(p.drop_last())
    }
}

pub open spec fn clamped(x: nat, lo: nat, hi: nat) -> nat {
    if x < lo {
        lo
    } else if x > hi {
        hi
    } else {
        x
    }
}

/// Where a dragged tab would be put down: before the first shown tab whose middle lies past the
/// pointer, kept within the dragged tab's group. `ahead` tells of each shown tab whether its
/// middle lies past the pointer.
pub open spec fn drop_slot(
    tabs: Seq<TabView>,
    dragged: Option<usize>,
    order: Seq<usize>,
    ahead: Seq<bool>,
) -> Option<nat> {
    match dragged {
        None => None,
        Some(d) => if !order.contains(d) {
            None
        } else {
            let group = same_group(tabs, order, d as int);
            Some(clamped(first_true(ahead), first_true(group), past_last_true(group)))
        },
    }
}

proof fn lemma_first_true(p: Seq<bool>, i: int)
    requires
        0 <= i <= p.len(),
        i < p.len() ==> p[i],
        forall|j: int| 0 <= j < i ==> !p[j],
    ensures
        first_true(p) == i,
    decreases p.len(),
{
    if i > 0 {
        assert forall|j: int| 0 <= j < i - 1 implies !p.skip(1)[j] by {
            assert(p.skip(1)[j] == p[j + 1]);
        }
        assert(!p[0]);
        lemma_first_true(p.skip(1), i - 1);
    }
}

proof fn lemma_past_last_true(p: Seq<bool>, i: int)
    requires
        0 < i <= p.len(),
        p[i - 1],
        forall|j: int| i <= j < p.len() ==> !p[j],
    ensures
        past_last_true(p) == i,
    decreases p.len(),
{
    if i < p.len() {
        assert(p.contains(true)) by {
            assert(p[i - 1]);
        }
        assert(!p.last());
        lemma_past_last_true(p.drop_last(), i);
    }
}

/// Where a dragged tab would be put down.
pub fn drag_target_slot(
    tabs: &Vec<Tab>,
    dragged: Option<usize>,
    order: &Vec<usize>,
    ahead: &Vec<bool>,
) -> (r: Option<usize>)
    requires
        forall|k: int| 0 <= k < order@.len() ==> (#[trigger] order@[k]) < tabs@.len(),
    ensures
        match drop_slot(tab_views(tabs@), dragged, order@, ahead@) {
            Some(n) => r == Some(n as usize) && n <= usize::MAX,
            None => r is None,
        },
{
    let d: usize = match dragged {
        None => {
            return None;
        },
        Some(d) => d,
    };
    let mut at: usize = 0;
    while at < order.len() && order[at] != d
        invariant
            at <= order@.len(),
            forall|k: int| 0 <= k < at ==> order@[k] != d,
        decreases order@.len() - at,
    {
        at = at + 1;
    }
    if at == order.len() {
        return None;
    }
    assert(order@.contains(d));
    let ghost group = same_group(tab_views(tabs@), order@, d as int);
    assert(group[at as int]);
    let mut slot: usize = 0;
    while slot < ahead.len() && !ahead[slot]
        invariant
            slot <= ahead@.len(),
            forall|k: int| 0 <= k < slot ==> !ahead@[k],
        decreases ahead@.len() - slot,
    {
        slot = slot + 1;
    }
    proof {
        lemma_first_true(ahead@, slot as int);
    }
    let pinned: bool = tabs[d].pinned;
    let mut lo: usize = 0;
    while tabs[order[lo]].pinned != pinned
        invariant
            lo <= at < order@.len(),
            d < tabs@.len(),
            pinned == tabs@[d as int].pinned,
            group == same_group(tab_views(tabs@), order@, d as int),
            group[at as int],
            forall|k: int| 0 <= k < order@.len() ==> (#[trigger] order@[k]) < tabs@.len(),
            forall|k: int| 0 <= k < lo ==> !group[k],
        decreases at - lo,
    {
        assert(!group[lo as int]);
        lo = lo + 1;
    }
    assert(group[lo as int]);
    let mut hi: usize = order.len();
    while tabs[order[hi - 1]].pinned != pinned
        invariant
            at < hi <= order@.len(),
            d < tabs@.len(),
            pinned == tabs@[d as int].pinned,
            group == same_group(tab_views(tabs@), order@, d as int),
            group[at as int],
            forall|k: int| 0 <= k < order@.len() ==> (#[trigger] order@[k]) < tabs@.len(),
            forall|k: int| hi <= k < order@.len() ==> !group[k],
        decreases hi,
    {
        assert(!group[hi - 1]);
        hi = hi - 1;
    }
    assert(group[hi - 1]);
    proof {
        lemma_first_true(group, lo as int);
        lemma_past_last_true(group, hi as int);
    }
    if slot < lo {
        Some(lo)
    } else if slot > hi {
        Some(hi)
    } else {
        Some(slot)
    }
}

/// The tab whose place a tab dropped at `slot` takes. The dragged tab itself is taken out first,
/// so what lies after it moves up by one.
pub open spec fn drop_place(order: Seq<usize>, from: int, slot: int) -> usize {
    let t = if slot > from {
        slot - 1
    } else {
        slot
    };
    let last = order.len() - 1;
    order[if t > last {
        last
    } else {
        t
    }]
}

/// The place of the tab whose place the dragged one takes; `None` if the dragged tab is not shown.
pub fn drop_target(order: &Vec<usize>, dragged: usize, slot: usize) -> (r: Option<usize>)
    ensures
        match r {
            Some(to) => exists|from: int|
                0 <= from < order@.len() && order@[from] == dragged && (forall|k: int|
                    0 <= k < from ==> order@[k] != dragged) && to == #[trigger] drop_place(
                    order@,
                    from,
                    slot as int,
                ),
            None => !order@.contains(dragged),
        },
{
    let mut at: usize = 0;
    while at < order.len() && order[at] != dragged
        invariant
            at <= order@.len(),
            forall|k: int| 0 <= k < at ==> order@[k] != dragged,
        decreases order@.len() - at,
    {
        at = at + 1;
    }
    if at == order.len() {
        return None;
    }
    let mut t: usize = if slot > at {
        slot - 1
    } else {
        slot
    };
    if t > order.len() - 1 {
        t = order.len() - 1;
    }
    assert(order@[t as int] == drop_place(order@, at as int, slot as int));
    Some(order[t])
}

// ---------------------------------------------------------------------------
// What an interaction asks for
// ---------------------------------------------------------------------------

/// What the pointer's use of a tab asks for. The close button comes before selection, a middle
/// click closes an unpinned tab, and an entry of the context menu comes before all else.
pub open spec fn row_action(
    i: usize,
    active: usize,
    pinned: bool,
    close_clicked: bool,
    clicked: bool,
    middle_clicked: bool,
    menu: Option<TabMenu>,
) -> TabAction {
    match menu {
        Some(TabMenu::NewTab) => TabAction::NewTab,
        Some(TabMenu::Close) => TabAction::Close(i),
        Some(TabMenu::CloseOthers) => TabAction::CloseOthers(i),
        Some(TabMenu::TogglePin) => TabAction::TogglePin(i),
        Some(TabMenu::ToggleOrientation) => TabAction::ToggleOrientation,
        Some(TabMenu::PopOut) => TabAction::PopOut(i),
        None => if !pinned && (close_clicked || middle_clicked) {
            TabAction::Close(i)
        } else if clicked && i != active {
            TabAction::Select(i)
        } else {
            TabAction::Nothing
        },
    }
}

/// What the pointer's use of a tab asks for.
pub fn tab_row_action(
    i: usize,
    active: usize,
    pinned: bool,
    close_clicked: bool,
    clicked: bool,
    middle_clicked: bool,
    menu: Option<TabMenu>,
) -> (r: TabAction)
    ensures
        r == row_action(i, active, pinned, close_clicked, clicked, middle_clicked, menu),
{
    let mut act: TabAction = TabAction::Nothing;
    if !pinned && close_clicked {
        act = TabAction::Close(i);
    }
    if act == TabAction::Nothing {
        if clicked && i != active {
            act = TabAction::Select(i);
        }
        if middle_clicked && !pinned {
            act = TabAction::Close(i);
        }
    }
    match menu {
        Some(TabMenu::NewTab) => TabAction::NewTab,
        Some(TabMenu::Close) => TabAction::Close(i),
        Some(TabMenu::CloseOthers) => TabAction::CloseOthers(i),
        Some(TabMenu::TogglePin) => TabAction::TogglePin(i),
        Some(TabMenu::ToggleOrientation) => TabAction::ToggleOrientation,
        Some(TabMenu::PopOut) => TabAction::PopOut(i),
        None => act,
    }
}

/// The text on a tab: none on a pinned tab of the horizontal strip, else the title.
pub fn tab_label(title: &str, pinned: bool, vertical: bool) -> (r: String)
    ensures
        r@ == if pinned && !vertical {
            Seq::empty()
        } else {
            title@
        },
{
    if pinned && !vertical {
        String::new()
    } else {
        title.to_owned()
    }
}

/// What an entry of a tab's context menu reads.
pub fn menu_label(m: TabMenu, pinned: bool, vertical: bool) -> (r: &'static str)
    ensures
        r@ == match m {
            TabMenu::NewTab => "New tab"@,
            TabMenu::TogglePin => if pinned {
                "Unpin tab"@
            } else {
                "Pin tab"@
            },
            TabMenu::Close => "Close tab"@,
            TabMenu::CloseOthers => "Close other tabs"@,
            TabMenu::ToggleOrientation => if vertical {
                "Horizontal tabs"@
            } else {
                "Vertical tabs"@
            },
            TabMenu::PopOut => "Move tab to new window"@,
        },
{
    match m {
        TabMenu::NewTab => "New tab",
        TabMenu::TogglePin => if pinned {
            "Unpin tab"
        } else {
            "Pin tab"
        },
        TabMenu::Close => "Close tab",
        TabMenu::CloseOthers => "Close other tabs",
        TabMenu::ToggleOrientation => if vertical {
            "Horizontal tabs"
        } else {
            "Vertical tabs"
        },
        TabMenu::PopOut => "Move tab to new window",
    }
}

/// The background of a tab.
#[derive(Clone, Copy, Debug, PartialEq, Eq, Structural)]
pub enum TabFill {
    Active,
    Hovered,
    Clear,
}

/// The icon on a tab.
#[derive(Debug)]
pub enum TabIcon {
    /// The site's own.
    Picture,
    /// A square of this hue with a letter, if the title has one.
    Letter(u32, String),
}

/// What a tab of the strip looks like.
#[derive(Debug)]
pub struct TabFace {
    pub label: String,
    pub icon: TabIcon,
    pub fill: TabFill,
    /// It has a button that closes it.
    pub closes: bool,
    /// It is being dragged, and so drawn faint.
    pub faint: bool,
}

/// The icon on a tab: the site's own once the page has loaded, and until then, or where there is
/// none, a letter on a hue that the title fixes.
pub open spec fn is_icon(t: TabView, has_picture: bool, icon: TabIcon) -> bool {
    if has_picture && !t.loading {
        icon is Picture
    } else {
        icon matches TabIcon::Letter(h, l) && h == codec::hue(t.title) && l@
            == unicode::first_capital(t.title)
    }
}

/// What a tab of the strip looks like.
pub fn tab_row(
    t: &Tab,
    i: usize,
    active: usize,
    dragged: Option<usize>,
    has_picture: bool,
    hovered: bool,
    vertical: bool,
) -> (r: TabFace)
    ensures
        r.label@ == if t.pinned && !vertical {
            Seq::empty()
        } else {
            t.title@
        },
        is_icon(t@, has_picture, r.icon),
        r.fill == if i == active {
            TabFill::Active
        } else if hovered {
            TabFill::Hovered
        } else {
            TabFill::Clear
        },
        r.closes == !t.pinned,
        r.faint == (dragged == Some(i)),
{
    let icon: TabIcon = if has_picture && !t.loading {
        TabIcon::Picture
    } else {
        TabIcon::Letter(codec::favicon_hue(t.title.as_str()), unicode::capital(t.title.as_str()))
    };
    let fill: TabFill = if i == active {
        TabFill::Active
    } else if hovered {
        TabFill::Hovered
    } else {
        TabFill::Clear
    };
    let faint: bool = match dragged {
        Some(d) => d == i,
        None => false,
    };
    TabFace {
        label: tab_label(t.title.as_str(), t.pinned, vertical),
        icon,
        fill,
        closes: !t.pinned,
        faint,
    }
}

// ---------------------------------------------------------------------------
// One pane
// ---------------------------------------------------------------------------

/// Where the active mark goes when the tab at `i` is taken out and `len` tabs are left.
pub open spec fn active_after_close(active: int, i: int, len: int) -> int {
    if active >= len {
        len - 1
    } else if active > i {
        active - 1
    } else {
        active
    }
}

/// Where the active mark goes when the tab at `from` moves to `to`.
pub open spec fn active_after_move(active: int, from: int, to: int) -> int {
    if active == from {
        to
    } else if from < active && active <= to {
        active - 1
    } else if to <= active && active < from {
        active + 1
    } else {
        active
    }
}

/// The tabs with the one at `from` taken out and put in at `to`.
pub open spec fn moved(tabs: Seq<TabView>, from: int, to: int) -> Seq<TabView> {
    tabs.remove(from).insert(to, tabs[from])
}

/// Closing another tab leaves the same tab active.
pub proof fn close_keeps_the_active_tab(tabs: Seq<TabView>, active: int, i: int)
    requires
        0 <= i < tabs.len(),
        0 <= active < tabs.len(),
        i != active,
    ensures
        tabs.remove(i)[active_after_close(active, i, tabs.len() - 1)] == tabs[active],
{
}

/// After any close that leaves a tab, the active mark is on a tab.
pub proof fn close_leaves_an_active_tab(tabs: Seq<TabView>, active: int, i: int)
    requires
        0 <= i < tabs.len(),
        0 <= active < tabs.len(),
        tabs.len() > 1,
    ensures
        0 <= active_after_close(active, i, tabs.len() - 1) < tabs.remove(i).len(),
{
}

/// Moving a tab leaves the same tab active.
pub proof fn move_keeps_the_active_tab(tabs: Seq<TabView>, active: int, from: int, to: int)
    requires
        0 <= from < tabs.len(),
        0 <= to < tabs.len(),
        0 <= active < tabs.len(),
    ensures
        0 <= active_after_move(active, from, to) < moved(tabs, from, to).len(),
        moved(tabs, from, to)[active_after_move(active, from, to)] == tabs[active],
{
}

/// Moving a tab neither loses nor doubles one.
pub proof fn move_keeps_the_tabs(tabs: Seq<TabView>, from: int, to: int)
    requires
        0 <= from < tabs.len(),
        0 <= to < tabs.len(),
    ensures
        moved(tabs, from, to).to_multiset() == tabs.to_multiset(),
{
    broadcast use vstd::seq_lib::group_to_multiset_ensures;

    let rest = tabs.remove(from);
    vstd::seq_lib::to_multiset_insert(rest, to, tabs[from]);
    vstd::seq_lib::to_multiset_remove(tabs, from);
    assert(tabs.to_multiset().count(tabs[from]) > 0) by {
        assert(tabs.contains(tabs[from]));
    }
    assert(moved(tabs, from, to).to_multiset() =~= tabs.to_multiset());
}

/// The tabs that "close other tabs" leaves: the one it was asked on, and the pinned ones.
pub open spec fn kept_tabs(tabs: Seq<TabView>, keep: int, n: nat) -> Seq<TabView>
    decreases n,
{
    if n == 0 {
        Seq::empty()
    } else if n - 1 == keep || tabs[n - 1].pinned {
        kept_tabs(tabs, keep, (n - 1) as nat).push(tabs[n - 1])
    } else {
        kept_tabs(tabs, keep, (n - 1) as nat)
    }
}

/// The addresses that "close other tabs" closes.
pub open spec fn dropped_urls(tabs: Seq<TabView>, keep: int, n: nat) -> Seq<Seq<char>>
    decreases n,
{
    if n == 0 {
        Seq::empty()
    } else if n - 1 != keep && !tabs[n - 1].pinned && tabs[n - 1].url.len() > 0 {
        dropped_urls(tabs, keep, (n - 1) as nat).push(tabs[n - 1].url)
    } else {
        dropped_urls(tabs, keep, (n - 1) as nat)
    }
}

/// "Close other tabs" keeps the tab it was asked on, which becomes the active one, and every
/// pinned tab.
pub proof fn close_others_keeps(tabs: Seq<TabView>, keep: int, n: nat)
    requires
        0 <= keep < tabs.len(),
        n <= tabs.len(),
    ensures
        keep < n ==> {
            &&& kept_tabs(tabs, keep, (keep + 1) as nat).len() >= 1
            &&& kept_tabs(tabs, keep, (keep + 1) as nat).len() <= kept_tabs(tabs, keep, n).len()
            &&& kept_tabs(tabs, keep, n)[kept_tabs(tabs, keep, (keep + 1) as nat).len() - 1]
                == tabs[keep]
        },
        forall|i: int|
            0 <= i < n && (#[trigger] tabs[i]).pinned ==> kept_tabs(tabs, keep, n).contains(tabs[i]),
        kept_tabs(tabs, keep, n).len() <= n,
    decreases n,
{
    if n > 0 {
        let m = (n - 1) as nat;
        close_others_keeps(tabs, keep, m);
        let was = kept_tabs(tabs, keep, m);
        let now = kept_tabs(tabs, keep, n);
        assert forall|i: int| 0 <= i < n && (#[trigger] tabs[i]).pinned implies now.contains(
            tabs[i],
        ) by {
            if i < m {
                assert(was.contains(tabs[i]));
                let k = choose|k: int| 0 <= k < was.len() && was[k] == tabs[i];
                assert(now[k] == tabs[i]);
            } else {
                assert(now[now.len() - 1] == tabs[i]);
            }
        }
        if keep < m {
            assert(now[kept_tabs(tabs, keep, (keep + 1) as nat).len() - 1] == tabs[keep]);
        }
    }
}

/// How the tabs of a pane are shown once the one at `active` is selected: whether each is
/// visible, and whether it runs slowed down. Tabs that play sound are not slowed down.
pub open spec fn shows(tabs: Seq<TabView>, active: int) -> Seq<(bool, bool)> {
    Seq::new(tabs.len(), |j: int| (j == active, j != active && !tabs[j].audible))
}

impl PaneGroup {
    /// The active mark is on a tab, if there is one.
    pub open spec fn wf(&self) -> bool {
        self.tabs@.len() > 0 ==> self.active < self.tabs@.len()
    }

    /// A pane without tabs.
    pub fn new() -> (r: PaneGroup)
        ensures
            r.tabs@.len() == 0,
            r.active == 0,
            r.drag_tab is None,
            !r.scroll_active_into_view,
            r.wf(),
    {
        PaneGroup {
            tabs: Vec::new(),
            active: 0,
            drag_tab: None,
            scroll_active_into_view: false,
        }
    }

    /// Moves a tab to another tab's place, within the pinned tabs or within the others. Tells
    /// whether anything moved.
    pub fn move_tab(&mut self, from: usize, to: usize) -> (r: bool)
        ensures
            r == (from < old(self).tabs@.len() && to < old(self).tabs@.len() && from != to
                && old(self).tabs@[from as int].pinned == old(self).tabs@[to as int].pinned),
            !r ==> final(self)@ == old(self)@,
            r ==> {
                &&& final(self)@.tabs == moved(old(self)@.tabs, from as int, to as int)
                &&& final(self).active == active_after_move(
                    old(self).active as int,
                    from as int,
                    to as int,
                )
                &&& final(self).scroll_active_into_view
                &&& final(self).drag_tab == old(self).drag_tab
            },
            old(self).wf() ==> final(self).wf(),
    {
        if from >= self.tabs.len() || to >= self.tabs.len() || from == to {
            return false;
        }
        if self.tabs[from].pinned != self.tabs[to].pinned {
            return false;
        }
        let ghost before = self.tabs@;
        let t: Tab = self.tabs.remove(from);
        self.tabs.insert(to, t);
        assert(tab_views(self.tabs@) =~= moved(tab_views(before), from as int, to as int));
        let a: usize = self.active;
        self.active = if a == from {
            to
        } else if from < a && a <= to {
            a - 1
        } else if to <= a && a < from {
            a + 1
        } else {
            a
        };
        self.scroll_active_into_view = true;
        true
    }

    /// How the tabs are shown once the one at `i` is selected.
    pub fn visibility(&self, i: usize) -> (r: Vec<(bool, bool)>)
        ensures
            r@ == shows(self@.tabs, i as int),
    {
        let mut out: Vec<(bool, bool)> = Vec::new();
        let mut j: usize = 0;
        while j < self.tabs.len()
            invariant
                j <= self.tabs@.len(),
                out@ == shows(self@.tabs, i as int).take(j as int),
            decreases self.tabs@.len() - j,
        {
            out.push((j == i, j != i && !self.tabs[j].audible));
            assert(out@ =~= shows(self@.tabs, i as int).take(j + 1));
            j = j + 1;
        }
        assert(shows(self@.tabs, i as int).take(self.tabs@.len() as int) =~= shows(
            self@.tabs,
            i as int,
        ));
        out
    }

    /// Can the active tab go back, and forward?
    pub fn active_nav(&self) -> (r: (bool, bool))
        ensures
            r == if self.active < self.tabs@.len() {
                (
                    self.tabs@[self.active as int].can_back,
                    self.tabs@[self.active as int].can_forward,
                )
            } else {
                (false, false)
            },
    {
        if self.active < self.tabs.len() {
            (self.tabs[self.active].can_back, self.tabs[self.active].can_forward)
        } else {
            (false, false)
        }
    }

    /// The place of the tab with this number.
    pub fn position(&self, id: u64) -> (r: Option<usize>)
        ensures
            match r {
                Some(i) => i < self.tabs@.len() && self.tabs@[i as int].id == id && (forall|j: int|
                    0 <= j < i ==> (#[trigger] self.tabs@[j]).id != id),
                None => forall|j: int| 0 <= j < self.tabs@.len() ==> (#[trigger] self.tabs@[j]).id != id,
            },
    {
        let mut i: usize = 0;
        while i < self.tabs.len()
            invariant
                i <= self.tabs@.len(),
                forall|j: int| 0 <= j < i ==> (#[trigger] self.tabs@[j]).id != id,
            decreases self.tabs@.len() - i,
        {
            if self.tabs[i].id == id {
                return Some(i);
            }
            i = i + 1;
        }
        None
    }

    /// The addresses of the tabs.
    pub fn urls(&self) -> (r: Vec<String>)
        ensures
            text::texts(r@) == tab_urls(self@.tabs),
    {
        let mut out: Vec<String> = Vec::new();
        let mut i: usize = 0;
        while i < self.tabs.len()
            invariant
                i <= self.tabs@.len(),
                out@.len() == i,
                forall|j: int| 0 <= j < i ==> out@[j]@ == self.tabs@[j].url@,
            decreases self.tabs@.len() - i,
        {
            out.push(self.tabs[i].url.clone());
            i = i + 1;
        }
        assert(text::texts(out@) =~= tab_urls(self@.tabs));
        out
    }
}

// ---------------------------------------------------------------------------
// Laws
// ---------------------------------------------------------------------------

proof fn lemma_places_rise(tabs: Seq<TabView>, n: nat, pinned: bool)
    requires
        n <= tabs.len(),
        tabs.len() <= usize::MAX,
    ensures
        forall|k: int|
            0 <= k < places(tabs, n, pinned).len() ==> (#[trigger] places(tabs, n, pinned)[k]) < n
                && tabs[places(tabs, n, pinned)[k] as int].pinned == pinned,
        forall|k: int, m: int|
            0 <= k < m < places(tabs, n, pinned).len() ==> (#[trigger] places(tabs, n, pinned)[k]) < (
            #[trigger] places(tabs, n, pinned)[m]),
    decreases n,
{
    if n > 0 {
        lemma_places_rise(tabs, (n - 1) as nat, pinned);
    }
}

/// Within the pinned tabs, and within the others, tabs are shown in the order in which they are.
pub proof fn tabs_are_shown_in_their_order(tabs: Seq<TabView>, k: int, m: int)
    requires
        tabs.len() <= usize::MAX,
        0 <= k < m < shown_order(tabs).len(),
        tabs[shown_order(tabs)[k] as int].pinned == tabs[shown_order(tabs)[m] as int].pinned,
    ensures
        shown_order(tabs)[k] < shown_order(tabs)[m],
{
    lemma_places_rise(tabs, tabs.len(), true);
    lemma_places_rise(tabs, tabs.len(), false);
    let a = places(tabs, tabs.len(), true);
    let b = places(tabs, tabs.len(), false);
    if m < a.len() {
        assert(a[k] < a[m]);
    } else if k < a.len() {
        assert(tabs[a[k] as int].pinned);
        assert(!tabs[b[m - a.len()] as int].pinned);
    } else {
        assert(b[k - a.len()] < b[m - a.len()]);
    }
}

/// A tab that moves is at its new place, and the others keep their order among each other.
pub proof fn a_moved_tab_is_where_it_was_put(tabs: Seq<TabView>, from: int, to: int)
    requires
        0 <= from < tabs.len(),
        0 <= to < tabs.len(),
    ensures
        moved(tabs, from, to).len() == tabs.len(),
        moved(tabs, from, to)[to] == tabs[from],
        moved(tabs, from, to).remove(to) == tabs.remove(from),
{
    assert(moved(tabs, from, to).remove(to) =~= tabs.remove(from));
}

/// When the active tab closes, the one behind it becomes active, or the last where there is none.
pub proof fn the_next_tab_becomes_active(tabs: Seq<TabView>, i: int)
    requires
        0 <= i < tabs.len(),
        tabs.len() > 1,
    ensures
        i < tabs.len() - 1 ==> tabs.remove(i)[active_after_close(i, i, tabs.len() - 1)] == tabs[i + 1],
        i == tabs.len() - 1 ==> tabs.remove(i)[active_after_close(i, i, tabs.len() - 1)] == tabs[i - 1],
{
}

/// "Close other tabs" leaves nothing but the tab it was asked on and pinned tabs, in their order.
pub proof fn close_others_closes(tabs: Seq<TabView>, keep: int, n: nat)
    requires
        n <= tabs.len(),
    ensures
        forall|k: int|
            0 <= k < kept_tabs(tabs, keep, n).len() ==> exists|i: int|
                0 <= i < n && (i == keep || tabs[i].pinned) && #[trigger] tabs[i] == (
                #[trigger] kept_tabs(tabs, keep, n)[k]),
        n > 0 && (n - 1 == keep || tabs[n - 1].pinned) ==> kept_tabs(tabs, keep, n) == kept_tabs(
            tabs,
            keep,
            (n - 1) as nat,
        ).push(tabs[n - 1]),
        n > 0 && n - 1 != keep && !tabs[n - 1].pinned ==> kept_tabs(tabs, keep, n) == kept_tabs(
            tabs,
            keep,
            (n - 1) as nat,
        ),
        kept_tabs(tabs, keep, 0).len() == 0,
    decreases n,
{
    if n > 0 {
        let rest = kept_tabs(tabs, keep, (n - 1) as nat);
        close_others_closes(tabs, keep, (n - 1) as nat);
        assert forall|k: int| 0 <= k < kept_tabs(tabs, keep, n).len() implies exists|i: int|
            0 <= i < n && (i == keep || tabs[i].pinned) && #[trigger] tabs[i] == (
            #[trigger] kept_tabs(tabs, keep, n)[k]) by {
            let x = kept_tabs(tabs, keep, n)[k];
            if k < rest.len() {
                assert(rest[k] == x);
                let i = choose|i: int|
                    0 <= i < n - 1 && (i == keep || tabs[i].pinned) && #[trigger] tabs[i] == rest[k];
                assert(tabs[i] == x);
            } else {
                assert(tabs[n - 1] == x);
            }
        }
    }
}

/// The addresses of the tabs that "close other tabs" closes, and no others, can be opened again.
pub proof fn closed_others_are_remembered(tabs: Seq<TabView>, keep: int, n: nat, url: Seq<char>)
    requires
        n <= tabs.len(),
    ensures
        dropped_urls(tabs, keep, n).contains(url) <==> url.len() > 0 && exists|i: int|
            0 <= i < n && i != keep && !(#[trigger] tabs[i]).pinned && tabs[i].url == url,
    decreases n,
{
    if n > 0 {
        let m = (n - 1) as nat;
        let rest = dropped_urls(tabs, keep, m);
        let all = dropped_urls(tabs, keep, n);
        closed_others_are_remembered(tabs, keep, m, url);
        if rest.contains(url) {
            let k = choose|k: int| 0 <= k < rest.len() && rest[k] == url;
            assert(all[k] == url);
        }
        if all.contains(url) && !rest.contains(url) {
            let k = choose|k: int| 0 <= k < all.len() && all[k] == url;
            if k < rest.len() {
                assert(rest[k] == url);
            }
            assert(tabs[m as int].url == url);
        }
        if m != keep && !tabs[m as int].pinned && tabs[m as int].url == url && url.len() > 0 {
            assert(all[rest.len() as int] == url);
        }
    }
}

/// Of a pane only the selected tab is visible; a hidden one is slowed down unless it plays sound.
pub proof fn only_the_active_tab_is_visible(tabs: Seq<TabView>, active: int, j: int)
    requires
        0 <= j < tabs.len(),
    ensures
        shows(tabs, active).len() == tabs.len(),
        shows(tabs, active)[j].0 <==> j == active,
        shows(tabs, active)[j].1 ==> j != active && !tabs[j].audible,
        j != active && !tabs[j].audible ==> shows(tabs, active)[j].1,
{
}

/// A pinned tab is not closed by a click, and a click on another tab than the active one selects it;
/// the button and the middle button close a tab that is not pinned rather than select it.
pub proof fn clicks_on_tabs(i: usize, active: usize, close: bool, click: bool, middle: bool)
    ensures
        row_action(i, active, true, close, true, middle, None) == if i == active {
            TabAction::Nothing
        } else {
            TabAction::Select(i)
        },
        row_action(i, active, true, close, false, middle, None) == TabAction::Nothing,
        row_action(i, active, false, true, click, middle, None) == TabAction::Close(i),
        row_action(i, active, false, close, click, true, None) == TabAction::Close(i),
        i != active ==> row_action(i, active, false, false, true, false, None) == TabAction::Select(i),
        row_action(i, active, false, false, false, false, None) == TabAction::Nothing,
{
}

/// An entry of a tab's menu acts on that tab, whatever else was clicked.
pub proof fn a_menu_acts_on_its_tab(
    i: usize,
    active: usize,
    pinned: bool,
    close: bool,
    click: bool,
    middle: bool,
)
    ensures
        row_action(i, active, pinned, close, click, middle, Some(TabMenu::Close)) == TabAction::Close(i),
        row_action(i, active, pinned, close, click, middle, Some(TabMenu::CloseOthers))
            == TabAction::CloseOthers(i),
        row_action(i, active, pinned, close, click, middle, Some(TabMenu::TogglePin))
            == TabAction::TogglePin(i),
        row_action(i, active, pinned, close, click, middle, Some(TabMenu::PopOut)) == TabAction::PopOut(i),
        row_action(i, active, pinned, close, click, middle, Some(TabMenu::NewTab)) == TabAction::NewTab,
        row_action(i, active, pinned, close, click, middle, Some(TabMenu::ToggleOrientation))
            == TabAction::ToggleOrientation,
{
}

/// A tab that is dropped where it was, before itself or behind itself, takes its own place; dropped
/// further on it takes the place of the tab before the slot, and further back that of the tab at the
/// slot.
pub proof fn a_dropped_tab_takes_the_slot(order: Seq<usize>, from: int, slot: int)
    requires
        0 <= from < order.len(),
        0 <= slot,
    ensures
        drop_place(order, from, from) == order[from],
        drop_place(order, from, from + 1) == order[from],
        slot <= from ==> drop_place(order, from, slot) == order[slot],
        from < slot <= order.len() ==> drop_place(order, from, slot) == order[slot - 1],
        slot > order.len() ==> drop_place(order, from, slot) == order.last(),
{
}

proof fn lemma_first_of(p: Seq<bool>)
    ensures
        first_true(p) <= p.len(),
        first_true(p) < p.len() ==> p[first_true(p) as int],
        forall|k: int| 0 <= k < first_true(p) ==> !p[k],
    decreases p.len(),
{
    if p.len() > 0 && !p[0] {
        lemma_first_of(p.skip(1));
        assert forall|k: int| 0 <= k < first_true(p) implies !p[k] by {
            if k > 0 {
                assert(p.skip(1)[k - 1] == p[k]);
            }
        }
        if first_true(p) < p.len() {
            assert(p.skip(1)[first_true(p.skip(1)) as int] == p[first_true(p) as int]);
        }
    }
}

proof fn lemma_past_last_of(p: Seq<bool>)
    ensures
        past_last_true(p) <= p.len(),
        p.contains(true) ==> 0 < past_last_true(p) && p[past_last_true(p) - 1] && forall|k: int|
            past_last_true(p) <= k < p.len() ==> !p[k],
    decreases p.len(),
{
    if p.len() > 0 && !p.last() && p.contains(true) {
        let d = p.drop_last();
        let k = choose|k: int| 0 <= k < p.len() && p[k] == true;
        assert(d[k]);
        assert(d.contains(true));
        lemma_past_last_of(d);
        assert forall|k: int| past_last_true(p) <= k < p.len() implies !p[k] by {
            if k < d.len() {
                assert(d[k] == p[k]);
            }
        }
        assert(d[past_last_true(p) - 1] == p[past_last_true(p) - 1]);
    }
}

/// A dragged tab is put down among its own kind: behind the first tab of its group that is shown
/// before it lies the slot, and before what follows the last. Within the group the slot is the first
/// place whose middle lies past the pointer.
pub proof fn a_drag_stays_in_its_group(
    tabs: Seq<TabView>,
    d: usize,
    order: Seq<usize>,
    ahead: Seq<bool>,
    a: int,
    z: int,
)
    requires
        0 <= a <= z < order.len(),
        ahead.len() == order.len(),
        order.contains(d),
        tabs[order[a] as int].pinned == tabs[d as int].pinned,
        tabs[order[z] as int].pinned == tabs[d as int].pinned,
        forall|k: int|
            0 <= k < a || z < k < order.len() ==> tabs[#[trigger] order[k] as int].pinned
                != tabs[d as int].pinned,
    ensures
        drop_slot(tabs, Some(d), order, ahead) matches Some(s) && a <= s <= z + 1 && (s <= z ==> s == a
            || ahead[s as int]) && forall|k: int| a <= k < s ==> !ahead[k],
        drop_slot(tabs, None, order, ahead) is None,
{
    let g = same_group(tabs, order, d as int);
    lemma_first_of(ahead);
    lemma_first_of(g);
    assert(g[a] && g[z]);
    assert(g.contains(true));
    lemma_past_last_of(g);
    assert forall|k: int| 0 <= k < a || z < k < order.len() implies !g[k] by {
        assert(tabs[order[k] as int].pinned != tabs[d as int].pinned);
    }
    assert(first_true(g) == a);
    assert(past_last_true(g) == z + 1);
}

/// A tab shows its site's picture where there is one and the page has loaded. While it loads, and where
/// there is none, it shows the first letter of its title, on the colour that belongs to the title.
pub proof fn loaded_tabs_show_their_picture(t: TabView, icon: TabIcon)
    ensures
        !t.loading ==> (is_icon(t, true, icon) <==> icon is Picture),
        is_icon(t, false, icon) ==> !(icon is Picture),
        t.loading && is_icon(t, true, icon) ==> !(icon is Picture),
        is_icon(t, false, icon) ==> (icon matches TabIcon::Letter(h, l) && h == codec::hue(t.title) && (
        t.title.len() > 0 ==> l@ == unicode::uppercase(t.title[0])) && (t.title.len() == 0 ==> l@.len()
            == 0)),
{
}

} // verus!

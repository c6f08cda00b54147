//! The address bar: what an entry asks for, what is listed under it, and what comes of it.

use vstd::prelude::*;
use vstd::string::*;

use crate::address;
use crate::codec;
use crate::number;
use crate::profile;
use crate::profile::{Bookmark, HistoryEntry, MarkView, Profile};
use crate::tabs;
use crate::tabs::{PaneGroup, Tab, TabView};
use crate::text;
use crate::unicode;
use crate::window;
use crate::window::TabWindow;

verus! {

/// How many rows are listed for tabs and bookmarks.
pub const MAX_ROWS: usize = 8;

// ---------------------------------------------------------------------------
// Kinds of entries
// ---------------------------------------------------------------------------

/// A verb and what follows it. `/` looks in the page; `t` and `b`, with a space behind them, look
/// among tabs and bookmarks.
pub open spec fn verb_of(s: Seq<char>) -> Option<(char, Seq<char>)> {
    let e = text::trimmed_start(s);
    if e.len() > 0 && e[0] == '/' {
        Some(('/', e.skip(1)))
    } else if e.len() > 1 && (text::lower_char(e[0]) == 't' || text::lower_char(e[0]) == 'b')
        && e[1] == ' ' {
        Some((text::lower_char(e[0]), text::trimmed_start(e.skip(1))))
    } else {
        None
    }
}

/// A verb and what follows it.
pub fn omnibar_verb(s: &str) -> (r: Option<(char, String)>)
    ensures
        match r {
            Some((v, rest)) => verb_of(s@) == Some((v, rest@)),
            None => verb_of(s@) is None,
        },
{
    let e: String = text::trim_start(s);
    let v: Vec<char> = text::chars_of(e.as_str());
    if v.len() == 0 {
        return None;
    }
    if v[0] == '/' {
        let rest: String = text::string_between(&v, 1, v.len());
        assert(rest@ =~= e@.skip(1));
        return Some(('/', rest));
    }
    let c: char = text::to_lower_char(v[0]);
    if v.len() > 1 && (c == 't' || c == 'b') && v[1] == ' ' {
        let rest: String = text::string_between(&v, 1, v.len());
        assert(rest@ =~= e@.skip(1));
        return Some((c, text::trim_start(rest.as_str())));
    }
    None
}

/// An entry that calls up the commands.
pub open spec fn is_command(s: Seq<char>) -> bool {
    let e = text::trimmed_start(s);
    e.len() > 0 && e[0] == '>'
}

/// Does this entry call up the commands?
pub fn is_command_entry(s: &str) -> (r: bool)
    ensures
        r == is_command(s@),
{
    let e: String = text::trim_start(s);
    let v: Vec<char> = text::chars_of(e.as_str());
    v.len() > 0 && v[0] == '>'
}

/// What the commands are filtered by: the entry without the mark, in small letters.
pub open spec fn command_filter(s: Seq<char>) -> Seq<char> {
    unicode::lowercase(
        text::trimmed(text::without_leading(text::trimmed_start(s), seq!['>'])),
    )
}

fn filter_of(s: &str) -> (r: String)
    ensures
        r@ == command_filter(s@),
{
    proof {
        reveal_strlit(">");
        assert(">"@ =~= seq!['>']);
    }
    let e: String = text::trim_start(s);
    let t: String = text::trim_start_matches(e.as_str(), ">");
    unicode::to_lowercase(text::trim(t.as_str()).as_str())
}

// ---------------------------------------------------------------------------
// Rows
// ---------------------------------------------------------------------------

/// What a row leads to.
#[derive(Debug)]
pub enum OmniPick {
    /// An open tab, by its place.
    Tab(usize),
    Url(String),
}

/// `OmniPick` as mathematical values.
#[verifier::ext_equal]
pub enum PickView {
    Tab(usize),
    Url(Seq<char>),
}

impl View for OmniPick {
    type V = PickView;

    open spec fn view(&self) -> PickView {
        match self {
            OmniPick::Tab(i) => PickView::Tab(*i),
            OmniPick::Url(u) => PickView::Url(u@),
        }
    }
}

/// A row under the address bar.
#[derive(Debug)]
pub struct OmniRow {
    pub label: String,
    pub pick: OmniPick,
}

/// A row under the address bar, as values.
pub type RowView = (Seq<char>, PickView);

/// The rows of a list.
pub open spec fn row_views(v: Seq<OmniRow>) -> Seq<RowView> {
    Seq::new(v.len(), |i: int| (v[i].label@, v[i].pick@))
}

/// The query occurs in the title or the address, whatever the case; an empty query always does.
pub open spec fn is_hit(q: Seq<char>, title: Seq<char>, url: Seq<char>) -> bool {
    q.len() == 0 || text::has(unicode::lowercase(title), q) || text::has(unicode::lowercase(url), q)
}

/// Title and address on one line, cut short.
pub open spec fn row_label(title: Seq<char>, url: Seq<char>, untitled: bool) -> Seq<char> {
    codec::shortened(
        if untitled {
            url
        } else {
            title + "  —  "@ + url
        },
        80,
    )
}

fn hit(q: &str, title: &str, url: &str) -> (r: bool)
    ensures
        r == is_hit(q@, title@, url@),
{
    q.unicode_len() == 0 || text::contains(unicode::to_lowercase(title).as_str(), q)
        || text::contains(unicode::to_lowercase(url).as_str(), q)
}

fn label_for(title: &str, url: &str, untitled: bool) -> (r: String)
    ensures
        r@ == row_label(title@, url@, untitled),
{
    if untitled {
        codec::truncate_ellipsis(url, 80)
    } else {
        let mut out: String = title.to_owned();
        out.append("  —  ");
        out.append(url);
        codec::truncate_ellipsis(out.as_str(), 80)
    }
}

/// The row of a tab.
pub open spec fn tab_row_view(t: TabView, i: int) -> RowView {
    (row_label(t.title, t.url, text::trimmed(t.title).len() == 0), PickView::Tab(i as usize))
}

/// The rows of the tabs that a query hits, up to the limit.
pub open spec fn tab_rows(t: Seq<TabView>, q: Seq<char>) -> Seq<RowView>
    decreases t.len(),
{
    if t.len() == 0 {
        Seq::empty()
    } else {
        let rest = tab_rows(t.drop_last(), q);
        if rest.len() < MAX_ROWS && is_hit(q, t.last().title, t.last().url) {
            rest.push(tab_row_view(t.last(), t.len() - 1))
        } else {
            rest
        }
    }
}

/// The row of a bookmark.
pub open spec fn mark_row_view(b: MarkView) -> RowView {
    (row_label(b.title, b.url, text::trimmed(b.title).len() == 0), PickView::Url(b.url))
}

/// The rows of the bookmarks that a query hits, up to the limit.
pub open spec fn mark_rows(b: Seq<MarkView>, q: Seq<char>) -> Seq<RowView>
    decreases b.len(),
{
    if b.len() == 0 {
        Seq::empty()
    } else {
        let rest = mark_rows(b.drop_last(), q);
        if rest.len() < MAX_ROWS && is_hit(q, b.last().title, b.last().url) {
            rest.push(mark_row_view(b.last()))
        } else {
            rest
        }
    }
}

fn list_tabs(t: &Vec<Tab>, q: &str) -> (r: Vec<OmniRow>)
    ensures
        row_views(r@) == tab_rows(tabs::tab_views(t@), q@),
{
    let ghost all = tabs::tab_views(t@);
    let mut out: Vec<OmniRow> = Vec::new();
    let mut i: usize = 0;
    assert(row_views(out@) =~= tab_rows(all.take(0), q@));
    while i < t.len()
        invariant
            i <= t@.len(),
            all == tabs::tab_views(t@),
            row_views(out@) == tab_rows(all.take(i as int), q@),
        decreases t@.len() - i,
    {
        let ghost before = row_views(out@);
        assert(before.len() == out@.len());
        assert(all.take(i + 1).drop_last() =~= all.take(i as int));
        assert(all.take(i + 1).last() == t@[i as int]@);
        if out.len() < MAX_ROWS && hit(q, t[i].title.as_str(), t[i].url.as_str()) {
            let untitled: bool = text::trim(t[i].title.as_str()).as_str().unicode_len() == 0;
            let label: String = label_for(t[i].title.as_str(), t[i].url.as_str(), untitled);
            out.push(OmniRow { label, pick: OmniPick::Tab(i) });
            assert(row_views(out@) =~= before.push(tab_row_view(all[i as int], i as int)));
        }
        i = i + 1;
    }
    assert(all.take(t@.len() as int) =~= all);
    out
}

fn list_marks(b: &Vec<Bookmark>, q: &str) -> (r: Vec<OmniRow>)
    ensures
        row_views(r@) == mark_rows(profile::mark_views(b@), q@),
{
    let ghost all = profile::mark_views(b@);
    let mut out: Vec<OmniRow> = Vec::new();
    let mut i: usize = 0;
    assert(row_views(out@) =~= mark_rows(all.take(0), q@));
    while i < b.len()
        invariant
            i <= b@.len(),
            all == profile::mark_views(b@),
            row_views(out@) == mark_rows(all.take(i as int), q@),
        decreases b@.len() - i,
    {
        let ghost before = row_views(out@);
        assert(before.len() == out@.len());
        assert(all.take(i + 1).drop_last() =~= all.take(i as int));
        assert(all.take(i + 1).last() == b@[i as int]@);
        if out.len() < MAX_ROWS && hit(q, b[i].title.as_str(), b[i].url.as_str()) {
            let untitled: bool = text::trim(b[i].title.as_str()).as_str().unicode_len() == 0;
            let label: String = label_for(b[i].title.as_str(), b[i].url.as_str(), untitled);
            out.push(OmniRow { label, pick: OmniPick::Url(b[i].url.clone()) });
            assert(row_views(out@) =~= before.push(mark_row_view(all[i as int])));
        }
        i = i + 1;
    }
    assert(all.take(b@.len() as int) =~= all);
    out
}

/// The row of a suggestion.
pub open spec fn suggestion_row(s: (Seq<char>, Seq<char>)) -> RowView {
    (row_label(s.1, s.0, s.1.len() == 0), PickView::Url(s.0))
}

/// The rows of the suggestions for an entry.
pub open spec fn suggestion_rows(h: Seq<profile::VisitView>, entry: Seq<char>) -> Seq<RowView> {
    let s = profile::suggested(h, entry);
    if entry.len() == 0 {
        Seq::empty()
    } else {
        Seq::new(s.len(), |i: int| suggestion_row(s[i]))
    }
}

fn list_suggestions(history: &Vec<HistoryEntry>, entry: &str) -> (r: Vec<OmniRow>)
    ensures
        row_views(r@) == suggestion_rows(profile::visit_views(history@), entry@),
{
    let mut out: Vec<OmniRow> = Vec::new();
    if entry.unicode_len() == 0 {
        assert(row_views(out@) =~= Seq::<RowView>::empty());
        return out;
    }
    let s: Vec<(String, String)> = profile::suggestions(history, entry);
    let ghost all = suggestion_rows(profile::visit_views(history@), entry@);
    let ghost views = address::pair_texts(s@);
    let mut i: usize = 0;
    assert(row_views(out@) =~= all.take(0));
    while i < s.len()
        invariant
            i <= s@.len(),
            views == address::pair_texts(s@),
            all == Seq::new(views.len(), |i: int| suggestion_row(views[i])),
            row_views(out@) == all.take(i as int),
        decreases s@.len() - i,
    {
        let ghost before = row_views(out@);
        let untitled: bool = s[i].1.as_str().unicode_len() == 0;
        let label: String = label_for(s[i].1.as_str(), s[i].0.as_str(), untitled);
        out.push(OmniRow { label, pick: OmniPick::Url(s[i].0.clone()) });
        assert(row_views(out@) =~= before.push(suggestion_row(views[i as int])));
        assert(all.take(i + 1) =~= before.push(all[i as int]));
        i = i + 1;
    }
    assert(all.take(s@.len() as int) =~= all);
    out
}

/// What is listed under the address bar, besides the commands: tabs or bookmarks for their verbs,
/// nothing for a search in the page, and suggestions for anything else.
pub open spec fn rows_for(
    loc: Seq<char>,
    t: Seq<TabView>,
    b: Seq<MarkView>,
    h: Seq<profile::VisitView>,
) -> Seq<RowView> {
    match verb_of(loc) {
        Some((v, rest)) => if v == 't' {
            tab_rows(t, unicode::lowercase(rest))
        } else if v == 'b' {
            mark_rows(b, unicode::lowercase(rest))
        } else {
            Seq::empty()
        },
        None => suggestion_rows(h, text::trimmed(loc)),
    }
}

/// What is listed under the address bar, besides the commands.
pub fn list_rows(
    loc: &str,
    t: &Vec<Tab>,
    b: &Vec<Bookmark>,
    history: &Vec<HistoryEntry>,
) -> (r: Vec<OmniRow>)
    ensures
        row_views(r@) == rows_for(
            loc@,
            tabs::tab_views(t@),
            profile::mark_views(b@),
            profile::visit_views(history@),
        ),
{
    match omnibar_verb(loc) {
        Some((v, rest)) => {
            let q: String = unicode::to_lowercase(rest.as_str());
            if v == 't' {
                list_tabs(t, q.as_str())
            } else if v == 'b' {
                list_marks(b, q.as_str())
            } else {
                let out: Vec<OmniRow> = Vec::new();
                assert(row_views(out@) =~= Seq::<RowView>::empty());
                out
            }
        },
        None => list_suggestions(history, text::trim(loc).as_str()),
    }
}

proof fn lemma_tab_rows(t: Seq<TabView>, q: Seq<char>)
    requires
        t.len() <= usize::MAX,
    ensures
        tab_rows(t, q).len() <= MAX_ROWS,
        forall|i: int|
            0 <= i < tab_rows(t, q).len() ==> ((#[trigger] tab_rows(t, q)[i]).1 matches PickView::Tab(
                k,
            ) && k < t.len()),
    decreases t.len(),
{
    if t.len() > 0 {
        lemma_tab_rows(t.drop_last(), q);
        let rest = tab_rows(t.drop_last(), q);
        assert forall|i: int| 0 <= i < tab_rows(t, q).len() implies ((
        #[trigger] tab_rows(t, q)[i]).1 matches PickView::Tab(k) && k < t.len()) by {
            if i < rest.len() {
                assert(tab_rows(t, q)[i] == rest[i]);
            }
        }
    }
}

/// At most eight tabs are listed, and each row leads to a tab that is open.
pub proof fn listed_tabs_are_open(t: Seq<TabView>, q: Seq<char>)
    requires
        t.len() <= usize::MAX,
    ensures
        tab_rows(t, q).len() <= MAX_ROWS,
        forall|i: int|
            0 <= i < tab_rows(t, q).len() ==> ((#[trigger] tab_rows(t, q)[i]).1 matches PickView::Tab(
                k,
            ) && k < t.len()),
{
    lemma_tab_rows(t, q);
}

// ---------------------------------------------------------------------------
// Commands
// ---------------------------------------------------------------------------

/// The places of the commands whose name holds the filter.
pub open spec fn matching_commands(names: Seq<Seq<char>>, filter: Seq<char>) -> Seq<int>
    decreases names.len(),
{
    if names.len() == 0 {
        Seq::empty()
    } else {
        let rest = matching_commands(names.drop_last(), filter);
        if text::has(unicode::lowercase(names.last()), filter) {
            rest.push(names.len() - 1)
        } else {
            rest
        }
    }
}

/// The places of the commands that an entry asks for.
pub fn list_commands(loc: &str, names: &Vec<String>) -> (r: Vec<usize>)
    ensures
        Seq::new(r@.len(), |i: int| r@[i] as int) == matching_commands(
            text::texts(names@),
            command_filter(loc@),
        ),
{
    let filter: String = filter_of(loc);
    let ghost all = text::texts(names@);
    let mut out: Vec<usize> = Vec::new();
    let mut i: usize = 0;
    assert(Seq::new(out@.len(), |i: int| out@[i] as int) =~= matching_commands(
        all.take(0),
        filter@,
    ));
    while i < names.len()
        invariant
            i <= names@.len(),
            all == text::texts(names@),
            Seq::new(out@.len(), |i: int| out@[i] as int) == matching_commands(
                all.take(i as int),
                filter@,
            ),
        decreases names@.len() - i,
    {
        let ghost before = Seq::new(out@.len(), |i: int| out@[i] as int);
        assert(all.take(i + 1).drop_last() =~= all.take(i as int));
        assert(all.take(i + 1).last() == all[i as int]);
        if text::contains(
            unicode::to_lowercase(names[i].as_str()).as_str(),
            filter.as_str(),
        ) {
            out.push(i);
            assert(Seq::new(out@.len(), |i: int| out@[i] as int) =~= before.push(i as int));
        }
        i = i + 1;
    }
    assert(all.take(names@.len() as int) =~= all);
    out
}

// ---------------------------------------------------------------------------
// What comes of it
// ---------------------------------------------------------------------------

/// What the user has done in the address bar this frame.
#[derive(Clone, Copy, Debug, PartialEq, Eq, Structural)]
pub struct OmniEvent {
    /// Enter was pressed.
    pub enter: bool,
    /// The row, or command, of this place was clicked.
    pub clicked: Option<usize>,
    /// Escape was pressed.
    pub escape: bool,
}

/// What is to be done about it.
#[derive(Debug)]
pub enum OmniDeed {
    Nothing,
    /// Load this entry.
    Go(String),
    /// Go to the open tab of this place.
    Switch(usize),
    /// Look for this in the page.
    Find(String),
    /// Run the command of this place.
    Command(usize),
    /// Leave the commands.
    Clear,
}

/// `OmniDeed` as mathematical values.
#[verifier::ext_equal]
pub enum DeedView {
    Nothing,
    Go(Seq<char>),
    Switch(usize),
    Find(Seq<char>),
    Command(usize),
    Clear,
}

impl View for OmniDeed {
    type V = DeedView;

    open spec fn view(&self) -> DeedView {
        match self {
            OmniDeed::Nothing => DeedView::Nothing,
            OmniDeed::Go(s) => DeedView::Go(s@),
            OmniDeed::Switch(i) => DeedView::Switch(*i),
            OmniDeed::Find(s) => DeedView::Find(s@),
            OmniDeed::Command(i) => DeedView::Command(*i),
            OmniDeed::Clear => DeedView::Clear,
        }
    }
}

/// What a row leads to is done.
pub open spec fn picked(p: PickView) -> DeedView {
    match p {
        PickView::Tab(i) => DeedView::Switch(i),
        PickView::Url(u) => DeedView::Go(u),
    }
}

/// The place that counts: that of the row clicked, or the first where Enter was pressed.
pub open spec fn chosen(e: OmniEvent, n: nat) -> Option<int> {
    match e.clicked {
        Some(i) => if i < n {
            Some(i as int)
        } else if e.enter && n > 0 {
            Some(0)
        } else {
            None
        },
        None => if e.enter && n > 0 {
            Some(0)
        } else {
            None
        },
    }
}

fn choose_row(e: OmniEvent, n: usize) -> (r: Option<usize>)
    ensures
        match r {
            Some(i) => chosen(e, n as nat) == Some(i as int) && i < n,
            None => chosen(e, n as nat) is None,
        },
{
    match e.clicked {
        Some(i) => {
            if i < n {
                return Some(i);
            }
        },
        None => {},
    }
    if e.enter && n > 0 {
        Some(0)
    } else {
        None
    }
}

/// What comes of an event in the address bar. Commands run by a click or the first by Enter; a
/// verb picks a row, or starts a search in the page; anything else is loaded, by Enter as it
/// stands or by a click on a suggestion.
pub open spec fn deed_for(
    loc: Seq<char>,
    e: OmniEvent,
    rows: Seq<RowView>,
    commands: Seq<int>,
) -> DeedView {
    if is_command(loc) {
        match chosen(e, commands.len()) {
            Some(i) => DeedView::Command(commands[i] as usize),
            None => if e.escape {
                DeedView::Clear
            } else {
                DeedView::Nothing
            },
        }
    } else {
        match verb_of(loc) {
            Some((v, rest)) => if v == '/' {
                if e.enter && rest.len() > 0 {
                    DeedView::Find(rest)
                } else {
                    DeedView::Nothing
                }
            } else {
                match chosen(e, rows.len()) {
                    Some(i) => picked(rows[i].1),
                    None => DeedView::Nothing,
                }
            },
            None => match e.clicked {
                Some(i) => if i < rows.len() {
                    picked(rows[i as int].1)
                } else if e.enter {
                    DeedView::Go(text::trimmed(loc))
                } else {
                    DeedView::Nothing
                },
                None => if e.enter {
                    DeedView::Go(text::trimmed(loc))
                } else {
                    DeedView::Nothing
                },
            },
        }
    }
}

fn pick_row(rows: &Vec<OmniRow>, i: usize) -> (r: OmniDeed)
    requires
        i < rows@.len(),
    ensures
        r@ == picked(row_views(rows@)[i as int].1),
{
    match &rows[i].pick {
        OmniPick::Tab(k) => OmniDeed::Switch(*k),
        OmniPick::Url(u) => OmniDeed::Go(u.clone()),
    }
}

/// Decides what comes of an event in the address bar, given the rows and commands listed.
pub fn omnibar_step(
    loc: &str,
    e: OmniEvent,
    rows: &Vec<OmniRow>,
    commands: &Vec<usize>,
) -> (r: OmniDeed)
    ensures
        r@ == deed_for(
            loc@,
            e,
            row_views(rows@),
            Seq::new(commands@.len(), |i: int| commands@[i] as int),
        ),
{
    assert(row_views(rows@).len() == rows@.len());
    if is_command_entry(loc) {
        return match choose_row(e, commands.len()) {
            Some(i) => OmniDeed::Command(commands[i]),
            None => {
                if e.escape {
                    OmniDeed::Clear
                } else {
                    OmniDeed::Nothing
                }
            },
        };
    }
    match omnibar_verb(loc) {
        Some((v, rest)) => {
            if v == '/' {
                if e.enter && rest.as_str().unicode_len() > 0 {
                    OmniDeed::Find(rest)
                } else {
                    OmniDeed::Nothing
                }
            } else {
                match choose_row(e, rows.len()) {
                    Some(i) => pick_row(rows, i),
                    None => OmniDeed::Nothing,
                }
            }
        },
        None => {
            match e.clicked {
                Some(i) => {
                    if i < rows.len() {
                        return pick_row(rows, i);
                    }
                },
                None => {},
            }
            if e.enter {
                OmniDeed::Go(text::trim(loc))
            } else {
                OmniDeed::Nothing
            }
        },
    }
}

/// The window once something is done from the address bar: what was loaded stays in the bar, and
/// anything else empties it.
pub open spec fn after_deed(w: window::WindowView, d: DeedView) -> window::WindowView {
    match d {
        DeedView::Nothing => w,
        DeedView::Go(s) => window::WindowView { location: s, location_dirty: false, ..w },
        DeedView::Switch(i) => window::selected(
            window::WindowView { location: Seq::empty(), location_dirty: false, ..w },
            w.focused,
            i,
        ),
        DeedView::Clear => window::WindowView {
            location: Seq::empty(),
            location_dirty: true,
            ..w
        },
        _ => window::WindowView { location: Seq::empty(), location_dirty: false, ..w },
    }
}

impl TabWindow {
    /// Carries out on the window what is done from the address bar.
    pub fn apply_omnibar(&mut self, d: &OmniDeed)
        ensures
            final(self)@ == after_deed(old(self)@, d@),
            old(self)@.wf() ==> final(self)@.wf(),
    {
        let ghost w = self@;
        match d {
            OmniDeed::Nothing => {},
            OmniDeed::Go(s) => {
                self.location = s.clone();
                self.location_dirty = false;
            },
            OmniDeed::Switch(i) => {
                self.empty_location(false);
                let focused: usize = self.focused;
                self.select_tab(focused, *i);
            },
            OmniDeed::Clear => {
                self.empty_location(true);
            },
            _ => {
                self.empty_location(false);
            },
        }
    }

    fn empty_location(&mut self, dirty: bool)
        ensures
            final(self)@ == (window::WindowView {
                location: Seq::empty(),
                location_dirty: dirty,
                ..old(self)@
            }),
    {
        self.location = String::new();
        self.location_dirty = dirty;
        assert(self.location@ =~= Seq::<char>::empty());
    }

    /// The user has typed in the address bar.
    pub fn edit_location(&mut self, entry: &str)
        ensures
            final(self)@ == (window::WindowView {
                location: entry@,
                location_dirty: true,
                ..old(self)@
            }),
            old(self)@.wf() ==> final(self)@.wf(),
    {
        self.location = entry.to_owned();
        self.location_dirty = true;
    }

    /// Fills the active tab's star, or empties it.
    pub fn toggle_star(&mut self)
        ensures
            final(self)@ == starred(old(self)@),
            old(self)@.wf() ==> final(self)@.wf(),
    {
        let ghost w = self@;
        if self.focused == 1 {
            let i: usize = self.pane1.active;
            if i < self.pane1.tabs.len() {
                self.pane1.tabs[i].starred = !self.pane1.tabs[i].starred;
                assert(self@.pane1.tabs =~= w.pane1.tabs.update(
                    i as int,
                    TabView {
                        starred: !w.pane1.tabs[i as int].starred,
                        ..w.pane1.tabs[i as int]
                    },
                ));
            }
        } else {
            let i: usize = self.pane0.active;
            if i < self.pane0.tabs.len() {
                self.pane0.tabs[i].starred = !self.pane0.tabs[i].starred;
                assert(self@.pane0.tabs =~= w.pane0.tabs.update(
                    i as int,
                    TabView {
                        starred: !w.pane0.tabs[i as int].starred,
                        ..w.pane0.tabs[i as int]
                    },
                ));
            }
        }
    }
}

// ---------------------------------------------------------------------------
// The toolbar
// ---------------------------------------------------------------------------

/// What the toolbar shows.
#[derive(Debug)]
pub struct Toolbar {
    pub back: bool,
    pub forward: bool,
    /// How many add-ons run on the page, unless none does.
    pub addons: Option<String>,
    /// The button that saves the page's login.
    pub save_login: bool,
    pub zoom: Option<String>,
    /// The address bar holds a command.
    pub command: bool,
    pub star: &'static str,
    pub maximise: &'static str,
}

/// A button of the toolbar.
#[derive(Clone, Copy, Debug, PartialEq, Eq, Structural)]
pub enum ToolbarClick {
    Back,
    Forward,
    Reload,
    Close,
    Maximise,
    Minimise,
    Settings,
    Appearance,
    Addons,
    SaveLogin,
    ResetZoom,
    Star,
}

/// What is left to do once a button was clicked.
#[derive(Clone, Copy, Debug)]
pub enum ToolbarDeed {
    Nothing,
    GoBack,
    GoForward,
    Reload,
    /// Make the window as large as the screen, or as it was before.
    SetMaximised(bool),
    Minimise,
    /// Go to this address, as if it had been entered.
    Open(&'static str),
    ToggleAddons,
    SaveLogin,
    ResetZoom,
}

/// The active tab of the pane with the focus.
pub open spec fn active_tab(w: window::WindowView) -> Option<TabView> {
    let p = w.focused_pane();
    if p.active < p.tabs.len() {
        Some(p.tabs[p.active as int])
    } else {
        None
    }
}

/// The window once a button was clicked.
pub open spec fn after_click(w: window::WindowView, c: ToolbarClick) -> window::WindowView {
    match c {
        ToolbarClick::Close => window::WindowView { wants_close: true, ..w },
        ToolbarClick::Star => starred(w),
        _ => w,
    }
}

/// The window with the active tab's star filled, or emptied.
pub open spec fn starred(w: window::WindowView) -> window::WindowView {
    match active_tab(w) {
        Some(t) => w.with_tab(
            w.focused,
            w.focused_pane().active as int,
            TabView { starred: !t.starred, ..t },
        ),
        None => w,
    }
}

/// What is left to do once a button was clicked; a button that is not there, or needs a page where
/// there is none, does nothing.
pub open spec fn click_deed(
    w: window::WindowView,
    c: ToolbarClick,
    unlocked: bool,
    maximised: bool,
) -> ToolbarDeed {
    match c {
        ToolbarClick::Back => match active_tab(w) {
            Some(t) => if t.can_back {
                ToolbarDeed::GoBack
            } else {
                ToolbarDeed::Nothing
            },
            None => ToolbarDeed::Nothing,
        },
        ToolbarClick::Forward => match active_tab(w) {
            Some(t) => if t.can_forward {
                ToolbarDeed::GoForward
            } else {
                ToolbarDeed::Nothing
            },
            None => ToolbarDeed::Nothing,
        },
        ToolbarClick::Reload => if active_tab(w) is Some {
            ToolbarDeed::Reload
        } else {
            ToolbarDeed::Nothing
        },
        ToolbarClick::Close => ToolbarDeed::Nothing,
        ToolbarClick::Maximise => ToolbarDeed::SetMaximised(!maximised),
        ToolbarClick::Minimise => ToolbarDeed::Minimise,
        ToolbarClick::Settings => ToolbarDeed::Open("gator://settings"),
        ToolbarClick::Appearance => ToolbarDeed::Open("gator://settings#appearance"),
        ToolbarClick::Addons => ToolbarDeed::ToggleAddons,
        ToolbarClick::SaveLogin => if unlocked {
            ToolbarDeed::SaveLogin
        } else {
            ToolbarDeed::Nothing
        },
        ToolbarClick::ResetZoom => ToolbarDeed::ResetZoom,
        ToolbarClick::Star => ToolbarDeed::Nothing,
    }
}

impl TabWindow {
    /// What the toolbar shows. `running` is how many add-ons run on the page, and `percent` its
    /// zoom.
    pub fn toolbar(&self, running: usize, unlocked: bool, percent: u32, maximised: bool) -> (r:
        Toolbar)
        ensures
            r.back == (active_tab(self@) matches Some(t) && t.can_back),
            r.forward == (active_tab(self@) matches Some(t) && t.can_forward),
            address::optional_text(r.addons) == if running == 0 {
                None::<Seq<char>>
            } else {
                Some(number::decimal(running as nat))
            },
            r.save_login == unlocked,
            address::optional_text(r.zoom) == if percent == 100 {
                None::<Seq<char>>
            } else {
                Some(number::decimal(percent as nat) + "%"@)
            },
            r.command == is_command(self@.location),
            r.star@ == if active_tab(self@) matches Some(t) && t.starred {
                "★"@
            } else {
                "☆"@
            },
            r.maximise@ == if maximised {
                "Restore"@
            } else {
                "Maximize"@
            },
    {
        let p: &PaneGroup = self.pane(self.focused);
        let (back, forward): (bool, bool) = p.active_nav();
        let star: bool = p.active < p.tabs.len() && p.tabs[p.active].starred;
        Toolbar {
            back,
            forward,
            addons: if running == 0 {
                None
            } else {
                Some(number::decimal_string(running as u64))
            },
            save_login: unlocked,
            zoom: zoom_mark(percent),
            command: is_command_entry(self.location.as_str()),
            star: if star {
                "★"
            } else {
                "☆"
            },
            maximise: if maximised {
                "Restore"
            } else {
                "Maximize"
            },
        }
    }

    /// A button of the toolbar was clicked. Returns what is left to do.
    pub fn click_toolbar(&mut self, c: ToolbarClick, unlocked: bool, maximised: bool) -> (r:
        ToolbarDeed)
        ensures
            final(self)@ == after_click(old(self)@, c),
            r == click_deed(old(self)@, c, unlocked, maximised),
            old(self)@.wf() ==> final(self)@.wf(),
    {
        let p: &PaneGroup = self.pane(self.focused);
        let there: bool = p.active < p.tabs.len();
        let (back, forward): (bool, bool) = p.active_nav();
        match c {
            ToolbarClick::Back => if back {
                ToolbarDeed::GoBack
            } else {
                ToolbarDeed::Nothing
            },
            ToolbarClick::Forward => if forward {
                ToolbarDeed::GoForward
            } else {
                ToolbarDeed::Nothing
            },
            ToolbarClick::Reload => if there {
                ToolbarDeed::Reload
            } else {
                ToolbarDeed::Nothing
            },
            ToolbarClick::Close => {
                self.wants_close = true;
                ToolbarDeed::Nothing
            },
            ToolbarClick::Maximise => ToolbarDeed::SetMaximised(!maximised),
            ToolbarClick::Minimise => ToolbarDeed::Minimise,
            ToolbarClick::Settings => ToolbarDeed::Open("gator://settings"),
            ToolbarClick::Appearance => ToolbarDeed::Open("gator://settings#appearance"),
            ToolbarClick::Addons => ToolbarDeed::ToggleAddons,
            ToolbarClick::SaveLogin => if unlocked {
                ToolbarDeed::SaveLogin
            } else {
                ToolbarDeed::Nothing
            },
            ToolbarClick::ResetZoom => ToolbarDeed::ResetZoom,
            ToolbarClick::Star => {
                self.toggle_star();
                ToolbarDeed::Nothing
            },
        }
    }

    /// Where a click on the bar of bookmarks leads: to the bookmark's address, if that can be read
    /// and there is a page to load it in.
    pub fn bookmark_target(&self, b: &Vec<Bookmark>, i: usize) -> (r: Option<String>)
        ensures
            address::optional_text(r) == if i < b@.len() && active_tab(self@) is Some {
                match address::parsed_url(b@[i as int].url@) {
                    Some(u) => Some(u.text),
                    None => None,
                }
            } else {
                None::<Seq<char>>
            },
    {
        let p: &PaneGroup = self.pane(self.focused);
        if i < b.len() && p.active < p.tabs.len() {
            match address::parse_url(b[i].url.as_str()) {
                Some(u) => Some(u.text),
                None => None,
            }
        } else {
            None
        }
    }

    /// Bookmarks the active tab's page, or takes its bookmark away.
    pub fn toggle_bookmark_active(&self, p: &mut Profile, now: i64)
        ensures
            final(p).history == old(p).history,
            profile::mark_views(final(p).bookmarks@) == match active_tab(self@) {
                Some(t) => profile::toggled(
                    profile::mark_views(old(p).bookmarks@),
                    t.url,
                    t.title,
                    now,
                ),
                None => profile::mark_views(old(p).bookmarks@),
            },
    {
        let g: &PaneGroup = self.pane(self.focused);
        if g.active < g.tabs.len() {
            p.toggle_bookmark(
                g.tabs[g.active].url.as_str(),
                g.tabs[g.active].title.as_str(),
                now,
            );
        }
    }
}

/// The zoom mark: the percentage, unless it is the usual one.
pub fn zoom_mark(percent: u32) -> (r: Option<String>)
    ensures
        address::optional_text(r) == if percent == 100 {
            None::<Seq<char>>
        } else {
            Some(number::decimal(percent as nat) + "%"@)
        },
{
    if percent == 100 {
        None
    } else {
        let mut out: String = number::decimal_string(percent as u64);
        out.append("%");
        Some(out)
    }
}

/// The labels on the bookmarks bar: the titles, cut short.
pub open spec fn bar_labels(b: Seq<MarkView>) -> Seq<Seq<char>> {
    Seq::new(b.len(), |i: int| codec::shortened(b[i].title, 18))
}

/// The labels on the bookmarks bar.
pub fn bookmark_labels(b: &Vec<Bookmark>) -> (r: Vec<String>)
    ensures
        text::texts(r@) == bar_labels(profile::mark_views(b@)),
{
    let ghost all = bar_labels(profile::mark_views(b@));
    let mut out: Vec<String> = Vec::new();
    let mut i: usize = 0;
    assert(text::texts(out@) =~= all.take(0));
    while i < b.len()
        invariant
            i <= b@.len(),
            all == bar_labels(profile::mark_views(b@)),
            text::texts(out@) == all.take(i as int),
        decreases b@.len() - i,
    {
        let ghost before = text::texts(out@);
        out.push(codec::truncate_ellipsis(b[i].title.as_str(), 18));
        assert(text::texts(out@) =~= before.push(all[i as int]));
        assert(all.take(i + 1) =~= before.push(all[i as int]));
        i = i + 1;
    }
    assert(all.take(b@.len() as int) =~= all);
    out
}

// ---------------------------------------------------------------------------
// Laws
// ---------------------------------------------------------------------------

/// What starts with a slash looks in the page, `t` and `b` with a space behind them look among tabs
/// and bookmarks, whatever their case, and anything else is no verb.
pub proof fn verbs_are_read(rest: Seq<char>, s: Seq<char>)
    ensures
        verb_of(seq!['/'] + rest) == Some(('/', rest)),
        verb_of(seq!['t', ' '] + rest) == Some(('t', text::trimmed_start(rest))),
        verb_of(seq!['T', ' '] + rest) == Some(('t', text::trimmed_start(rest))),
        verb_of(seq!['b', ' '] + rest) == Some(('b', text::trimmed_start(rest))),
        verb_of(seq!['B', ' '] + rest) == Some(('b', text::trimmed_start(rest))),
        s.len() > 0 && !text::is_space(s[0]) && s[0] != '/' && (s.len() == 1 || s[1] != ' ')
            ==> verb_of(s) is None,
        verb_of(Seq::empty()) is None,
{
    let tail = seq![' '] + rest;
    assert((seq!['/'] + rest).skip(1) =~= rest);
    assert((seq!['t', ' '] + rest).skip(1) =~= tail);
    assert((seq!['T', ' '] + rest).skip(1) =~= tail);
    assert((seq!['b', ' '] + rest).skip(1) =~= tail);
    assert((seq!['B', ' '] + rest).skip(1) =~= tail);
    assert(tail.skip(1) =~= rest);
    assert(text::trimmed_start(tail) == text::trimmed_start(rest));
}

/// A row is listed for an open tab exactly if it is among the first eight that hold the query in their
/// title or address: while there is room, the next tab that holds it is listed and leads to its own
/// place, and one that does not is not.
pub proof fn tabs_that_hold_the_query_are_listed(t: Seq<TabView>, x: TabView, q: Seq<char>)
    requires
        t.len() < usize::MAX,
    ensures
        tab_rows(t, q).len() < 8 && (q.len() == 0 || text::has(unicode::lowercase(x.title), q)
            || text::has(unicode::lowercase(x.url), q)) ==> tab_rows(t.push(x), q).len() == tab_rows(
            t,
            q,
        ).len() + 1 && tab_rows(t.push(x), q).last().1 == PickView::Tab(t.len() as usize)
            && tab_rows(t.push(x), q).drop_last() == tab_rows(t, q),
        q.len() > 0 && !text::has(unicode::lowercase(x.title), q) && !text::has(
            unicode::lowercase(x.url),
            q,
        ) ==> tab_rows(t.push(x), q) == tab_rows(t, q),
        tab_rows(t, q).len() >= 8 ==> tab_rows(t.push(x), q) == tab_rows(t, q),
        tab_rows(Seq::empty(), q).len() == 0,
{
    assert(t.push(x).drop_last() =~= t);
    if tab_rows(t, q).len() < 8 && is_hit(q, x.title, x.url) {
        assert(tab_rows(t.push(x), q).drop_last() =~= tab_rows(t, q));
    }
}

/// So it is for bookmarks: while there is room, the next that holds the query is listed and leads to
/// its address.
pub proof fn bookmarks_that_hold_the_query_are_listed(b: Seq<MarkView>, x: MarkView, q: Seq<char>)
    ensures
        mark_rows(b, q).len() < 8 && (q.len() == 0 || text::has(unicode::lowercase(x.title), q)
            || text::has(unicode::lowercase(x.url), q)) ==> mark_rows(b.push(x), q).len() == mark_rows(
            b,
            q,
        ).len() + 1 && mark_rows(b.push(x), q).last().1 == PickView::Url(x.url) && mark_rows(
            b.push(x),
            q,
        ).drop_last() == mark_rows(b, q),
        q.len() > 0 && !text::has(unicode::lowercase(x.title), q) && !text::has(
            unicode::lowercase(x.url),
            q,
        ) ==> mark_rows(b.push(x), q) == mark_rows(b, q),
        mark_rows(b, q).len() >= 8 ==> mark_rows(b.push(x), q) == mark_rows(b, q),
        mark_rows(Seq::empty(), q).len() == 0,
{
    assert(b.push(x).drop_last() =~= b);
    if mark_rows(b, q).len() < 8 && is_hit(q, x.title, x.url) {
        assert(mark_rows(b.push(x), q).drop_last() =~= mark_rows(b, q));
    }
}

/// What is listed: tabs for the verb of tabs, bookmarks for that of bookmarks, nothing for a search
/// in the page, and for anything else that is not empty the suggestions for it, each leading to its
/// own address.
pub proof fn each_entry_has_its_list(
    loc: Seq<char>,
    t: Seq<TabView>,
    b: Seq<MarkView>,
    h: Seq<profile::VisitView>,
)
    ensures
        verb_of(loc) matches Some((v, rest)) ==> {
            &&& v == 't' ==> rows_for(loc, t, b, h) == tab_rows(t, unicode::lowercase(rest))
            &&& v == 'b' ==> rows_for(loc, t, b, h) == mark_rows(b, unicode::lowercase(rest))
            &&& v == '/' ==> rows_for(loc, t, b, h).len() == 0
        },
        verb_of(loc) is None && text::trimmed(loc).len() > 0 ==> rows_for(loc, t, b, h).len()
            == profile::suggested(h, text::trimmed(loc)).len() && forall|i: int|
            0 <= i < rows_for(loc, t, b, h).len() ==> (#[trigger] rows_for(loc, t, b, h)[i]).1
                == PickView::Url(profile::suggested(h, text::trimmed(loc))[i].0),
        verb_of(loc) is None && text::trimmed(loc).len() == 0 ==> rows_for(loc, t, b, h).len() == 0,
{
}

/// A command is listed exactly if its name holds the filter, whatever the case.
pub proof fn commands_that_hold_the_filter_are_listed(
    names: Seq<Seq<char>>,
    x: Seq<char>,
    filter: Seq<char>,
)
    ensures
        text::has(unicode::lowercase(x), filter) ==> matching_commands(names.push(x), filter)
            == matching_commands(names, filter).push(names.len() as int),
        !text::has(unicode::lowercase(x), filter) ==> matching_commands(names.push(x), filter)
            == matching_commands(names, filter),
        matching_commands(Seq::empty(), filter).len() == 0,
{
    assert(names.push(x).drop_last() =~= names);
}

/// Enter loads what stands in the bar, where it is neither a command nor a verb; a click on a row
/// goes where the row leads, whatever the entry; and where nothing was pressed or clicked nothing
/// happens.
pub proof fn enter_loads_the_entry(loc: Seq<char>, rows: Seq<RowView>, commands: Seq<int>, i: usize)
    requires
        !is_command(loc),
        verb_of(loc) is None,
    ensures
        deed_for(loc, OmniEvent { enter: true, clicked: None, escape: false }, rows, commands)
            == DeedView::Go(text::trimmed(loc)),
        i < rows.len() ==> deed_for(
            loc,
            OmniEvent { enter: false, clicked: Some(i), escape: false },
            rows,
            commands,
        ) == match rows[i as int].1 {
            PickView::Tab(k) => DeedView::Switch(k),
            PickView::Url(u) => DeedView::Go(u),
        },
        deed_for(loc, OmniEvent { enter: false, clicked: None, escape: false }, rows, commands)
            == DeedView::Nothing,
{
}

/// Under a verb Enter takes the first row, and a click the row that was clicked; a slash looks for
/// what follows it.
pub proof fn enter_takes_the_first_row(
    loc: Seq<char>,
    rows: Seq<RowView>,
    commands: Seq<int>,
    i: usize,
    v: char,
    rest: Seq<char>,
)
    requires
        !is_command(loc),
        verb_of(loc) == Some((v, rest)),
    ensures
        v == '/' && rest.len() > 0 ==> deed_for(
            loc,
            OmniEvent { enter: true, clicked: None, escape: false },
            rows,
            commands,
        ) == DeedView::Find(rest),
        v != '/' && rows.len() > 0 ==> deed_for(
            loc,
            OmniEvent { enter: true, clicked: None, escape: false },
            rows,
            commands,
        ) == match rows[0].1 {
            PickView::Tab(k) => DeedView::Switch(k),
            PickView::Url(u) => DeedView::Go(u),
        },
        v != '/' && i < rows.len() ==> deed_for(
            loc,
            OmniEvent { enter: false, clicked: Some(i), escape: false },
            rows,
            commands,
        ) == match rows[i as int].1 {
            PickView::Tab(k) => DeedView::Switch(k),
            PickView::Url(u) => DeedView::Go(u),
        },
        v != '/' && rows.len() == 0 ==> deed_for(
            loc,
            OmniEvent { enter: true, clicked: None, escape: false },
            rows,
            commands,
        ) == DeedView::Nothing,
{
}

/// Among the commands Enter runs the first that is listed, a click the one that was clicked, and
/// Escape leaves them.
pub proof fn commands_run_as_they_are_chosen(
    rest: Seq<char>,
    rows: Seq<RowView>,
    commands: Seq<int>,
    i: usize,
)
    ensures
        is_command(seq!['>'] + rest),
        commands.len() > 0 ==> deed_for(
            seq!['>'] + rest,
            OmniEvent { enter: true, clicked: None, escape: false },
            rows,
            commands,
        ) == DeedView::Command(commands[0] as usize),
        i < commands.len() ==> deed_for(
            seq!['>'] + rest,
            OmniEvent { enter: false, clicked: Some(i), escape: false },
            rows,
            commands,
        ) == DeedView::Command(commands[i as int] as usize),
        deed_for(
            seq!['>'] + rest,
            OmniEvent { enter: false, clicked: None, escape: true },
            rows,
            commands,
        ) == DeedView::Clear,
{
}

/// What was loaded stays in the address bar; what was done otherwise empties it, and a tab that was
/// switched to shows its address there.
pub proof fn the_bar_shows_what_was_loaded(w: window::WindowView, s: Seq<char>, i: usize)
    ensures
        after_deed(w, DeedView::Go(s)).location == s && !after_deed(w, DeedView::Go(s)).location_dirty,
        after_deed(w, DeedView::Go(s)).pane0 == w.pane0 && after_deed(w, DeedView::Go(s)).pane1
            == w.pane1,
        after_deed(w, DeedView::Nothing) == w,
        after_deed(w, DeedView::Find(s)).location.len() == 0,
        after_deed(w, DeedView::Command(i)).location.len() == 0,
        after_deed(w, DeedView::Clear).location.len() == 0,
        i < w.focused_pane().tabs.len() ==> after_deed(w, DeedView::Switch(i)).pane(w.focused).active
            == i && after_deed(w, DeedView::Switch(i)).location == w.focused_pane().tabs[i as int].url,
{
}

/// The buttons do what they say: back and forward where the page has somewhere to go, reload where
/// there is a page, and the window buttons to the window.
pub proof fn the_buttons_do_what_they_say(w: window::WindowView, unlocked: bool, maximised: bool)
    requires
        w.focused_pane().active < w.focused_pane().tabs.len(),
    ensures
        ({
            let t = w.focused_pane().tabs[w.focused_pane().active as int];
            &&& t.can_back ==> click_deed(w, ToolbarClick::Back, unlocked, maximised) is GoBack
            &&& !t.can_back ==> click_deed(w, ToolbarClick::Back, unlocked, maximised) is Nothing
            &&& t.can_forward ==> click_deed(w, ToolbarClick::Forward, unlocked, maximised) is GoForward
            &&& !t.can_forward ==> click_deed(w, ToolbarClick::Forward, unlocked, maximised) is Nothing
        }),
        click_deed(w, ToolbarClick::Reload, unlocked, maximised) is Reload,
        click_deed(w, ToolbarClick::Maximise, unlocked, maximised) == ToolbarDeed::SetMaximised(
            !maximised,
        ),
        click_deed(w, ToolbarClick::Minimise, unlocked, maximised) is Minimise,
        click_deed(w, ToolbarClick::Addons, unlocked, maximised) is ToggleAddons,
        click_deed(w, ToolbarClick::ResetZoom, unlocked, maximised) is ResetZoom,
        click_deed(w, ToolbarClick::SaveLogin, true, maximised) is SaveLogin,
        click_deed(w, ToolbarClick::SaveLogin, false, maximised) is Nothing,
        click_deed(w, ToolbarClick::Settings, unlocked, maximised) matches ToolbarDeed::Open(u) && u@
            == "gator://settings"@,
        click_deed(w, ToolbarClick::Appearance, unlocked, maximised) matches ToolbarDeed::Open(u) && u@
            == "gator://settings#appearance"@,
        after_click(w, ToolbarClick::Close).wants_close,
        after_click(w, ToolbarClick::Back) == w && after_click(w, ToolbarClick::Reload) == w,
{
}

/// The star of the active tab is filled or emptied, and nothing else: twice leaves it as it was.
pub proof fn the_star_is_filled_or_emptied(w: window::WindowView)
    requires
        w.focused_pane().active < w.focused_pane().tabs.len(),
    ensures
        ({
            let a = w.focused_pane().active as int;
            let r = after_click(w, ToolbarClick::Star).focused_pane();
            &&& r.tabs.len() == w.focused_pane().tabs.len()
            &&& r.tabs[a].starred == !w.focused_pane().tabs[a].starred
            &&& r.tabs[a].url == w.focused_pane().tabs[a].url
            &&& forall|j: int|
                0 <= j < r.tabs.len() && j != a ==> #[trigger] r.tabs[j] == w.focused_pane().tabs[j]
        }),
{
}

/// What is done from the address bar shows there: a page that is loaded, by its address; a list that is
/// cleared leaves the bar empty and counts as being edited; anything else leaves it empty and settled.
pub proof fn the_bar_shows_what_was_done(w: window::WindowView, s: Seq<char>, i: usize)
    ensures
        after_deed(w, DeedView::Nothing) == w,
        after_deed(w, DeedView::Go(s)).location == s && !after_deed(w, DeedView::Go(s)).location_dirty,
        after_deed(w, DeedView::Clear).location.len() == 0 && after_deed(w, DeedView::Clear).location_dirty,
        after_deed(w, DeedView::Go(s)).pane0 == w.pane0 && after_deed(w, DeedView::Go(s)).pane1 == w.pane1,
        after_deed(w, DeedView::Clear).pane0 == w.pane0 && after_deed(w, DeedView::Clear).pane1 == w.pane1,
{
}

} // verus!

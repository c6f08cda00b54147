//! Bringing other history and bookmarks into the profile: from other browsers, and from the sync
//! service.

use vstd::prelude::*;
use vstd::string::*;

use crate::codec;
use crate::number;
use crate::profile;
use crate::profile::{Bookmark, HistoryEntry, MarkView, Profile, VisitView};
use crate::ranking;
use crate::settings;
use crate::text;

verus! {

// ---------------------------------------------------------------------------
// Import
// ---------------------------------------------------------------------------

/// The bookmarks with some more, each address once: what is there already stays.
pub open spec fn with_marks(
    b: Seq<MarkView>,
    new: Seq<(Seq<char>, Seq<char>)>,
    now: i64,
) -> Seq<MarkView>
    decreases new.len(),
{
    if new.len() == 0 {
        b
    } else {
        let rest = with_marks(b, new.drop_last(), now);
        let (url, title) = new.last();
        match profile::mark_place(rest, url) {
            Some(_) => rest,
            None => rest.push(MarkView { url, title, updated: now }),
        }
    }
}

pub open spec fn greater(a: u32, b: u32) -> u32 {
    if a >= b {
        a
    } else {
        b
    }
}

/// The history with some more, each address once: an entry that is there takes the greater visit
/// count, and the title if it has none.
pub open spec fn with_visits(h: Seq<VisitView>, new: Seq<VisitView>) -> Seq<VisitView>
    decreases new.len(),
{
    if new.len() == 0 {
        h
    } else {
        let rest = with_visits(h, new.drop_last());
        let e = new.last();
        match profile::visit_place(rest, e.url) {
            Some(i) => rest.update(
                i,
                VisitView {
                    visits: greater(rest[i].visits, e.visits),
                    title: if rest[i].title.len() == 0 {
                        e.title
                    } else {
                        rest[i].title
                    },
                    ..rest[i]
                },
            ),
            None => rest.push(e),
        }
    }
}

pub open spec fn times(h: Seq<VisitView>) -> Seq<int> {
    Seq::new(h.len(), |i: int| h[i].updated as int)
}

/// Entries from the one that changed last to the one that changed first; of those that changed at
/// one time, the one that came first is first.
pub open spec fn newest_first(h: Seq<VisitView>) -> Seq<VisitView> {
    Seq::new(h.len(), |k: int| h[ranking::ranking(times(h))[k]])
}

/// The history held to its limit: where there is more, the entries that changed last, the latest
/// first.
pub open spec fn bounded(h: Seq<VisitView>, max: nat) -> Seq<VisitView> {
    if h.len() > max {
        let order = ranking::ranking(times(h));
        Seq::new(max, |k: int| h[order[k]])
    } else {
        h
    }
}

/// What an import says it has brought.
pub open spec fn import_report(marks: nat, visits: nat) -> Seq<char> {
    if marks + visits > 0 {
        "Imported "@ + number::decimal(marks) + " bookmark(s) + "@ + number::decimal(visits)
            + " history entr"@ + (if visits == 1 {
            "y"@
        } else {
            "ies"@
        }) + "."@
    } else {
        "No new bookmarks or history found (Chrome / Firefox / …)."@
    }
}

proof fn lemma_with_marks_grow(b: Seq<MarkView>, new: Seq<(Seq<char>, Seq<char>)>, now: i64)
    ensures
        with_marks(b, new, now).len() >= b.len(),
        forall|i: int| 0 <= i < b.len() ==> with_marks(b, new, now)[i] == #[trigger] b[i],
    decreases new.len(),
{
    if new.len() > 0 {
        lemma_with_marks_grow(b, new.drop_last(), now);
    }
}

/// An import keeps every bookmark as it is, and every address brought is bookmarked after it.
pub proof fn import_keeps_bookmarks(
    b: Seq<MarkView>,
    new: Seq<(Seq<char>, Seq<char>)>,
    now: i64,
)
    ensures
        forall|i: int|
            0 <= i < b.len() ==> i < with_marks(b, new, now).len() && with_marks(b, new, now)[i]
                == #[trigger] b[i],
        forall|j: int|
            0 <= j < new.len() ==> profile::mark_place(
                with_marks(b, new, now),
                (#[trigger] new[j]).0,
            ) is Some,
    decreases new.len(),
{
    lemma_with_marks_grow(b, new, now);
    if new.len() > 0 {
        let old_new = new.drop_last();
        import_keeps_bookmarks(b, old_new, now);
        let rest = with_marks(b, old_new, now);
        let r = with_marks(b, new, now);
        assert forall|j: int| 0 <= j < new.len() implies profile::mark_place(
            r,
            (#[trigger] new[j]).0,
        ) is Some by {
            profile::lemma_mark_place(r, new[j].0);
            profile::lemma_mark_place(rest, new[j].0);
            if j < old_new.len() {
                assert(old_new[j] == new[j]);
                let i = profile::mark_place(rest, new[j].0).unwrap();
                assert(r[i].url == new[j].0);
            } else {
                profile::lemma_mark_place(rest, new.last().0);
                if profile::mark_place(rest, new.last().0) is None {
                    assert(r[rest.len() as int].url == new[j].0);
                } else {
                    let i = profile::mark_place(rest, new[j].0).unwrap();
                    assert(r[i].url == new[j].0);
                }
            }
        }
    }
}

/// A time of the Chromium browsers, in microseconds since 1601, as milliseconds since 1970; zero
/// where there is none. Times before 1970 are rounded towards it.
pub open spec fn chrome_time(t: i64) -> int {
    if t > 0 {
        let d = t - 11_644_473_600_000_000;
        if d >= 0 {
            d / 1000
        } else {
            -((-d) / 1000)
        }
    } else {
        0
    }
}

/// A time of Firefox, in microseconds since 1970, as milliseconds, rounded towards 1970.
pub open spec fn firefox_time(t: i64) -> int {
    if t >= 0 {
        t as int / 1000
    } else {
        -((-t) / 1000)
    }
}

/// A visit count of another browser: never negative, and its low 32 bits.
pub open spec fn visit_count(n: i64) -> u32 {
    if n <= 0 {
        0
    } else {
        (n as int % 0x1_0000_0000) as u32
    }
}

/// Converts a time of the Chromium browsers.
pub fn chrome_millis(t: i64) -> (r: i64)
    ensures
        r == chrome_time(t),
{
    if t > 0 {
        let d: i64 = t - 11_644_473_600_000_000;
        if d >= 0 {
            d / 1000
        } else {
            -((-d) / 1000)
        }
    } else {
        0
    }
}

/// Converts a time of Firefox.
pub fn firefox_millis(t: i64) -> (r: i64)
    ensures
        r == firefox_time(t),
{
    if t >= 0 {
        t / 1000
    } else {
        let m: u64 = (-(t + 1)) as u64 + 1;
        -((m / 1000) as i64)
    }
}

/// Converts a visit count of another browser.
pub fn imported_visits(n: i64) -> (r: u32)
    ensures
        r == visit_count(n),
{
    if n <= 0 {
        0
    } else {
        ((n as u64) % 0x1_0000_0000u64) as u32
    }
}

/// An optional text, or nothing.
pub open spec fn text_or_nothing(o: Option<String>) -> Seq<char> {
    match o {
        Some(s) => s@,
        None => Seq::empty(),
    }
}

/// A visit as a Chromium browser keeps it. What it left out counts as one visit, at no time.
pub fn chrome_visit(url: String, title: Option<String>, visits: Option<i64>, t: Option<i64>) -> (r:
    (String, String, u32, i64))
    ensures
        r.0 == url,
        r.1@ == text_or_nothing(title),
        r.2 == match visits {
            Some(n) => visit_count(n),
            None => 1u32,
        },
        r.3 == match t {
            Some(x) => chrome_time(x),
            None => 0,
        },
{
    (
        url,
        title_or_nothing(title),
        match visits {
            Some(n) => imported_visits(n),
            None => 1,
        },
        match t {
            Some(x) => chrome_millis(x),
            None => 0,
        },
    )
}

/// A visit as Firefox keeps it. What it left out counts as one visit, at no time.
pub fn firefox_visit(url: String, title: Option<String>, visits: Option<i64>, t: Option<i64>) -> (r:
    (String, String, u32, i64))
    ensures
        r.0 == url,
        r.1@ == text_or_nothing(title),
        r.2 == match visits {
            Some(n) => visit_count(n),
            None => 1u32,
        },
        r.3 == match t {
            Some(x) => firefox_time(x),
            None => 0,
        },
{
    (
        url,
        title_or_nothing(title),
        match visits {
            Some(n) => imported_visits(n),
            None => 1,
        },
        match t {
            Some(x) => firefox_millis(x),
            None => 0,
        },
    )
}

/// A bookmark as Firefox keeps it; without a title it goes by its address.
pub fn firefox_mark(url: String, title: Option<String>) -> (r: (String, String))
    ensures
        r.0@ == url@,
        r.1@ == match title {
            Some(s) => s@,
            None => url@,
        },
{
    match title {
        Some(s) => (url, s),
        None => (url.clone(), url),
    }
}

fn title_or_nothing(o: Option<String>) -> (r: String)
    ensures
        r@ == text_or_nothing(o),
{
    match o {
        Some(s) => s,
        None => {
            let out: String = String::new();
            assert(out@ =~= Seq::<char>::empty());
            out
        },
    }
}

fn times_of(h: &Vec<HistoryEntry>) -> (r: Vec<i64>)
    ensures
        ranking::ints(r@) == times(profile::visit_views(h@)),
        r@.len() == h@.len(),
{
    let mut out: Vec<i64> = Vec::new();
    let mut i: usize = 0;
    while i < h.len()
        invariant
            i <= h@.len(),
            out@.len() == i,
            forall|j: int| 0 <= j < i ==> out@[j] == h@[j].updated,
        decreases h@.len() - i,
    {
        out.push(h[i].updated);
        i = i + 1;
    }
    assert(ranking::ints(out@) =~= times(profile::visit_views(h@)));
    out
}

fn copy_entry(e: &HistoryEntry) -> (r: HistoryEntry)
    ensures
        r@ == e@,
{
    HistoryEntry {
        url: e.url.clone(),
        title: e.title.clone(),
        visits: e.visits,
        updated: e.updated,
    }
}

/// The history that other browsers keep, the newest first whichever browser it is from.
pub fn import_browser_history(found: &Vec<HistoryEntry>) -> (r: Vec<HistoryEntry>)
    ensures
        profile::visit_views(r@) == newest_first(profile::visit_views(found@)),
        r@.len() == found@.len(),
        forall|i: int, j: int|
            0 <= i < j < r@.len() ==> (#[trigger] r@[i]).updated >= (#[trigger] r@[j]).updated,
{
    let ghost all = profile::visit_views(found@);
    let ghost want = newest_first(all);
    let order: Vec<usize> = ranking::rank(&times_of(found));
    let mut out: Vec<HistoryEntry> = Vec::new();
    let mut k: usize = 0;
    assert(profile::visit_views(out@) =~= want.take(0));
    while k < order.len()
        invariant
            k <= order@.len(),
            order@.len() == found@.len(),
            all == profile::visit_views(found@),
            want == newest_first(all),
            ranking::places(order@) == ranking::ranking(times(all)),
            forall|j: int| 0 <= j < order@.len() ==> (#[trigger] order@[j]) < found@.len(),
            profile::visit_views(out@) == want.take(k as int),
        decreases order@.len() - k,
    {
        let ghost before = profile::visit_views(out@);
        assert(ranking::places(order@)[k as int] == order@[k as int]);
        out.push(copy_entry(&found[order[k]]));
        assert(want[k as int] == all[order@[k as int] as int]);
        assert(profile::visit_views(out@) =~= before.push(want[k as int]));
        assert(want.take(k + 1) =~= want.take(k as int).push(want[k as int]));
        k = k + 1;
    }
    proof {
        assert(want.take(order@.len() as int) =~= want);
        assert(profile::visit_views(out@).len() == out@.len());
        let keys = times(all);
        ranking::ranking_is_stable(keys, keys.len());
        assert forall|i: int, j: int| 0 <= i < j < out@.len() implies (#[trigger] out@[i]).updated
            >= (#[trigger] out@[j]).updated by {
            let a = ranking::ranking(keys)[i];
            let b = ranking::ranking(keys)[j];
            assert(ranking::precedes(keys, a, b));
            assert(profile::visit_views(out@)[i] == want[i] && profile::visit_views(out@)[j] == want[j]);
        }
    }
    out
}

/// Holds the history to its limit.
fn bound_history(h: &mut Vec<HistoryEntry>, max: usize)
    ensures
        profile::visit_views(final(h)@) == bounded(profile::visit_views(old(h)@), max as nat),
{
    if h.len() <= max {
        return;
    }
    let ghost all = profile::visit_views(h@);
    let order: Vec<usize> = ranking::rank(&times_of(h));
    let mut out: Vec<HistoryEntry> = Vec::new();
    let mut k: usize = 0;
    let ghost want = bounded(all, max as nat);
    assert(profile::visit_views(out@) =~= want.take(0));
    while k < max
        invariant
            k <= max,
            max < h@.len(),
            order@.len() == h@.len(),
            all == profile::visit_views(h@),
            want == bounded(all, max as nat),
            ranking::places(order@) == ranking::ranking(times(all)),
            forall|j: int| 0 <= j < order@.len() ==> (#[trigger] order@[j]) < h@.len(),
            profile::visit_views(out@) == want.take(k as int),
        decreases max - k,
    {
        let ghost before = profile::visit_views(out@);
        assert(ranking::places(order@)[k as int] == order@[k as int]);
        out.push(copy_entry(&h[order[k]]));
        assert(want[k as int] == all[order@[k as int] as int]);
        assert(profile::visit_views(out@) =~= before.push(want[k as int]));
        assert(want.take(k + 1) =~= want.take(k as int).push(want[k as int]));
        k = k + 1;
    }
    assert(want.take(max as int) =~= want);
    *h = out;
}

impl Profile {
    /// Adds bookmarks, each address once. Tells how many were new.
    fn add_marks(&mut self, new: &Vec<(String, String)>, now: i64) -> (r: usize)
        ensures
            profile::mark_views(final(self).bookmarks@) == with_marks(
                profile::mark_views(old(self).bookmarks@),
                crate::address::pair_texts(new@),
                now,
            ),
            r == final(self).bookmarks@.len() - old(self).bookmarks@.len(),
            final(self).history == old(self).history,
    {
        let ghost b = profile::mark_views(self.bookmarks@);
        let ghost all = crate::address::pair_texts(new@);
        let mut added: usize = 0;
        let mut i: usize = 0;
        while i < new.len()
            invariant
                i <= new@.len(),
                all == crate::address::pair_texts(new@),
                b == profile::mark_views(old(self).bookmarks@),
                profile::mark_views(self.bookmarks@) == with_marks(b, all.take(i as int), now),
                added == self.bookmarks@.len() - b.len(),
                added <= i,
                self.history == old(self).history,
            decreases new@.len() - i,
        {
            let ghost rest = profile::mark_views(self.bookmarks@);
            assert(all.take(i + 1).drop_last() =~= all.take(i as int));
            assert(all.take(i + 1).last() == all[i as int]);
            match profile::find_mark(&self.bookmarks, new[i].0.as_str()) {
                Some(_) => {},
                None => {
                    let mark: Bookmark = Bookmark {
                        url: new[i].0.clone(),
                        title: new[i].1.clone(),
                        updated: now,
                    };
                    let ghost mv = mark@;
                    self.bookmarks.push(mark);
                    assert(profile::mark_views(self.bookmarks@) =~= rest.push(mv));
                    added = added + 1;
                },
            }
            i = i + 1;
        }
        assert(all.take(new@.len() as int) =~= all);
        added
    }

    /// Adds history entries, each address once. Tells how many were new.
    fn add_visits(&mut self, new: &Vec<HistoryEntry>) -> (r: usize)
        ensures
            profile::visit_views(final(self).history@) == with_visits(
                profile::visit_views(old(self).history@),
                profile::visit_views(new@),
            ),
            r == final(self).history@.len() - old(self).history@.len(),
            final(self).bookmarks == old(self).bookmarks,
    {
        let ghost h = profile::visit_views(self.history@);
        let ghost all = profile::visit_views(new@);
        let mut added: usize = 0;
        let mut i: usize = 0;
        while i < new.len()
            invariant
                i <= new@.len(),
                all == profile::visit_views(new@),
                h == profile::visit_views(old(self).history@),
                profile::visit_views(self.history@) == with_visits(h, all.take(i as int)),
                added == self.history@.len() - h.len(),
                added <= i,
                self.bookmarks == old(self).bookmarks,
            decreases new@.len() - i,
        {
            let ghost rest = profile::visit_views(self.history@);
            assert(all.take(i + 1).drop_last() =~= all.take(i as int));
            assert(all.take(i + 1).last() == new@[i as int]@);
            match profile::find_visit(&self.history, new[i].url.as_str()) {
                Some(j) => {
                    let mut e: HistoryEntry = copy_entry(&self.history[j]);
                    if e.visits < new[i].visits {
                        e.visits = new[i].visits;
                    }
                    if e.title.as_str().is_empty() {
                        e.title = new[i].title.clone();
                    }
                    let ghost ev = e@;
                    self.history.set(j, e);
                    assert(profile::visit_views(self.history@) =~= rest.update(j as int, ev));
                },
                None => {
                    self.history.push(copy_entry(&new[i]));
                    assert(profile::visit_views(self.history@) =~= rest.push(new@[i as int]@));
                    added = added + 1;
                },
            }
            i = i + 1;
        }
        assert(all.take(new@.len() as int) =~= all);
        added
    }

    /// Takes over the bookmarks and the history of other browsers at the time `now`, and says
    /// what was new.
    pub fn import(
        &mut self,
        bookmarks: &Vec<(String, String)>,
        history: &Vec<HistoryEntry>,
        now: i64,
    ) -> (r: String)
        ensures
            profile::mark_views(final(self).bookmarks@) == with_marks(
                profile::mark_views(old(self).bookmarks@),
                crate::address::pair_texts(bookmarks@),
                now,
            ),
            profile::visit_views(final(self).history@) == bounded(
                with_visits(
                    profile::visit_views(old(self).history@),
                    profile::visit_views(history@),
                ),
                profile::MAX_IMPORTED as nat,
            ),
            r@ == import_report(
                (with_marks(
                    profile::mark_views(old(self).bookmarks@),
                    crate::address::pair_texts(bookmarks@),
                    now,
                ).len() - old(self).bookmarks@.len()) as nat,
                (with_visits(
                    profile::visit_views(old(self).history@),
                    profile::visit_views(history@),
                ).len() - old(self).history@.len()) as nat,
            ),
    {
        let marks: usize = self.add_marks(bookmarks, now);
        assert(profile::mark_views(self.bookmarks@).len() == self.bookmarks@.len());
        let visits: usize = self.add_visits(history);
        assert(profile::visit_views(self.history@).len() == self.history@.len());
        bound_history(&mut self.history, profile::MAX_IMPORTED);
        if marks > 0 || visits > 0 {
            let mut out: String = "Imported ".to_owned();
            out.append(number::decimal_string(marks as u64).as_str());
            out.append(" bookmark(s) + ");
            out.append(number::decimal_string(visits as u64).as_str());
            out.append(" history entr");
            if visits == 1 {
                out.append("y");
            } else {
                out.append("ies");
            }
            out.append(".");
            out
        } else {
            "No new bookmarks or history found (Chrome / Firefox / …).".to_owned()
        }
    }
}

// ---------------------------------------------------------------------------
// Sync
// ---------------------------------------------------------------------------

/// A bookmark as the sync service has it.
pub struct RemoteMark {
    pub url: String,
    pub title: String,
    pub updated: i64,
    pub deleted: bool,
}

/// A history entry as the sync service has it.
pub struct RemoteVisit {
    pub url: String,
    pub title: String,
    pub visits: u32,
    pub updated: i64,
    pub deleted: bool,
}

/// `RemoteMark` as mathematical values.
pub struct RemoteMarkView {
    pub mark: MarkView,
    pub deleted: bool,
}

/// `RemoteVisit` as mathematical values.
pub struct RemoteVisitView {
    pub visit: VisitView,
    pub deleted: bool,
}

impl View for RemoteMark {
    type V = RemoteMarkView;

    open spec fn view(&self) -> RemoteMarkView {
        RemoteMarkView {
            mark: MarkView { url: self.url@, title: self.title@, updated: self.updated },
            deleted: self.deleted,
        }
    }
}

impl View for RemoteVisit {
    type V = RemoteVisitView;

    open spec fn view(&self) -> RemoteVisitView {
        RemoteVisitView {
            visit: VisitView {
                url: self.url@,
                title: self.title@,
                visits: self.visits,
                updated: self.updated,
            },
            deleted: self.deleted,
        }
    }
}

pub open spec fn remote_marks(v: Seq<RemoteMark>) -> Seq<RemoteMarkView> {
    Seq::new(v.len(), |i: int| v[i]@)
}

pub open spec fn remote_visits(v: Seq<RemoteVisit>) -> Seq<RemoteVisitView> {
    Seq::new(v.len(), |i: int| v[i]@)
}

/// The bookmarks with one of the service's merged in: the one that changed last wins, a new one is
/// added, and one that is deleted there changes nothing here.
pub open spec fn with_remote_mark(b: Seq<MarkView>, r: RemoteMarkView) -> Seq<MarkView> {
    if r.deleted {
        b
    } else {
        match profile::mark_place(b, r.mark.url) {
            Some(i) => if b[i].updated < r.mark.updated {
                b.update(i, r.mark)
            } else {
                b
            },
            None => b.push(r.mark),
        }
    }
}

/// The history with one of the service's entries merged in: the one that changed last wins, but
/// the visit count never falls.
pub open spec fn with_remote_visit(h: Seq<VisitView>, r: RemoteVisitView) -> Seq<VisitView> {
    if r.deleted {
        h
    } else {
        match profile::visit_place(h, r.visit.url) {
            Some(i) => if h[i].updated < r.visit.updated {
                h.update(
                    i,
                    VisitView { visits: greater(h[i].visits, r.visit.visits), ..r.visit },
                )
            } else {
                h
            },
            None => h.push(r.visit),
        }
    }
}

pub open spec fn with_remote_marks(b: Seq<MarkView>, new: Seq<RemoteMarkView>) -> Seq<MarkView>
    decreases new.len(),
{
    if new.len() == 0 {
        b
    } else {
        with_remote_mark(with_remote_marks(b, new.drop_last()), new.last())
    }
}

pub open spec fn with_remote_visits(h: Seq<VisitView>, new: Seq<RemoteVisitView>) -> Seq<VisitView>
    decreases new.len(),
{
    if new.len() == 0 {
        h
    } else {
        with_remote_visit(with_remote_visits(h, new.drop_last()), new.last())
    }
}

/// Merging keeps every bookmark's place and address, and no bookmark becomes older.
pub proof fn merge_never_goes_back(b: Seq<MarkView>, new: Seq<RemoteMarkView>)
    ensures
        with_remote_marks(b, new).len() >= b.len(),
        forall|i: int|
            0 <= i < b.len() ==> with_remote_marks(b, new)[i].url == (#[trigger] b[i]).url
                && with_remote_marks(b, new)[i].updated >= b[i].updated,
    decreases new.len(),
{
    if new.len() > 0 {
        let rest = with_remote_marks(b, new.drop_last());
        merge_never_goes_back(b, new.drop_last());
        profile::lemma_mark_place(rest, new.last().mark.url);
    }
}

/// After a merge the bookmark of an address that the service has is at least as new as there.
pub proof fn merge_takes_the_latest(b: Seq<MarkView>, r: RemoteMarkView)
    requires
        !r.deleted,
    ensures
        profile::mark_place(with_remote_mark(b, r), r.mark.url) matches Some(i)
            && with_remote_mark(b, r)[i].updated >= r.mark.updated,
{
    let m = with_remote_mark(b, r);
    profile::lemma_mark_place(b, r.mark.url);
    profile::lemma_mark_place(m, r.mark.url);
    match profile::mark_place(b, r.mark.url) {
        Some(i) => {
            assert(m[i].url == r.mark.url);
            let j = profile::mark_place(m, r.mark.url).unwrap();
            assert(j == i) by {
                if j < i {
                    assert(b[j].url != r.mark.url);
                    assert(m[j] == b[j]);
                }
            }
        },
        None => {
            assert(m[b.len() as int].url == r.mark.url);
            let j = profile::mark_place(m, r.mark.url).unwrap();
            assert(j == b.len()) by {
                if j < b.len() {
                    assert(b[j].url != r.mark.url);
                    assert(m[j] == b[j]);
                }
            }
        },
    }
}

/// Merging the same bookmark twice changes nothing the second time.
pub proof fn merge_is_idempotent(b: Seq<MarkView>, r: RemoteMarkView)
    ensures
        with_remote_mark(with_remote_mark(b, r), r) == with_remote_mark(b, r),
{
    if !r.deleted {
        merge_takes_the_latest(b, r);
    }
}

/// Merging keeps every visited page's place and address; none becomes older, and no visit count
/// falls.
pub proof fn visits_never_go_back(h: Seq<VisitView>, new: Seq<RemoteVisitView>)
    ensures
        with_remote_visits(h, new).len() >= h.len(),
        forall|i: int|
            0 <= i < h.len() ==> with_remote_visits(h, new)[i].url == (#[trigger] h[i]).url
                && with_remote_visits(h, new)[i].updated >= h[i].updated
                && with_remote_visits(h, new)[i].visits >= h[i].visits,
    decreases new.len(),
{
    if new.len() > 0 {
        let rest = with_remote_visits(h, new.drop_last());
        visits_never_go_back(h, new.drop_last());
        profile::lemma_visit_place(rest, new.last().visit.url);
    }
}

/// Merging the same visited page twice changes nothing the second time.
pub proof fn visits_merge_once(h: Seq<VisitView>, r: RemoteVisitView)
    ensures
        with_remote_visit(with_remote_visit(h, r), r) == with_remote_visit(h, r),
{
    if !r.deleted {
        let url = r.visit.url;
        let m = with_remote_visit(h, r);
        profile::lemma_visit_place(h, url);
        profile::lemma_visit_place(m, url);
        let i = match profile::visit_place(h, url) {
            Some(i) => i,
            None => h.len() as int,
        };
        assert(m[i].url == url && m[i].updated >= r.visit.updated);
        let j = profile::visit_place(m, url).unwrap();
        assert(j == i) by {
            if j < i {
                assert(h[j].url != url);
                assert(m[j] == h[j]);
            }
        }
    }
}

/// A login of the service's: its encrypted form in hexadecimal.
pub struct RemotePassword {
    pub payload: String,
    pub deleted: bool,
}

/// What came back from the sync service.
pub struct SyncOutcome {
    pub ok: bool,
    pub message: String,
    pub bookmarks: Vec<RemoteMark>,
    pub history: Vec<RemoteVisit>,
    pub passwords: Vec<RemotePassword>,
    pub cursor_bookmarks: i64,
    pub cursor_history: i64,
    pub cursor_passwords: i64,
}

impl Profile {
    fn merge_marks(&mut self, new: &Vec<RemoteMark>)
        ensures
            profile::mark_views(final(self).bookmarks@) == with_remote_marks(
                profile::mark_views(old(self).bookmarks@),
                remote_marks(new@),
            ),
            final(self).history == old(self).history,
    {
        let ghost b = profile::mark_views(self.bookmarks@);
        let ghost all = remote_marks(new@);
        let mut i: usize = 0;
        while i < new.len()
            invariant
                i <= new@.len(),
                all == remote_marks(new@),
                profile::mark_views(self.bookmarks@) == with_remote_marks(b, all.take(i as int)),
                self.history == old(self).history,
            decreases new@.len() - i,
        {
            let ghost rest = profile::mark_views(self.bookmarks@);
            assert(all.take(i + 1).drop_last() =~= all.take(i as int));
            assert(all.take(i + 1).last() == new@[i as int]@);
            if !new[i].deleted {
                let mark: Bookmark = Bookmark {
                    url: new[i].url.clone(),
                    title: new[i].title.clone(),
                    updated: new[i].updated,
                };
                let ghost mv = mark@;
                match profile::find_mark(&self.bookmarks, new[i].url.as_str()) {
                    Some(j) => {
                        if self.bookmarks[j].updated < new[i].updated {
                            self.bookmarks.set(j, mark);
                            assert(profile::mark_views(self.bookmarks@) =~= rest.update(
                                j as int,
                                mv,
                            ));
                        }
                    },
                    None => {
                        self.bookmarks.push(mark);
                        assert(profile::mark_views(self.bookmarks@) =~= rest.push(mv));
                    },
                }
            }
            i = i + 1;
        }
        assert(all.take(new@.len() as int) =~= all);
    }

    fn merge_visits(&mut self, new: &Vec<RemoteVisit>)
        ensures
            profile::visit_views(final(self).history@) == with_remote_visits(
                profile::visit_views(old(self).history@),
                remote_visits(new@),
            ),
            final(self).bookmarks == old(self).bookmarks,
    {
        let ghost h = profile::visit_views(self.history@);
        let ghost all = remote_visits(new@);
        let mut i: usize = 0;
        while i < new.len()
            invariant
                i <= new@.len(),
                all == remote_visits(new@),
                profile::visit_views(self.history@) == with_remote_visits(h, all.take(i as int)),
                self.bookmarks == old(self).bookmarks,
            decreases new@.len() - i,
        {
            let ghost rest = profile::visit_views(self.history@);
            assert(all.take(i + 1).drop_last() =~= all.take(i as int));
            assert(all.take(i + 1).last() == new@[i as int]@);
            if !new[i].deleted {
                let mut e: HistoryEntry = HistoryEntry {
                    url: new[i].url.clone(),
                    title: new[i].title.clone(),
                    visits: new[i].visits,
                    updated: new[i].updated,
                };
                match profile::find_visit(&self.history, new[i].url.as_str()) {
                    Some(j) => {
                        if self.history[j].updated < new[i].updated {
                            if self.history[j].visits > e.visits {
                                e.visits = self.history[j].visits;
                            }
                            let ghost ev = e@;
                            self.history.set(j, e);
                            assert(profile::visit_views(self.history@) =~= rest.update(
                                j as int,
                                ev,
                            ));
                        }
                    },
                    None => {
                        let ghost ev = e@;
                        self.history.push(e);
                        assert(profile::visit_views(self.history@) =~= rest.push(ev));
                    },
                }
            }
            i = i + 1;
        }
        assert(all.take(new@.len() as int) =~= all);
    }

    /// Merges what came back from the sync service. Nothing changes where the sync has failed;
    /// then there are no cursors to keep either.
    pub fn apply_sync(&mut self, outcome: &SyncOutcome) -> (r: Option<Cursors>)
        ensures
            outcome.ok ==> {
                &&& profile::mark_views(final(self).bookmarks@) == with_remote_marks(
                    profile::mark_views(old(self).bookmarks@),
                    remote_marks(outcome.bookmarks@),
                )
                &&& profile::visit_views(final(self).history@) == with_remote_visits(
                    profile::visit_views(old(self).history@),
                    remote_visits(outcome.history@),
                )
                &&& r == Some(
                    Cursors {
                        bookmarks: outcome.cursor_bookmarks,
                        history: outcome.cursor_history,
                        passwords: outcome.cursor_passwords,
                    },
                )
            },
            !outcome.ok ==> *final(self) == *old(self) && r is None,
    {
        if !outcome.ok {
            return None;
        }
        self.merge_marks(&outcome.bookmarks);
        self.merge_visits(&outcome.history);
        Some(
            Cursors {
                bookmarks: outcome.cursor_bookmarks,
                history: outcome.cursor_history,
                passwords: outcome.cursor_passwords,
            },
        )
    }
}

// ---------------------------------------------------------------------------
// Cursors
// ---------------------------------------------------------------------------

/// How far each collection has been read from the sync service.
#[derive(Clone, Copy, Debug, PartialEq, Eq, Structural)]
pub struct Cursors {
    pub bookmarks: i64,
    pub history: i64,
    pub passwords: i64,
}

/// The cursors with one line of their file read.
pub open spec fn cursors_with(c: Cursors, line: Seq<char>) -> Cursors {
    match settings::key_value(line) {
        None => c,
        Some((k, v)) => {
            let n = profile::signed_or(v, 0) as i64;
            if k == "bookmarks"@ {
                Cursors { bookmarks: n, ..c }
            } else if k == "history"@ {
                Cursors { history: n, ..c }
            } else if k == "passwords"@ {
                Cursors { passwords: n, ..c }
            } else {
                c
            }
        },
    }
}

pub open spec fn read_cursors(lines: Seq<Seq<char>>) -> Cursors
    decreases lines.len(),
{
    if lines.len() == 0 {
        Cursors { bookmarks: 0, history: 0, passwords: 0 }
    } else {
        cursors_with(read_cursors(lines.drop_last()), lines.last())
    }
}

/// The file of the cursors.
pub open spec fn cursors_text(c: Cursors) -> Seq<char> {
    "bookmarks="@ + number::signed_decimal(c.bookmarks as int) + "\nhistory="@
        + number::signed_decimal(c.history as int) + "\npasswords="@ + number::signed_decimal(
        c.passwords as int,
    ) + "\n"@
}

/// Reads the cursors; what the file does not hold, and every cursor without a file, is zero.
pub fn load_sync_cursors(file: Option<&str>) -> (r: Cursors)
    ensures
        r == match file {
            Some(f) => read_cursors(text::lines_of(f@)),
            None => Cursors { bookmarks: 0, history: 0, passwords: 0 },
        },
{
    let mut c: Cursors = Cursors { bookmarks: 0, history: 0, passwords: 0 };
    let f: &str = match file {
        None => {
            return c;
        },
        Some(f) => f,
    };
    let lines: Vec<String> = text::lines(f);
    let ghost all = text::texts(lines@);
    let mut i: usize = 0;
    while i < lines.len()
        invariant
            i <= lines@.len(),
            all == text::texts(lines@),
            c == read_cursors(all.take(i as int)),
        decreases lines@.len() - i,
    {
        assert(all.take(i + 1).drop_last() =~= all.take(i as int));
        assert(all.take(i + 1).last() == lines@[i as int]@);
        match settings::split_key_value(lines[i].as_str()) {
            None => {},
            Some(p) => {
                let n: i64 = match number::parse_signed(p.1.as_str()) {
                    Some(n) => n,
                    None => 0,
                };
                if text::same(p.0.as_str(), "bookmarks") {
                    c = Cursors { bookmarks: n, history: c.history, passwords: c.passwords };
                } else if text::same(p.0.as_str(), "history") {
                    c = Cursors { bookmarks: c.bookmarks, history: n, passwords: c.passwords };
                } else if text::same(p.0.as_str(), "passwords") {
                    c = Cursors { bookmarks: c.bookmarks, history: c.history, passwords: n };
                }
            },
        }
        i = i + 1;
    }
    assert(all.take(lines@.len() as int) =~= all);
    c
}

/// Writes the file of the cursors.
pub fn save_sync_cursors(c: Cursors) -> (r: String)
    ensures
        r@ == cursors_text(c),
{
    let mut out: String = "bookmarks=".to_owned();
    out.append(number::signed_string(c.bookmarks).as_str());
    out.append("\nhistory=");
    out.append(number::signed_string(c.history).as_str());
    out.append("\npasswords=");
    out.append(number::signed_string(c.passwords).as_str());
    out.append("\n");
    out
}

proof fn lemma_cursor_line(k: Seq<char>, n: i64)
    requires
        !k.contains('='),
        !k.contains('\n'),
        k.len() > 0,
        !text::is_space(k[0]),
        !text::is_space(k.last()),
    ensures
        ({
            let l = k + seq!['='] + number::signed_decimal(n as int);
            &&& !l.contains('\n')
            &&& text::without_cr(l) == l
            &&& settings::key_value(l) == Some((k, number::signed_decimal(n as int)))
            &&& profile::signed_or(number::signed_decimal(n as int), 0) == n
        }),
{
    let d = number::signed_decimal(n as int);
    let l = k + seq!['='] + d;
    number::lemma_signed_decimal_chars(n as int);
    number::lemma_read_signed_decimal(n);
    text::lemma_trimmed_same(k);
    assert(number::is_digit(d[0]) || d[0] == '-');
    assert(number::is_digit(d[d.len() - 1]) || d[d.len() - 1] == '-');
    text::lemma_trimmed_same(d);
    assert(l.last() == d.last());
    assert forall|j: int| 0 <= j < l.len() implies l[j] != '\n' by {
        if j < k.len() {
            assert(l[j] == k[j]);
        } else if j > k.len() {
            assert(l[j] == d[j - k.len() - 1]);
        }
    }
    assert forall|j: int| 0 <= j < k.len() implies l[j] != '=' by {
        assert(l[j] == k[j]);
    }
    assert(l[k.len() as int] == '=');
    text::lemma_upto_is(l, '=', k.len() as int);
    assert(l.take(k.len() as int) =~= k);
    assert(l.skip(k.len() as int + 1) =~= d);
}

spec fn cursor_line(k: Seq<char>, n: i64) -> Seq<char> {
    k + seq!['='] + number::signed_decimal(n as int)
}

proof fn lemma_cursor_keys()
    ensures
        "bookmarks"@.len() == 9 && "bookmarks"@[0] == 'b',
        "history"@.len() == 7,
        "passwords"@.len() == 9 && "passwords"@[0] == 'p',
        forall|n: i64| #![auto]
            !cursor_line("bookmarks"@, n).contains('\n') && text::without_cr(
                cursor_line("bookmarks"@, n),
            ) == cursor_line("bookmarks"@, n) && settings::key_value(cursor_line("bookmarks"@, n))
                == Some(("bookmarks"@, number::signed_decimal(n as int))),
        forall|n: i64| #![auto]
            !cursor_line("history"@, n).contains('\n') && text::without_cr(
                cursor_line("history"@, n),
            ) == cursor_line("history"@, n) && settings::key_value(cursor_line("history"@, n))
                == Some(("history"@, number::signed_decimal(n as int))),
        forall|n: i64| #![auto]
            !cursor_line("passwords"@, n).contains('\n') && text::without_cr(
                cursor_line("passwords"@, n),
            ) == cursor_line("passwords"@, n) && settings::key_value(cursor_line("passwords"@, n))
                == Some(("passwords"@, number::signed_decimal(n as int))),
        forall|n: i64|
            #![auto]
            profile::signed_or(number::signed_decimal(n as int), 0) == n,
{
    reveal_strlit("bookmarks");
    reveal_strlit("history");
    reveal_strlit("passwords");
    assert forall|n: i64|
        #![auto]
        !cursor_line("bookmarks"@, n).contains('\n') && text::without_cr(
            cursor_line("bookmarks"@, n),
        ) == cursor_line("bookmarks"@, n) && settings::key_value(cursor_line("bookmarks"@, n))
            == Some(("bookmarks"@, number::signed_decimal(n as int))) by {
        lemma_cursor_line("bookmarks"@, n);
    }
    assert forall|n: i64|
        #![auto]
        !cursor_line("history"@, n).contains('\n') && text::without_cr(cursor_line("history"@, n))
            == cursor_line("history"@, n) && settings::key_value(cursor_line("history"@, n))
            == Some(("history"@, number::signed_decimal(n as int))) by {
        lemma_cursor_line("history"@, n);
    }
    assert forall|n: i64|
        #![auto]
        !cursor_line("passwords"@, n).contains('\n') && text::without_cr(
            cursor_line("passwords"@, n),
        ) == cursor_line("passwords"@, n) && settings::key_value(cursor_line("passwords"@, n))
            == Some(("passwords"@, number::signed_decimal(n as int))) by {
        lemma_cursor_line("passwords"@, n);
    }
    assert forall|n: i64|
        #![auto]
        profile::signed_or(number::signed_decimal(n as int), 0) == n by {
        number::lemma_read_signed_decimal(n);
    }
}

proof fn lemma_cursor_lines(c: Cursors)
    ensures
        text::lines_of(cursors_text(c)) == seq![
            cursor_line("bookmarks"@, c.bookmarks),
            cursor_line("history"@, c.history),
            cursor_line("passwords"@, c.passwords),
        ],
{
    lemma_cursor_keys();
    let l0 = cursor_line("bookmarks"@, c.bookmarks);
    let l1 = cursor_line("history"@, c.history);
    let l2 = cursor_line("passwords"@, c.passwords);
    let none = Seq::<char>::empty();
    let nl = seq!['\n'];
    assert(cursors_text(c) =~= l0 + nl + (l1 + nl + (l2 + nl + none))) by {
        reveal_strlit("bookmarks");
        reveal_strlit("history");
        reveal_strlit("passwords");
        reveal_strlit("bookmarks=");
        reveal_strlit("\nhistory=");
        reveal_strlit("\npasswords=");
        reveal_strlit("\n");
        assert("bookmarks="@ =~= "bookmarks"@ + seq!['=']);
        assert("\nhistory="@ =~= nl + ("history"@ + seq!['=']));
        assert("\npasswords="@ =~= nl + ("passwords"@ + seq!['=']));
        assert("\n"@ =~= nl);
        let b = number::signed_decimal(c.bookmarks as int);
        let h = number::signed_decimal(c.history as int);
        let p = number::signed_decimal(c.passwords as int);
        lemma_join_cursors(
            "bookmarks"@ + seq!['='],
            b,
            nl,
            "history"@ + seq!['='],
            h,
            "passwords"@ + seq!['='],
            p,
        );
    }
    text::lemma_first_line(l0, l1 + nl + (l2 + nl + none));
    text::lemma_first_line(l1, l2 + nl + none);
    text::lemma_first_line(l2, none);
    assert(text::lines_of(none) =~= Seq::<Seq<char>>::empty());
    assert(seq![l0] + (seq![l1] + (seq![l2] + Seq::<Seq<char>>::empty())) =~= seq![l0, l1, l2]);
}

proof fn lemma_join_cursors(
    a: Seq<char>,
    b: Seq<char>,
    nl: Seq<char>,
    c: Seq<char>,
    d: Seq<char>,
    e: Seq<char>,
    f: Seq<char>,
)
    ensures
        a + b + (nl + c) + d + (nl + e) + f + nl == (a + b) + nl + ((c + d) + nl + ((e + f) + nl
            + Seq::<char>::empty())),
{
    assert(a + b + (nl + c) + d + (nl + e) + f + nl =~= (a + b) + nl + ((c + d) + nl + ((e + f)
        + nl + Seq::<char>::empty())));
}

/// The file gives back the cursors that it was written from.
pub proof fn cursors_round_trip(c: Cursors)
    ensures
        read_cursors(text::lines_of(cursors_text(c))) == c,
{
    lemma_cursor_lines(c);
    lemma_cursor_keys();
    let l0 = cursor_line("bookmarks"@, c.bookmarks);
    let l1 = cursor_line("history"@, c.history);
    let l2 = cursor_line("passwords"@, c.passwords);
    let lines = seq![l0, l1, l2];
    assert(lines.drop_last() =~= seq![l0, l1]);
    assert(seq![l0, l1].drop_last() =~= seq![l0]);
    assert(seq![l0].drop_last() =~= Seq::<Seq<char>>::empty());
    assert(read_cursors(Seq::<Seq<char>>::empty()) == (Cursors {
        bookmarks: 0,
        history: 0,
        passwords: 0,
    }));
    assert(seq![l0].last() == l0);
    assert(seq![l0, l1].last() == l1);
    assert(lines.last() == l2);
    assert(read_cursors(seq![l0]) == (Cursors { bookmarks: c.bookmarks, history: 0, passwords: 0 }));
    assert(read_cursors(seq![l0, l1]) == (Cursors {
        bookmarks: c.bookmarks,
        history: c.history,
        passwords: 0,
    }));
}

// ---------------------------------------------------------------------------
// Starting a sync
// ---------------------------------------------------------------------------

/// What a request to sync comes to.
#[derive(Clone, Copy, Debug, PartialEq, Eq, Structural)]
pub enum SyncStart {
    /// A sync is under way.
    Busy,
    /// There is no key.
    NoKey,
    /// No collection is switched on.
    NoCollection,
    /// The sync begins with these collections. Passwords take part only while their store is
    /// unlocked.
    Go { bookmarks: bool, history: bool, passwords: bool },
}

/// What a request to sync comes to.
pub open spec fn sync_start(
    busy: bool,
    key: Seq<char>,
    bookmarks: bool,
    history: bool,
    passwords: bool,
    unlocked: bool,
) -> SyncStart {
    if busy {
        SyncStart::Busy
    } else if text::trimmed(key).len() == 0 {
        SyncStart::NoKey
    } else if !bookmarks && !history && !passwords {
        SyncStart::NoCollection
    } else {
        SyncStart::Go { bookmarks, history, passwords: passwords && unlocked }
    }
}

/// Decides what a request to sync comes to.
pub fn start_sync(
    busy: bool,
    key: &str,
    bookmarks: bool,
    history: bool,
    passwords: bool,
    unlocked: bool,
) -> (r: SyncStart)
    ensures
        r == sync_start(busy, key@, bookmarks, history, passwords, unlocked),
{
    if busy {
        SyncStart::Busy
    } else if text::trim(key).as_str().is_empty() {
        SyncStart::NoKey
    } else if !bookmarks && !history && !passwords {
        SyncStart::NoCollection
    } else {
        SyncStart::Go { bookmarks, history, passwords: passwords && unlocked }
    }
}

/// The status line for a request to sync; none where one is under way already.
pub open spec fn sync_status(s: SyncStart) -> Option<Seq<char>> {
    match s {
        SyncStart::Busy => None,
        SyncStart::NoKey => Some("Set a Lyku API key first."@),
        SyncStart::NoCollection => Some("Enable a collection to sync first."@),
        SyncStart::Go { .. } => Some("Syncing…"@),
    }
}

/// The status line for a request to sync.
pub fn sync_status_line(s: SyncStart) -> (r: Option<String>)
    ensures
        crate::address::optional_text(r) == sync_status(s),
{
    match s {
        SyncStart::Busy => None,
        SyncStart::NoKey => Some("Set a Lyku API key first.".to_owned()),
        SyncStart::NoCollection => Some("Enable a collection to sync first.".to_owned()),
        SyncStart::Go { .. } => Some("Syncing…".to_owned()),
    }
}

/// A saved login as it is sent: the origin and the user name, apart by the unit separator, and
/// the encrypted login in hexadecimal.
pub fn password_record(origin: &str, username: &str, blob: &[u8]) -> (r: (String, String))
    ensures
        r.0@ == origin@ + seq!['\u{1f}'] + username@,
        r.1@ == codec::hex_text(blob@),
{
    let mut id: String = origin.to_owned();
    id.push('\u{1f}');
    id.append(username);
    assert(id@ =~= origin@ + seq!['\u{1f}'] + username@);
    (id, codec::hex_encode(blob))
}

/// A saved login that was encrypted for sending, if that was possible.
pub struct SealedLogin {
    pub origin: String,
    pub username: String,
    pub blob: Option<Vec<u8>>,
    pub updated: i64,
}

/// A login as it is sent: its name, its encrypted form in hexadecimal, and when it changed.
pub type LoginRecord = (Seq<char>, Seq<char>, i64);

/// The logins as they are sent; one that could not be encrypted is left out.
pub open spec fn login_records(v: Seq<SealedLogin>) -> Seq<LoginRecord>
    decreases v.len(),
{
    if v.len() == 0 {
        Seq::empty()
    } else {
        let rest = login_records(v.drop_last());
        match v.last().blob {
            Some(b) => rest.push(
                (
                    v.last().origin@ + seq!['\u{1f}'] + v.last().username@,
                    codec::hex_text(b@),
                    v.last().updated,
                ),
            ),
            None => rest,
        }
    }
}

/// Records as mathematical values.
pub open spec fn record_views(v: Seq<(String, String, i64)>) -> Seq<LoginRecord> {
    Seq::new(v.len(), |i: int| (v[i].0@, v[i].1@, v[i].2))
}

fn write_records(v: &Vec<SealedLogin>) -> (r: Vec<(String, String, i64)>)
    ensures
        record_views(r@) == login_records(v@),
{
    let mut out: Vec<(String, String, i64)> = Vec::new();
    let mut i: usize = 0;
    assert(record_views(out@) =~= login_records(v@.take(0)));
    while i < v.len()
        invariant
            i <= v@.len(),
            record_views(out@) == login_records(v@.take(i as int)),
        decreases v@.len() - i,
    {
        let ghost before = record_views(out@);
        assert(v@.take(i + 1).drop_last() =~= v@.take(i as int));
        match &v[i].blob {
            Some(b) => {
                let (name, payload): (String, String) = password_record(
                    v[i].origin.as_str(),
                    v[i].username.as_str(),
                    b.as_slice(),
                );
                let ghost x = (name@, payload@, v@[i as int].updated);
                out.push((name, payload, v[i].updated));
                assert(record_views(out@) =~= before.push(x));
            },
            None => {},
        }
        i = i + 1;
    }
    assert(v@.take(v@.len() as int) =~= v@);
    out
}

/// What is handed to the sync service.
pub struct SyncSnapshot {
    pub api_key: String,
    pub sync_bookmarks: bool,
    pub sync_history: bool,
    pub sync_passwords: bool,
    pub passwords: Vec<(String, String, i64)>,
    pub bookmarks: Vec<Bookmark>,
    pub history: Vec<HistoryEntry>,
    pub cursors: Cursors,
}

fn copy_marks(b: &Vec<Bookmark>) -> (r: Vec<Bookmark>)
    ensures
        profile::mark_views(r@) == profile::mark_views(b@),
{
    let mut out: Vec<Bookmark> = Vec::new();
    let mut i: usize = 0;
    while i < b.len()
        invariant
            i <= b@.len(),
            out@.len() == i,
            forall|j: int| 0 <= j < i ==> (#[trigger] out@[j])@ == b@[j]@,
        decreases b@.len() - i,
    {
        out.push(
            Bookmark { url: b[i].url.clone(), title: b[i].title.clone(), updated: b[i].updated },
        );
        i = i + 1;
    }
    assert(profile::mark_views(out@) =~= profile::mark_views(b@));
    out
}

fn copy_history(h: &Vec<HistoryEntry>) -> (r: Vec<HistoryEntry>)
    ensures
        profile::visit_views(r@) == profile::visit_views(h@),
{
    let mut out: Vec<HistoryEntry> = Vec::new();
    let mut i: usize = 0;
    while i < h.len()
        invariant
            i <= h@.len(),
            out@.len() == i,
            forall|j: int| 0 <= j < i ==> (#[trigger] out@[j])@ == h@[j]@,
        decreases h@.len() - i,
    {
        out.push(copy_entry(&h[i]));
        i = i + 1;
    }
    assert(profile::visit_views(out@) =~= profile::visit_views(h@));
    out
}

impl Profile {
    /// What is handed to the sync service once a sync may start. Logins go along only encrypted,
    /// and only where they are synced and the store is unlocked; otherwise there is no login in it.
    pub fn snapshot(
        &self,
        key: &str,
        bookmarks: bool,
        history: bool,
        passwords: bool,
        sealed: &Vec<SealedLogin>,
        cursors: Cursors,
    ) -> (r: SyncSnapshot)
        ensures
            r.api_key@ == key@,
            r.sync_bookmarks == bookmarks,
            r.sync_history == history,
            r.sync_passwords == passwords,
            record_views(r.passwords@) == if passwords {
                login_records(sealed@)
            } else {
                Seq::empty()
            },
            profile::mark_views(r.bookmarks@) == profile::mark_views(self.bookmarks@),
            profile::visit_views(r.history@) == profile::visit_views(self.history@),
            r.cursors == cursors,
    {
        let records: Vec<(String, String, i64)> = if passwords {
            write_records(sealed)
        } else {
            let none: Vec<(String, String, i64)> = Vec::new();
            assert(record_views(none@) =~= Seq::<LoginRecord>::empty());
            none
        };
        SyncSnapshot {
            api_key: key.to_owned(),
            sync_bookmarks: bookmarks,
            sync_history: history,
            sync_passwords: passwords,
            passwords: records,
            bookmarks: copy_marks(&self.bookmarks),
            history: copy_history(&self.history),
            cursors,
        }
    }
}

/// The encrypted logins among the service's: those that are not deleted and are written in
/// hexadecimal.
pub open spec fn encrypted_logins(v: Seq<RemotePassword>) -> Seq<Seq<u8>>
    decreases v.len(),
{
    if v.len() == 0 {
        Seq::empty()
    } else {
        let rest = encrypted_logins(v.drop_last());
        if v.last().deleted {
            rest
        } else {
            match codec::read_hex(v.last().payload@) {
                Some(b) => rest.push(b),
                None => rest,
            }
        }
    }
}

/// Lists of bytes as mathematical values.
pub open spec fn byte_lists(v: Seq<Vec<u8>>) -> Seq<Seq<u8>> {
    Seq::new(v.len(), |i: int| v[i]@)
}

/// The encrypted logins that are to be opened and saved once a sync has ended: none while the store
/// is locked or where the sync failed.
pub fn logins_to_open(outcome: &SyncOutcome, unlocked: bool) -> (r: Vec<Vec<u8>>)
    ensures
        byte_lists(r@) == if outcome.ok && unlocked {
            encrypted_logins(outcome.passwords@)
        } else {
            Seq::empty()
        },
{
    let v: &Vec<RemotePassword> = &outcome.passwords;
    let mut out: Vec<Vec<u8>> = Vec::new();
    assert(byte_lists(out@) =~= Seq::<Seq<u8>>::empty());
    if !outcome.ok || !unlocked {
        return out;
    }
    let mut i: usize = 0;
    assert(byte_lists(out@) =~= encrypted_logins(v@.take(0)));
    while i < v.len()
        invariant
            i <= v@.len(),
            byte_lists(out@) == encrypted_logins(v@.take(i as int)),
        decreases v@.len() - i,
    {
        let ghost before = byte_lists(out@);
        assert(v@.take(i + 1).drop_last() =~= v@.take(i as int));
        if !v[i].deleted {
            match codec::hex_decode(v[i].payload.as_str()) {
                Some(b) => {
                    let ghost x = b@;
                    out.push(b);
                    assert(byte_lists(out@) =~= before.push(x));
                },
                None => {},
            }
        }
        i = i + 1;
    }
    assert(v@.take(v@.len() as int) =~= v@);
    out
}

/// The encrypted forms of the logins that could be encrypted.
pub open spec fn sealed_forms(v: Seq<SealedLogin>) -> Seq<Seq<u8>>
    decreases v.len(),
{
    if v.len() == 0 {
        Seq::empty()
    } else {
        match v.last().blob {
            Some(b) => sealed_forms(v.drop_last()).push(b@),
            None => sealed_forms(v.drop_last()),
        }
    }
}

/// Logins that were sent and come back undeleted are opened from the same bytes, in the same order.
pub proof fn sent_logins_come_back(v: Seq<SealedLogin>, w: Seq<RemotePassword>)
    requires
        w.len() == login_records(v).len(),
        forall|i: int|
            0 <= i < w.len() ==> !(#[trigger] w[i]).deleted && w[i].payload@ == login_records(v)[i].1,
    ensures
        encrypted_logins(w) == sealed_forms(v),
    decreases v.len(),
{
    if v.len() > 0 {
        match v.last().blob {
            Some(b) => {
                let rest = login_records(v.drop_last());
                assert(login_records(v).drop_last() =~= rest);
                assert(w.last() == w[w.len() - 1]);
                assert forall|i: int| 0 <= i < w.drop_last().len() implies !(
                #[trigger] w.drop_last()[i]).deleted && w.drop_last()[i].payload@ == rest[i].1 by {
                    assert(w.drop_last()[i] == w[i]);
                }
                sent_logins_come_back(v.drop_last(), w.drop_last());
                codec::hex_round_trip(b@);
            },
            None => {
                sent_logins_come_back(v.drop_last(), w);
            },
        }
    }
}

// ---------------------------------------------------------------------------
// Laws
// ---------------------------------------------------------------------------

/// The one that changed last wins, whole. A bookmark that the service has in a strictly newer form
/// is there afterwards in title as well as in time; one that is not newer there stays as it was in
/// every field, and so does every other bookmark.
pub proof fn the_newer_bookmark_wins(b: Seq<MarkView>, r: RemoteMarkView, i: int)
    requires
        !r.deleted,
        0 <= i < b.len(),
        b[i].url == r.mark.url,
        forall|j: int| 0 <= j < i ==> (#[trigger] b[j]).url != r.mark.url,
    ensures
        b[i].updated < r.mark.updated ==> with_remote_mark(b, r)[i].title == r.mark.title
            && with_remote_mark(b, r)[i].updated == r.mark.updated,
        with_remote_mark(b, r)[i].url == b[i].url,
        b[i].updated >= r.mark.updated ==> with_remote_mark(b, r)[i] == b[i],
        with_remote_mark(b, r).len() == b.len(),
        forall|j: int|
            0 <= j < b.len() && j != i ==> with_remote_mark(b, r)[j] == #[trigger] b[j],
{
    profile::lemma_mark_place(b, r.mark.url);
}

/// A bookmark that only the service has is added behind the others, as it is there; one that is
/// deleted there changes nothing.
pub proof fn new_bookmarks_arrive(b: Seq<MarkView>, r: RemoteMarkView)
    requires
        forall|j: int| 0 <= j < b.len() ==> (#[trigger] b[j]).url != r.mark.url,
    ensures
        !r.deleted ==> with_remote_mark(b, r).len() == b.len() + 1 && with_remote_mark(b, r).last()
            == r.mark && with_remote_mark(b, r).drop_last() == b,
        r.deleted ==> with_remote_mark(b, r) == b,
{
    profile::lemma_mark_place(b, r.mark.url);
    if !r.deleted {
        assert(with_remote_mark(b, r).drop_last() =~= b);
    }
}

/// What is deleted at the service stays here.
pub proof fn remote_deletions_change_nothing(b: Seq<MarkView>, h: Seq<VisitView>, r: RemoteMarkView, v: RemoteVisitView)
    ensures
        r.deleted ==> with_remote_mark(b, r) == b,
        v.deleted ==> with_remote_visit(h, v) == h,
{
}

/// Of the bookmarks of an address that came from the service this one changed last, and of those
/// that changed then it came first.
pub open spec fn is_latest_mark(new: Seq<RemoteMarkView>, k: int, url: Seq<char>) -> bool {
    &&& 0 <= k < new.len()
    &&& !new[k].deleted
    &&& new[k].mark.url == url
    &&& forall|j: int|
        0 <= j < new.len() && !(#[trigger] new[j]).deleted && new[j].mark.url == url
            ==> new[j].mark.updated <= new[k].mark.updated
    &&& forall|j: int|
        0 <= j < k && !(#[trigger] new[j]).deleted && new[j].mark.url == url
            ==> new[j].mark.updated < new[k].mark.updated
}

/// Whatever came from the service, in whatever order: the bookmark of an address is afterwards the
/// local one, where none that came is newer, and else the newest that came, in every field. Every
/// address that came is bookmarked.
pub proof fn the_latest_bookmark_wins(b: Seq<MarkView>, new: Seq<RemoteMarkView>, url: Seq<char>)
    ensures
        forall|i: int|
            0 <= i < with_remote_marks(b, new).len() && (#[trigger] with_remote_marks(b, new)[i]).url
                == url && (forall|j: int|
                0 <= j < i ==> (#[trigger] with_remote_marks(b, new)[j]).url != url) ==> {
                ||| i < b.len() && with_remote_marks(b, new)[i] == b[i] && forall|k: int|
                    0 <= k < new.len() && !(#[trigger] new[k]).deleted && new[k].mark.url == url
                        ==> new[k].mark.updated <= b[i].updated
                ||| exists|k: int| #[trigger]
                    is_latest_mark(new, k, url) && with_remote_marks(b, new)[i] == new[k].mark && (i
                        < b.len() ==> b[i].updated < new[k].mark.updated)
            },
        forall|k: int|
            0 <= k < new.len() && !(#[trigger] new[k]).deleted && new[k].mark.url == url
                ==> profile::mark_place(with_remote_marks(b, new), url) is Some,
    decreases new.len(),
{
    let m = with_remote_marks(b, new);
    profile::lemma_mark_place(m, url);
    if new.len() > 0 {
        let before = new.drop_last();
        let rest = with_remote_marks(b, before);
        let r = new.last();
        let n = new.len() - 1;
        the_latest_bookmark_wins(b, before, url);
        merge_never_goes_back(b, before);
        merge_never_goes_back(b, new);
        profile::lemma_mark_place(rest, url);
        profile::lemma_mark_place(rest, r.mark.url);
        assert(forall|k: int| 0 <= k < n ==> #[trigger] before[k] == new[k]);
        let taken = !r.deleted && r.mark.url == url;
        assert forall|k: int|
            0 <= k < new.len() && !(#[trigger] new[k]).deleted && new[k].mark.url
                == url implies profile::mark_place(m, url) is Some by {
            if k < n {
                assert(before[k] == new[k]);
                let p = profile::mark_place(rest, url).unwrap();
                assert(m[p].url == url);
            } else {
                match profile::mark_place(rest, url) {
                    Some(p) => assert(m[p].url == url),
                    None => assert(m[rest.len() as int].url == url),
                }
            }
        }
        assert forall|i: int|
            0 <= i < m.len() && (#[trigger] m[i]).url == url && (forall|j: int|
                0 <= j < i ==> (#[trigger] m[j]).url != url) implies {
            ||| i < b.len() && m[i] == b[i] && forall|k: int|
                0 <= k < new.len() && !(#[trigger] new[k]).deleted && new[k].mark.url == url
                    ==> new[k].mark.updated <= b[i].updated
            ||| exists|k: int| #[trigger]
                is_latest_mark(new, k, url) && m[i] == new[k].mark && (i < b.len() ==> b[i].updated
                    < new[k].mark.updated)
        } by {
            assert forall|j: int| 0 <= j < i && j < rest.len() implies (#[trigger] rest[j]).url
                != url by {
                assert(m[j].url != url);
            }
            let fresh = taken && (i >= rest.len() || rest[i].updated < r.mark.updated);
            if fresh {
                if i < rest.len() {
                    assert(rest[i].url == url);
                    assert(profile::mark_place(rest, url) == Some(i));
                }
                assert(m[i] == r.mark);
                assert forall|j: int|
                    0 <= j < n && !(#[trigger] new[j]).deleted && new[j].mark.url
                        == url implies new[j].mark.updated < r.mark.updated by {
                    assert(before[j] == new[j]);
                    assert(rest[i].url == url);
                }
                assert(is_latest_mark(new, n, url));
            } else {
                assert(i < rest.len());
                assert(rest[i] == m[i]);
                if !(i < b.len() && rest[i] == b[i] && forall|k: int|
                    0 <= k < before.len() && !(#[trigger] before[k]).deleted && before[k].mark.url
                        == url ==> before[k].mark.updated <= b[i].updated) {
                    let k = choose|k: int| #[trigger]
                        is_latest_mark(before, k, url) && rest[i] == before[k].mark && (i < b.len()
                            ==> b[i].updated < before[k].mark.updated);
                    assert(before[k] == new[k]);
                    assert forall|j: int|
                        0 <= j < new.len() && !(#[trigger] new[j]).deleted && new[j].mark.url
                            == url implies new[j].mark.updated <= new[k].mark.updated by {
                        if j < n {
                            assert(before[j] == new[j]);
                        }
                    }
                    assert forall|j: int|
                        0 <= j < k && !(#[trigger] new[j]).deleted && new[j].mark.url
                            == url implies new[j].mark.updated < new[k].mark.updated by {
                        assert(before[j] == new[j]);
                    }
                    assert(is_latest_mark(new, k, url));
                } else {
                    assert forall|k: int|
                        0 <= k < new.len() && !(#[trigger] new[k]).deleted && new[k].mark.url
                            == url implies new[k].mark.updated <= b[i].updated by {
                        if k < n {
                            assert(before[k] == new[k]);
                        }
                    }
                }
            }
        }
    }
}

/// The one that changed last wins, but visits are not lost. An entry that the service has in a
/// strictly newer form is there afterwards in title and in time, with the greater of the two visit
/// counts; one that is not newer there stays as it was, and so does every other entry.
pub proof fn the_newer_visit_wins(h: Seq<VisitView>, r: RemoteVisitView, i: int)
    requires
        !r.deleted,
        0 <= i < h.len(),
        h[i].url == r.visit.url,
        forall|j: int| 0 <= j < i ==> (#[trigger] h[j]).url != r.visit.url,
    ensures
        h[i].updated < r.visit.updated ==> with_remote_visit(h, r)[i].title == r.visit.title
            && with_remote_visit(h, r)[i].updated == r.visit.updated,
        h[i].updated < r.visit.updated && h[i].visits < r.visit.visits ==> with_remote_visit(h, r)[i].visits
            == r.visit.visits,
        h[i].visits >= r.visit.visits ==> with_remote_visit(h, r)[i].visits == h[i].visits,
        with_remote_visit(h, r)[i].url == h[i].url,
        h[i].updated >= r.visit.updated ==> with_remote_visit(h, r)[i] == h[i],
        with_remote_visit(h, r).len() == h.len(),
        forall|j: int|
            0 <= j < h.len() && j != i ==> with_remote_visit(h, r)[j] == #[trigger] h[j],
{
    profile::lemma_visit_place(h, r.visit.url);
}

/// An entry that only the service has is added behind the others, as it is there.
pub proof fn new_visits_arrive(h: Seq<VisitView>, r: RemoteVisitView)
    requires
        !r.deleted,
        forall|j: int| 0 <= j < h.len() ==> (#[trigger] h[j]).url != r.visit.url,
    ensures
        with_remote_visit(h, r).len() == h.len() + 1,
        with_remote_visit(h, r).last() == r.visit,
        with_remote_visit(h, r).drop_last() == h,
{
    profile::lemma_visit_place(h, r.visit.url);
    assert(with_remote_visit(h, r).drop_last() =~= h);
}
/// An entry of the history as it came from the service, except that it may count more visits.
pub open spec fn is_form_of(e: VisitView, r: VisitView) -> bool {
    e.url == r.url && e.title == r.title && e.updated == r.updated && e.visits >= r.visits
}

/// Of the visits of an address that came from the service this one changed last, and of those
/// that changed then it came first.
pub open spec fn is_latest_visit(new: Seq<RemoteVisitView>, k: int, url: Seq<char>) -> bool {
    &&& 0 <= k < new.len()
    &&& !new[k].deleted
    &&& new[k].visit.url == url
    &&& forall|j: int|
        0 <= j < new.len() && !(#[trigger] new[j]).deleted && new[j].visit.url == url
            ==> new[j].visit.updated <= new[k].visit.updated
    &&& forall|j: int|
        0 <= j < k && !(#[trigger] new[j]).deleted && new[j].visit.url == url
            ==> new[j].visit.updated < new[k].visit.updated
}

/// Whatever came from the service, in whatever order: the entry of an address is afterwards the
/// local one, where none that came is newer, and else the newest that came, with no fewer visits.
/// Every address that came is in the history.
pub proof fn the_latest_visit_wins(h: Seq<VisitView>, new: Seq<RemoteVisitView>, url: Seq<char>)
    ensures
        forall|i: int|
            0 <= i < with_remote_visits(h, new).len() && (#[trigger] with_remote_visits(h, new)[i]).url
                == url && (forall|j: int|
                0 <= j < i ==> (#[trigger] with_remote_visits(h, new)[j]).url != url) ==> {
                ||| i < h.len() && with_remote_visits(h, new)[i] == h[i] && forall|k: int|
                    0 <= k < new.len() && !(#[trigger] new[k]).deleted && new[k].visit.url == url
                        ==> new[k].visit.updated <= h[i].updated
                ||| exists|k: int| #[trigger]
                    is_latest_visit(new, k, url) && is_form_of(with_remote_visits(h, new)[i], new[k].visit) && (i
                        < h.len() ==> h[i].updated < new[k].visit.updated)
            },
        forall|k: int|
            0 <= k < new.len() && !(#[trigger] new[k]).deleted && new[k].visit.url == url
                ==> profile::visit_place(with_remote_visits(h, new), url) is Some,
    decreases new.len(),
{
    let m = with_remote_visits(h, new);
    profile::lemma_visit_place(m, url);
    if new.len() > 0 {
        let before = new.drop_last();
        let rest = with_remote_visits(h, before);
        let r = new.last();
        let n = new.len() - 1;
        the_latest_visit_wins(h, before, url);
        visits_never_go_back(h, before);
        visits_never_go_back(h, new);
        profile::lemma_visit_place(rest, url);
        profile::lemma_visit_place(rest, r.visit.url);
        assert(forall|k: int| 0 <= k < n ==> #[trigger] before[k] == new[k]);
        let taken = !r.deleted && r.visit.url == url;
        assert forall|k: int|
            0 <= k < new.len() && !(#[trigger] new[k]).deleted && new[k].visit.url
                == url implies profile::visit_place(m, url) is Some by {
            if k < n {
                assert(before[k] == new[k]);
                let p = profile::visit_place(rest, url).unwrap();
                assert(m[p].url == url);
            } else {
                match profile::visit_place(rest, url) {
                    Some(p) => assert(m[p].url == url),
                    None => assert(m[rest.len() as int].url == url),
                }
            }
        }
        assert forall|i: int|
            0 <= i < m.len() && (#[trigger] m[i]).url == url && (forall|j: int|
                0 <= j < i ==> (#[trigger] m[j]).url != url) implies {
            ||| i < h.len() && m[i] == h[i] && forall|k: int|
                0 <= k < new.len() && !(#[trigger] new[k]).deleted && new[k].visit.url == url
                    ==> new[k].visit.updated <= h[i].updated
            ||| exists|k: int| #[trigger]
                is_latest_visit(new, k, url) && is_form_of(m[i], new[k].visit) && (i < h.len() ==> h[i].updated
                    < new[k].visit.updated)
        } by {
            assert forall|j: int| 0 <= j < i && j < rest.len() implies (#[trigger] rest[j]).url
                != url by {
                assert(m[j].url != url);
            }
            let fresh = taken && (i >= rest.len() || rest[i].updated < r.visit.updated);
            if fresh {
                if i < rest.len() {
                    assert(rest[i].url == url);
                    assert(profile::visit_place(rest, url) == Some(i));
                }
                assert(is_form_of(m[i], r.visit));
                assert forall|j: int|
                    0 <= j < n && !(#[trigger] new[j]).deleted && new[j].visit.url
                        == url implies new[j].visit.updated < r.visit.updated by {
                    assert(before[j] == new[j]);
                    assert(rest[i].url == url);
                }
                assert(is_latest_visit(new, n, url));
            } else {
                assert(i < rest.len());
                assert(rest[i] == m[i]);
                if !(i < h.len() && rest[i] == h[i] && forall|k: int|
                    0 <= k < before.len() && !(#[trigger] before[k]).deleted && before[k].visit.url
                        == url ==> before[k].visit.updated <= h[i].updated) {
                    let k = choose|k: int| #[trigger]
                        is_latest_visit(before, k, url) && is_form_of(rest[i], before[k].visit) && (i < h.len()
                            ==> h[i].updated < before[k].visit.updated);
                    assert(before[k] == new[k]);
                    assert forall|j: int|
                        0 <= j < new.len() && !(#[trigger] new[j]).deleted && new[j].visit.url
                            == url implies new[j].visit.updated <= new[k].visit.updated by {
                        if j < n {
                            assert(before[j] == new[j]);
                        }
                    }
                    assert forall|j: int|
                        0 <= j < k && !(#[trigger] new[j]).deleted && new[j].visit.url
                            == url implies new[j].visit.updated < new[k].visit.updated by {
                        assert(before[j] == new[j]);
                    }
                    assert(is_latest_visit(new, k, url));
                } else {
                    assert forall|k: int|
                        0 <= k < new.len() && !(#[trigger] new[k]).deleted && new[k].visit.url
                            == url implies new[k].visit.updated <= h[i].updated by {
                        if k < n {
                            assert(before[k] == new[k]);
                        }
                    }
                }
            }
        }
    }
}

/// An import of one bookmark: an address that is bookmarked already keeps its bookmark as it is, and
/// another is added behind the others under its title and the time of the import.
pub proof fn imported_bookmarks_do_not_overwrite(
    b: Seq<MarkView>,
    new: Seq<(Seq<char>, Seq<char>)>,
    url: Seq<char>,
    title: Seq<char>,
    now: i64,
)
    ensures
        (exists|j: int|
            0 <= j < with_marks(b, new, now).len() && (#[trigger] with_marks(b, new, now)[j]).url
                == url) ==> with_marks(b, new.push((url, title)), now) == with_marks(b, new, now),
        (forall|j: int|
            0 <= j < with_marks(b, new, now).len() ==> (#[trigger] with_marks(b, new, now)[j]).url
                != url) ==> {
            let r = with_marks(b, new.push((url, title)), now);
            &&& r.len() == with_marks(b, new, now).len() + 1
            &&& r.drop_last() == with_marks(b, new, now)
            &&& r.last().url == url && r.last().title == title && r.last().updated == now
        },
        with_marks(b, Seq::empty(), now) == b,
{
    assert(new.push((url, title)).drop_last() =~= new);
    let rest = with_marks(b, new, now);
    profile::lemma_mark_place(rest, url);
    if profile::mark_place(rest, url) is None {
        assert(with_marks(b, new.push((url, title)), now).drop_last() =~= rest);
    }
}

/// An import of one visited page: an entry that is there keeps its address, its time and its title,
/// unless it has none, and takes the greater visit count; another page is added behind the others
/// as it is.
pub proof fn imported_visits_do_not_overwrite(h: Seq<VisitView>, new: Seq<VisitView>, e: VisitView)
    ensures
        with_visits(h, Seq::empty()) == h,
        forall|i: int|
            0 <= i < with_visits(h, new).len() && (#[trigger] with_visits(h, new)[i]).url == e.url && (
            forall|j: int| 0 <= j < i ==> (#[trigger] with_visits(h, new)[j]).url != e.url) ==> {
                let a = with_visits(h, new)[i];
                let r = with_visits(h, new.push(e))[i];
                &&& r.url == a.url && r.updated == a.updated
                &&& a.title.len() > 0 ==> r.title == a.title
                &&& a.title.len() == 0 ==> r.title == e.title
                &&& r.visits == a.visits || r.visits == e.visits
                &&& r.visits >= a.visits && r.visits >= e.visits
                &&& with_visits(h, new.push(e)).len() == with_visits(h, new).len()
                &&& forall|j: int|
                    0 <= j < with_visits(h, new).len() && j != i ==> #[trigger] with_visits(
                        h,
                        new.push(e),
                    )[j] == with_visits(h, new)[j]
            },
        (forall|j: int|
            0 <= j < with_visits(h, new).len() ==> (#[trigger] with_visits(h, new)[j]).url != e.url)
            ==> {
            &&& with_visits(h, new.push(e)).len() == with_visits(h, new).len() + 1
            &&& with_visits(h, new.push(e)).last() == e
            &&& with_visits(h, new.push(e)).drop_last() == with_visits(h, new)
        },
{
    assert(new.push(e).drop_last() =~= new);
    let rest = with_visits(h, new);
    profile::lemma_visit_place(rest, e.url);
    if profile::visit_place(rest, e.url) is None {
        assert(with_visits(h, new.push(e)).drop_last() =~= rest);
    }
}

/// A history over its limit loses the entries that changed first: what is left is as many as may be,
/// each an entry that was there, and none that was left out changed later. One within its limit is
/// left alone.
pub proof fn the_newest_history_is_kept(h: Seq<VisitView>, max: nat)
    ensures
        h.len() <= max ==> bounded(h, max) == h,
        h.len() > max ==> bounded(h, max).len() == max,
        forall|k: int| 0 <= k < bounded(h, max).len() ==> h.contains(#[trigger] bounded(h, max)[k]),
        forall|i: int, k: int|
            0 <= i < h.len() && !bounded(h, max).contains(#[trigger] h[i]) && 0 <= k < bounded(
                h,
                max,
            ).len() ==> (#[trigger] bounded(h, max)[k]).updated >= h[i].updated,
{
    let keys = times(h);
    ranking::ranking_is_stable(keys, keys.len());
    let order = ranking::ranking(keys);
    let r = bounded(h, max);
    assert forall|k: int| 0 <= k < r.len() implies h.contains(#[trigger] r[k]) by {
        if h.len() > max {
            assert(h[order[k]] == r[k]);
        }
    }
    assert forall|i: int, k: int|
        0 <= i < h.len() && !r.contains(#[trigger] h[i]) && 0 <= k < r.len() implies (
    #[trigger] r[k]).updated >= h[i].updated by {
        if h.len() > max {
            assert(order.contains(i));
            let a = choose|a: int| 0 <= a < order.len() && order[a] == i;
            if a < max {
                assert(r[a] == h[i]);
            }
            assert(ranking::precedes(keys, order[k], order[a]));
            assert(keys[i] == h[i].updated && keys[order[k]] == h[order[k]].updated);
        } else {
            assert(r[i] == h[i]);
        }
    }
}

/// Imported history comes with nothing lost and nothing made up, the entry that changed last first.
pub proof fn imported_history_is_newest_first(h: Seq<VisitView>)
    ensures
        newest_first(h).len() == h.len(),
        forall|i: int| 0 <= i < h.len() ==> newest_first(h).contains(#[trigger] h[i]),
        forall|k: int| 0 <= k < h.len() ==> h.contains(#[trigger] newest_first(h)[k]),
        forall|j: int, k: int|
            0 <= j < k < h.len() ==> (#[trigger] newest_first(h)[j]).updated >= (
            #[trigger] newest_first(h)[k]).updated,
{
    let keys = times(h);
    ranking::ranking_is_stable(keys, keys.len());
    let order = ranking::ranking(keys);
    let r = newest_first(h);
    assert forall|i: int| 0 <= i < h.len() implies r.contains(#[trigger] h[i]) by {
        assert(order.contains(i));
        let a = choose|a: int| 0 <= a < order.len() && order[a] == i;
        assert(r[a] == h[i]);
    }
    assert forall|k: int| 0 <= k < h.len() implies h.contains(#[trigger] r[k]) by {
        assert(h[order[k]] == r[k]);
    }
    assert forall|j: int, k: int| 0 <= j < k < h.len() implies (#[trigger] r[j]).updated >= (
    #[trigger] r[k]).updated by {
        assert(ranking::precedes(keys, order[j], order[k]));
        assert(keys[order[j]] == r[j].updated && keys[order[k]] == r[k].updated);
    }
}

/// Times of other browsers: Chromium counts microseconds from 1601, Firefox from 1970. A time that
/// is kept lies within a millisecond of the one that was given, and a later time is never kept as an
/// earlier one.
pub proof fn imported_times_are_kept(t: i64, u: i64)
    ensures
        t > 0 ==> -1000 < chrome_time(t) * 1000 - (t - 11_644_473_600_000_000) < 1000,
        t <= 0 ==> chrome_time(t) == 0,
        -1000 < firefox_time(t) * 1000 - t < 1000,
        t <= u ==> firefox_time(t) <= firefox_time(u),
        0 < t <= u ==> chrome_time(t) <= chrome_time(u),
{
}

/// A sync begins where none is under way, there is a key and some collection is switched on; then it
/// takes the collections that are, and passwords only from an unlocked store.
pub proof fn a_sync_takes_what_is_switched_on(
    key: Seq<char>,
    bookmarks: bool,
    history: bool,
    passwords: bool,
    unlocked: bool,
)
    ensures
        text::trimmed(key).len() > 0 && (bookmarks || history || passwords) ==> (sync_start(
            false,
            key,
            bookmarks,
            history,
            passwords,
            unlocked,
        ) matches SyncStart::Go { bookmarks: b, history: h, passwords: p } && b == bookmarks && h
            == history && p == (passwords && unlocked)),
        text::trimmed(key).len() == 0 ==> sync_start(
            false,
            key,
            bookmarks,
            history,
            passwords,
            unlocked,
        ) == SyncStart::NoKey,
        text::trimmed(key).len() > 0 ==> sync_start(false, key, false, false, false, unlocked)
            == SyncStart::NoCollection,
        sync_start(true, key, bookmarks, history, passwords, unlocked) == SyncStart::Busy,
{
}

/// Every login that could be encrypted is sent, under its origin and user name, encrypted, with its
/// time; one that could not is not.
pub proof fn encrypted_logins_are_sent(v: Seq<SealedLogin>, x: SealedLogin)
    ensures
        x.blob matches Some(b) ==> login_records(v.push(x)) == login_records(v).push(
            (x.origin@ + seq!['\u{1f}'] + x.username@, codec::hex_text(b@), x.updated),
        ),
        x.blob is None ==> login_records(v.push(x)) == login_records(v),
        login_records(Seq::empty()).len() == 0,
{
    assert(v.push(x).drop_last() =~= v);
}

/// Every login that comes from the service undeleted and can be read is opened, in order; one that is
/// deleted there, or that cannot be read, is not.
pub proof fn received_logins_are_opened(v: Seq<RemotePassword>, x: RemotePassword, b: Seq<u8>)
    ensures
        !x.deleted && x.payload@ == codec::hex_text(b) ==> encrypted_logins(v.push(x))
            == encrypted_logins(v).push(b),
        x.deleted ==> encrypted_logins(v.push(x)) == encrypted_logins(v),
        !x.deleted && codec::read_hex(x.payload@) is None ==> encrypted_logins(v.push(x))
            == encrypted_logins(v),
{
    assert(v.push(x).drop_last() =~= v);
    codec::hex_round_trip(b);
}

/// The count that other browsers keep is taken as it is where it fits.
pub proof fn imported_counts_are_kept(n: i64)
    ensures
        0 <= n <= u32::MAX ==> visit_count(n) == n,
        n < 0 ==> visit_count(n) == 0,
{
}

} // verus!

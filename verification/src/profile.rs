//! The browsing profile: history and bookmarks, how they are kept, and how visits, imports and
//! the user change them.

use vstd::prelude::*;
use vstd::string::*;

use crate::address;
use crate::codec;
use crate::number;
use crate::ranking;
use crate::text;
use crate::unicode;

verus! {

/// How many history entries a visit leaves.
pub const MAX_HISTORY: usize = 2000;

/// How many history entries an import leaves.
pub const MAX_IMPORTED: usize = 3000;

/// How many suggestions the address bar offers.
pub const MAX_SUGGESTIONS: usize = 6;

/// One visited page.
pub struct HistoryEntry {
    pub url: String,
    pub title: String,
    pub visits: u32,
    /// When it last changed, in milliseconds since 1970; 0 where that is not known.
    pub updated: i64,
}

pub struct Bookmark {
    pub url: String,
    pub title: String,
    /// When it last changed, in milliseconds since 1970.
    pub updated: i64,
}

/// The history and the bookmarks.
pub struct Profile {
    pub history: Vec<HistoryEntry>,
    pub bookmarks: Vec<Bookmark>,
}

/// `HistoryEntry` as mathematical values.
#[verifier::ext_equal]
pub struct VisitView {
    pub url: Seq<char>,
    pub title: Seq<char>,
    pub visits: u32,
    pub updated: i64,
}

/// `Bookmark` as mathematical values.
#[verifier::ext_equal]
pub struct MarkView {
    pub url: Seq<char>,
    pub title: Seq<char>,
    pub updated: i64,
}

impl View for HistoryEntry {
    type V = VisitView;

    open spec fn view(&self) -> VisitView {
        VisitView {
            url: self.url@,
            title: self.title@,
            visits: self.visits,
            updated: self.updated,
        }
    }
}

impl View for Bookmark {
    type V = MarkView;

    open spec fn view(&self) -> MarkView {
        MarkView { url: self.url@, title: self.title@, updated: self.updated }
    }
}

pub open spec fn visit_views(v: Seq<HistoryEntry>) -> Seq<VisitView> {
    Seq::new(v.len(), |i: int| v[i]@)
}

pub open spec fn mark_views(v: Seq<Bookmark>) -> Seq<MarkView> {
    Seq::new(v.len(), |i: int| v[i]@)
}

/// The place of the first entry with this address.
pub open spec fn visit_place(h: Seq<VisitView>, url: Seq<char>) -> Option<int>
    decreases h.len(),
{
    if h.len() == 0 {
        None
    } else {
        match visit_place(h.drop_last(), url) {
            Some(i) => Some(i),
            None => if h.last().url == url {
                Some(h.len() - 1)
            } else {
                None
            },
        }
    }
}

/// The place of the first bookmark with this address.
pub open spec fn mark_place(b: Seq<MarkView>, url: Seq<char>) -> Option<int>
    decreases b.len(),
{
    if b.len() == 0 {
        None
    } else {
        match mark_place(b.drop_last(), url) {
            Some(i) => Some(i),
            None => if b.last().url == url {
                Some(b.len() - 1)
            } else {
                None
            },
        }
    }
}

pub proof fn lemma_visit_place(h: Seq<VisitView>, url: Seq<char>)
    ensures
        visit_place(h, url) matches Some(i) ==> 0 <= i < h.len() && h[i].url == url && forall|j: int|
            0 <= j < i ==> (#[trigger] h[j]).url != url,
        visit_place(h, url) is None ==> forall|j: int|
            0 <= j < h.len() ==> (#[trigger] h[j]).url != url,
    decreases h.len(),
{
    if h.len() > 0 {
        lemma_visit_place(h.drop_last(), url);
        assert forall|j: int| 0 <= j < h.len() - 1 implies h.drop_last()[j] == h[j] by {}
    }
}

pub proof fn lemma_mark_place(b: Seq<MarkView>, url: Seq<char>)
    ensures
        mark_place(b, url) matches Some(i) ==> 0 <= i < b.len() && b[i].url == url && forall|j: int|
            0 <= j < i ==> (#[trigger] b[j]).url != url,
        mark_place(b, url) is None ==> forall|j: int|
            0 <= j < b.len() ==> (#[trigger] b[j]).url != url,
    decreases b.len(),
{
    if b.len() > 0 {
        lemma_mark_place(b.drop_last(), url);
        assert forall|j: int| 0 <= j < b.len() - 1 implies b.drop_last()[j] == b[j] by {}
    }
}

/// The place of the first entry with this address.
pub fn find_visit(h: &Vec<HistoryEntry>, url: &str) -> (r: Option<usize>)
    ensures
        match r {
            Some(i) => visit_place(visit_views(h@), url@) == Some(i as int) && i < h@.len(),
            None => visit_place(visit_views(h@), url@) is None,
        },
{
    let ghost all = visit_views(h@);
    let mut i: usize = 0;
    proof {
        lemma_visit_place(all, url@);
    }
    while i < h.len()
        invariant
            i <= h@.len(),
            all == visit_views(h@),
            forall|j: int| 0 <= j < i ==> (#[trigger] all[j]).url != url@,
        decreases h@.len() - i,
    {
        if text::same(h[i].url.as_str(), url) {
            assert(all[i as int].url == url@);
            proof {
                lemma_visit_place(all, url@);
            }
            return Some(i);
        }
        assert(all[i as int].url != url@);
        i = i + 1;
    }
    None
}

/// The place of the first bookmark with this address.
pub fn find_mark(b: &Vec<Bookmark>, url: &str) -> (r: Option<usize>)
    ensures
        match r {
            Some(i) => mark_place(mark_views(b@), url@) == Some(i as int) && i < b@.len(),
            None => mark_place(mark_views(b@), url@) is None,
        },
{
    let ghost all = mark_views(b@);
    let mut i: usize = 0;
    proof {
        lemma_mark_place(all, url@);
    }
    while i < b.len()
        invariant
            i <= b@.len(),
            all == mark_views(b@),
            forall|j: int| 0 <= j < i ==> (#[trigger] all[j]).url != url@,
        decreases b@.len() - i,
    {
        if text::same(b[i].url.as_str(), url) {
            assert(all[i as int].url == url@);
            proof {
                lemma_mark_place(all, url@);
            }
            return Some(i);
        }
        assert(all[i as int].url != url@);
        i = i + 1;
    }
    None
}

// ---------------------------------------------------------------------------
// Visits
// ---------------------------------------------------------------------------

/// An address that the history does not keep: an empty one, or one of the browser's own pages, a
/// blank page, inline data or a file.
pub open spec fn is_private(url: Seq<char>) -> bool {
    ||| url.len() == 0
    ||| "gator:"@.is_prefix_of(url)
    ||| "about:"@.is_prefix_of(url)
    ||| "data:"@.is_prefix_of(url)
    ||| "file:"@.is_prefix_of(url)
}

/// The last entries of the history, no more than `max`.
pub open spec fn latest(h: Seq<VisitView>, max: nat) -> Seq<VisitView> {
    if h.len() > max {
        h.skip(h.len() - max)
    } else {
        h
    }
}

/// The history after a visit: one more visit of an entry that is there, under its new title if it
/// has one, or else a new entry, the oldest making room where there are too many.
pub open spec fn visited(
    h: Seq<VisitView>,
    url: Seq<char>,
    title: Seq<char>,
    now: i64,
) -> Seq<VisitView> {
    if is_private(url) {
        h
    } else {
        match visit_place(h, url) {
            Some(i) => h.update(
                i,
                VisitView {
                    url: h[i].url,
                    title: if title.len() > 0 {
                        title
                    } else {
                        h[i].title
                    },
                    visits: (h[i].visits + 1) as u32,
                    updated: now,
                },
            ),
            None => latest(
                h.push(VisitView { url, title, visits: 1, updated: now }),
                MAX_HISTORY as nat,
            ),
        }
    }
}

/// No address stands in the history twice.
pub open spec fn no_repeats(h: Seq<VisitView>) -> bool {
    forall|i: int, j: int|
        0 <= i < j < h.len() ==> (#[trigger] h[i]).url != (#[trigger] h[j]).url
}

/// A visit leaves a history without repeats without repeats, adds no more than one entry, and the
/// visited page is in it.
pub proof fn visit_keeps_the_history(
    h: Seq<VisitView>,
    url: Seq<char>,
    title: Seq<char>,
    now: i64,
)
    requires
        no_repeats(h),
    ensures
        no_repeats(visited(h, url, title, now)),
        visited(h, url, title, now).len() <= h.len() + 1,
        h.len() <= MAX_HISTORY ==> visited(h, url, title, now).len() <= MAX_HISTORY,
        !is_private(url) ==> visit_place(visited(h, url, title, now), url) is Some,
{
    lemma_visit_place(h, url);
    let r = visited(h, url, title, now);
    lemma_visit_place(r, url);
    if !is_private(url) {
        match visit_place(h, url) {
            Some(i) => {
                assert(r[i].url == url);
            },
            None => {
                assert(r[r.len() - 1].url == url);
                let all = h.push(VisitView { url, title, visits: 1, updated: now });
                assert(no_repeats(all));
                assert forall|i: int, j: int| 0 <= i < j < r.len() implies (#[trigger] r[i]).url != (
                #[trigger] r[j]).url by {
                    let k = all.len() - r.len();
                    assert(r[i] == all[i + k] && r[j] == all[j + k]);
                }
            },
        }
    }
}

fn private_address(url: &str) -> (r: bool)
    ensures
        r == is_private(url@),
{
    url.is_empty() || text::starts_with(url, "gator:") || text::starts_with(url, "about:")
        || text::starts_with(url, "data:") || text::starts_with(url, "file:")
}

/// Takes entries off the front until no more than `max` are left.
fn keep_latest(h: &mut Vec<HistoryEntry>, max: usize)
    ensures
        visit_views(final(h)@) == latest(visit_views(old(h)@), max as nat),
{
    let ghost all = visit_views(h@);
    let ghost mut k: int = 0;
    assert(all.skip(0) =~= all);
    while h.len() > max
        invariant
            0 <= k <= all.len(),
            k == 0 || all.len() - k >= max,
            visit_views(h@) == all.skip(k),
        decreases h@.len(),
    {
        let ghost before = h@;
        let gone: HistoryEntry = h.remove(0);
        proof {
            assert(visit_views(before).len() == before.len());
            assert(visit_views(h@) =~= visit_views(before).skip(1));
            assert(all.skip(k).skip(1) =~= all.skip(k + 1));
            k = k + 1;
        }
    }
    assert(visit_views(h@).len() == h@.len());
}

impl Profile {
    /// A profile without history and bookmarks.
    pub fn new() -> (r: Profile)
        ensures
            r.history@.len() == 0,
            r.bookmarks@.len() == 0,
    {
        Profile { history: Vec::new(), bookmarks: Vec::new() }
    }

    /// Records a visit at the time `now`.
    pub fn record_visit(&mut self, url: &str, title: &str, now: i64)
        requires
            is_private(url@) || (visit_place(visit_views(old(self).history@), url@) matches Some(i)
                ==> visit_views(old(self).history@)[i].visits < u32::MAX),
        ensures
            visit_views(final(self).history@) == visited(
                visit_views(old(self).history@),
                url@,
                title@,
                now,
            ),
            final(self).bookmarks == old(self).bookmarks,
    {
        if private_address(url) {
            return;
        }
        let ghost h = visit_views(self.history@);
        match find_visit(&self.history, url) {
            Some(i) => {
                let e: &HistoryEntry = &self.history[i];
                let t: String = if title.is_empty() {
                    e.title.clone()
                } else {
                    title.to_owned()
                };
                let entry: HistoryEntry = HistoryEntry {
                    url: e.url.clone(),
                    title: t,
                    visits: e.visits + 1,
                    updated: now,
                };
                let ghost ev = entry@;
                self.history.set(i, entry);
                assert(visit_views(self.history@) =~= h.update(i as int, ev));
            },
            None => {
                let entry: HistoryEntry = HistoryEntry {
                    url: url.to_owned(),
                    title: title.to_owned(),
                    visits: 1,
                    updated: now,
                };
                let ghost ev = entry@;
                self.history.push(entry);
                assert(visit_views(self.history@) =~= h.push(ev));
                keep_latest(&mut self.history, MAX_HISTORY);
            },
        }
    }

    /// Bookmarks a page at the time `now`, or takes its bookmark off.
    pub fn toggle_bookmark(&mut self, url: &str, title: &str, now: i64)
        ensures
            mark_views(final(self).bookmarks@) == toggled(
                mark_views(old(self).bookmarks@),
                url@,
                title@,
                now,
            ),
            final(self).history == old(self).history,
    {
        if url.is_empty() {
            return;
        }
        let ghost b = mark_views(self.bookmarks@);
        match find_mark(&self.bookmarks, url) {
            Some(i) => {
                let gone: Bookmark = self.bookmarks.remove(i);
                assert(mark_views(self.bookmarks@) =~= b.remove(i as int));
            },
            None => {
                let mark: Bookmark = Bookmark {
                    url: url.to_owned(),
                    title: title.to_owned(),
                    updated: now,
                };
                let ghost mv = mark@;
                self.bookmarks.push(mark);
                assert(mark_views(self.bookmarks@) =~= b.push(mv));
            },
        }
    }
}

/// The bookmarks with a page's bookmark put in or taken off.
pub open spec fn toggled(
    b: Seq<MarkView>,
    url: Seq<char>,
    title: Seq<char>,
    now: i64,
) -> Seq<MarkView> {
    if url.len() == 0 {
        b
    } else {
        match mark_place(b, url) {
            Some(i) => b.remove(i),
            None => b.push(MarkView { url, title, updated: now }),
        }
    }
}

/// A page that was not bookmarked is not bookmarked again after two toggles: the bookmarks are
/// what they were.
pub proof fn toggle_twice(b: Seq<MarkView>, url: Seq<char>, title: Seq<char>, t1: i64, t2: i64)
    requires
        mark_place(b, url) is None,
    ensures
        toggled(toggled(b, url, title, t1), url, title, t2) == b,
{
    if url.len() > 0 {
        let m = b.push(MarkView { url, title, updated: t1 });
        lemma_mark_place(b, url);
        lemma_mark_place(m, url);
        assert(m[b.len() as int].url == url);
        let i = mark_place(m, url).unwrap();
        assert(i == b.len()) by {
            if i < b.len() {
                assert(b[i].url != url);
            }
        }
        assert(m.remove(i) =~= b);
    }
}

// ---------------------------------------------------------------------------
// Suggestions
// ---------------------------------------------------------------------------

/// The entries whose address or title holds the query, whatever the case of the letters.
pub open spec fn matching(h: Seq<VisitView>, query: Seq<char>) -> Seq<VisitView>
    decreases h.len(),
{
    if h.len() == 0 {
        Seq::empty()
    } else {
        let rest = matching(h.drop_last(), query);
        let q = unicode::lowercase(query);
        if text::has(unicode::lowercase(h.last().url), q) || text::has(
            unicode::lowercase(h.last().title),
            q,
        ) {
            rest.push(h.last())
        } else {
            rest
        }
    }
}

pub open spec fn visit_counts(h: Seq<VisitView>) -> Seq<int> {
    Seq::new(h.len(), |i: int| h[i].visits as int)
}

/// The first `max` entries from the most visited to the least.
pub open spec fn most_visited(h: Seq<VisitView>, max: nat) -> Seq<VisitView> {
    let order = ranking::ranking(visit_counts(h));
    Seq::new(
        if h.len() < max {
            h.len()
        } else {
            max
        },
        |k: int| h[order[k]],
    )
}

/// Addresses and titles.
pub open spec fn url_titles(h: Seq<VisitView>) -> Seq<(Seq<char>, Seq<char>)> {
    Seq::new(h.len(), |i: int| (h[i].url, h[i].title))
}

/// What the address bar suggests for a query.
pub open spec fn suggested(h: Seq<VisitView>, query: Seq<char>) -> Seq<(Seq<char>, Seq<char>)> {
    url_titles(most_visited(matching(h, query), MAX_SUGGESTIONS as nat))
}

fn copy_visit(e: &HistoryEntry) -> (r: HistoryEntry)
    ensures
        r@ == e@,
{
    HistoryEntry {
        url: e.url.clone(),
        title: e.title.clone(),
        visits: e.visits,
        updated: e.updated,
    }
}

/// The visit counts of some entries.
pub fn counts_of(h: &Vec<HistoryEntry>) -> (r: Vec<i64>)
    ensures
        ranking::ints(r@) == visit_counts(visit_views(h@)),
        r@.len() == h@.len(),
{
    let mut out: Vec<i64> = Vec::new();
    let mut i: usize = 0;
    while i < h.len()
        invariant
            i <= h@.len(),
            out@.len() == i,
            forall|j: int| 0 <= j < i ==> out@[j] == h@[j].visits,
        decreases h@.len() - i,
    {
        out.push(h[i].visits as i64);
        i = i + 1;
    }
    assert(ranking::ints(out@) =~= visit_counts(visit_views(h@)));
    out
}

/// History-backed suggestions: address and title of the most visited entries that hold the query.
pub fn suggestions(history: &Vec<HistoryEntry>, query: &str) -> (r: Vec<(String, String)>)
    ensures
        address::pair_texts(r@) == suggested(visit_views(history@), query@),
{
    let q: String = unicode::to_lowercase(query);
    let ghost all = visit_views(history@);
    let mut found: Vec<HistoryEntry> = Vec::new();
    let mut i: usize = 0;
    assert(visit_views(found@) =~= matching(all.take(0), query@));
    while i < history.len()
        invariant
            i <= history@.len(),
            all == visit_views(history@),
            q@ == unicode::lowercase(query@),
            visit_views(found@) == matching(all.take(i as int), query@),
        decreases history@.len() - i,
    {
        let ghost before = visit_views(found@);
        assert(all.take(i + 1).drop_last() =~= all.take(i as int));
        assert(all.take(i + 1).last() == history@[i as int]@);
        if text::contains(
            unicode::to_lowercase(history[i].url.as_str()).as_str(),
            q.as_str(),
        ) || text::contains(
            unicode::to_lowercase(history[i].title.as_str()).as_str(),
            q.as_str(),
        ) {
            found.push(copy_visit(&history[i]));
            assert(visit_views(found@) =~= before.push(history@[i as int]@));
        }
        i = i + 1;
    }
    assert(all.take(history@.len() as int) =~= all);
    let order: Vec<usize> = ranking::rank(&counts_of(&found));
    let ghost m = visit_views(found@);
    let ghost want = suggested(all, query@);
    let mut out: Vec<(String, String)> = Vec::new();
    let mut k: usize = 0;
    while k < order.len() && k < MAX_SUGGESTIONS
        invariant
            k <= order@.len(),
            k <= MAX_SUGGESTIONS,
            order@.len() == found@.len(),
            m == visit_views(found@),
            ranking::places(order@) == ranking::ranking(visit_counts(m)),
            want == url_titles(most_visited(m, MAX_SUGGESTIONS as nat)),
            forall|j: int| 0 <= j < order@.len() ==> (#[trigger] order@[j]) < found@.len(),
            address::pair_texts(out@) == want.take(k as int),
        decreases order@.len() - k,
    {
        let ghost before = address::pair_texts(out@);
        let e: &HistoryEntry = &found[order[k]];
        assert(ranking::places(order@)[k as int] == order@[k as int]);
        out.push((e.url.clone(), e.title.clone()));
        assert(want[k as int] == (e.url@, e.title@));
        assert(address::pair_texts(out@) =~= before.push((e.url@, e.title@)));
        assert(want.take(k + 1) =~= want.take(k as int).push(want[k as int]));
        k = k + 1;
    }
    assert(want.take(k as int) =~= want);
    out
}

// ---------------------------------------------------------------------------
// The files
// ---------------------------------------------------------------------------

/// One history line: address, title, visits and time, in cells.
pub open spec fn visit_line(e: VisitView) -> Seq<char> {
    codec::cell(e.url) + seq!['\t'] + codec::cell(e.title) + seq!['\t'] + number::decimal(
        e.visits as nat,
    ) + seq!['\t'] + number::signed_decimal(e.updated as int)
}

/// One bookmark line: address, title and time, in cells.
pub open spec fn mark_line(b: MarkView) -> Seq<char> {
    codec::cell(b.url) + seq!['\t'] + codec::cell(b.title) + seq!['\t'] + number::signed_decimal(
        b.updated as int,
    )
}

/// The history file.
pub open spec fn history_text(h: Seq<VisitView>) -> Seq<char> {
    text::strung(Seq::new(h.len(), |i: int| visit_line(h[i]) + seq!['\n']))
}

/// The bookmarks file.
pub open spec fn bookmarks_text(b: Seq<MarkView>) -> Seq<char> {
    text::strung(Seq::new(b.len(), |i: int| mark_line(b[i]) + seq!['\n']))
}

/// The number that a cell holds, or the given one.
pub open spec fn signed_or(s: Seq<char>, or: int) -> int {
    match number::read_signed(s) {
        Some(n) => n,
        None => or,
    }
}

/// The entry that a history line holds: at least three cells. A visit count that is none counts
/// as one visit, a time that is missing or none as unknown.
pub open spec fn read_visit(line: Seq<char>) -> Option<VisitView> {
    let c = text::pieces(line, '\t', 4);
    if c.len() < 3 {
        None
    } else {
        Some(
            VisitView {
                url: c[0],
                title: c[1],
                visits: match number::read_unsigned(c[2], u32::MAX as nat) {
                    Some(n) => n as u32,
                    None => 1,
                },
                updated: if c.len() > 3 {
                    signed_or(c[3], 0) as i64
                } else {
                    0
                },
            },
        )
    }
}

/// The bookmark that a bookmark line holds: at least two cells.
pub open spec fn read_mark(line: Seq<char>) -> Option<MarkView> {
    let c = text::pieces(line, '\t', 3);
    if c.len() < 2 {
        None
    } else {
        Some(
            MarkView {
                url: c[0],
                title: c[1],
                updated: if c.len() > 2 {
                    signed_or(c[2], 0) as i64
                } else {
                    0
                },
            },
        )
    }
}

pub open spec fn read_visits(lines: Seq<Seq<char>>) -> Seq<VisitView>
    decreases lines.len(),
{
    if lines.len() == 0 {
        Seq::empty()
    } else {
        match read_visit(lines.last()) {
            Some(e) => read_visits(lines.drop_last()).push(e),
            None => read_visits(lines.drop_last()),
        }
    }
}

pub open spec fn read_marks(lines: Seq<Seq<char>>) -> Seq<MarkView>
    decreases lines.len(),
{
    if lines.len() == 0 {
        Seq::empty()
    } else {
        match read_mark(lines.last()) {
            Some(e) => read_marks(lines.drop_last()).push(e),
            None => read_marks(lines.drop_last()),
        }
    }
}

/// The entries as they come back from the file: their texts as cells.
pub open spec fn kept_visits(h: Seq<VisitView>) -> Seq<VisitView> {
    Seq::new(
        h.len(),
        |i: int|
            VisitView {
                url: codec::cell(h[i].url),
                title: codec::cell(h[i].title),
                visits: h[i].visits,
                updated: h[i].updated,
            },
    )
}

/// The bookmarks as they come back from the file: their texts as cells.
pub open spec fn kept_marks(b: Seq<MarkView>) -> Seq<MarkView> {
    Seq::new(
        b.len(),
        |i: int|
            MarkView {
                url: codec::cell(b[i].url),
                title: codec::cell(b[i].title),
                updated: b[i].updated,
            },
    )
}

proof fn lemma_number_chars(n: int)
    ensures
        !number::signed_decimal(n).contains('\t'),
        !number::signed_decimal(n).contains('\n'),
        !number::signed_decimal(n).contains('\r'),
        number::signed_decimal(n).len() > 0,
{
    number::lemma_signed_decimal_chars(n);
}

proof fn lemma_count_chars(n: nat)
    ensures
        !number::decimal(n).contains('\t'),
        !number::decimal(n).contains('\n'),
{
    number::lemma_decimal(n);
}

proof fn lemma_visit_line(e: VisitView)
    ensures
        !visit_line(e).contains('\n'),
        text::without_cr(visit_line(e)) == visit_line(e),
        read_visit(visit_line(e)) == Some(
            VisitView {
                url: codec::cell(e.url),
                title: codec::cell(e.title),
                visits: e.visits,
                updated: e.updated,
            },
        ),
{
    let u = codec::cell(e.url);
    let t = codec::cell(e.title);
    let n = number::decimal(e.visits as nat);
    let d = number::signed_decimal(e.updated as int);
    codec::cell_has_no_separator(e.url);
    codec::cell_has_no_separator(e.title);
    lemma_count_chars(e.visits as nat);
    lemma_number_chars(e.updated as int);
    let tab = seq!['\t'];
    let l = visit_line(e);
    assert(l =~= u + tab + (t + tab + (n + tab + d)));
    text::lemma_first_piece(u, t + tab + (n + tab + d), '\t', 4);
    text::lemma_first_piece(t, n + tab + d, '\t', 3);
    text::lemma_first_piece(n, d, '\t', 2);
    text::lemma_whole_piece(d, '\t', 1);
    let c = text::pieces(l, '\t', 4);
    assert(c =~= seq![u, t, n, d]);
    number::lemma_read_decimal(e.visits as nat, u32::MAX as nat);
    number::lemma_read_signed_decimal(e.updated);
    assert(l.last() == d.last());
    assert(d.contains(d.last()));
    assert forall|j: int| 0 <= j < l.len() implies l[j] != '\n' by {
        let a = u.len() as int;
        let b = a + 1 + t.len();
        let m = b + 1 + n.len();
        if j < a {
            assert(l[j] == u[j]);
        } else if a < j < b {
            assert(l[j] == t[j - a - 1]);
        } else if b < j < m {
            assert(l[j] == n[j - b - 1]);
        } else if j > m {
            assert(l[j] == d[j - m - 1]);
        }
    }
}

proof fn lemma_mark_line(b: MarkView)
    ensures
        !mark_line(b).contains('\n'),
        text::without_cr(mark_line(b)) == mark_line(b),
        read_mark(mark_line(b)) == Some(
            MarkView {
                url: codec::cell(b.url),
                title: codec::cell(b.title),
                updated: b.updated,
            },
        ),
{
    let u = codec::cell(b.url);
    let t = codec::cell(b.title);
    let d = number::signed_decimal(b.updated as int);
    codec::cell_has_no_separator(b.url);
    codec::cell_has_no_separator(b.title);
    lemma_number_chars(b.updated as int);
    let tab = seq!['\t'];
    let l = mark_line(b);
    assert(l =~= u + tab + (t + tab + d));
    text::lemma_first_piece(u, t + tab + d, '\t', 3);
    text::lemma_first_piece(t, d, '\t', 2);
    text::lemma_whole_piece(d, '\t', 1);
    let c = text::pieces(l, '\t', 3);
    assert(c =~= seq![u, t, d]);
    number::lemma_read_signed_decimal(b.updated);
    assert(l.last() == d.last());
    assert(d.contains(d.last()));
    assert forall|j: int| 0 <= j < l.len() implies l[j] != '\n' by {
        let x = u.len() as int;
        let y = x + 1 + t.len();
        if j < x {
            assert(l[j] == u[j]);
        } else if x < j < y {
            assert(l[j] == t[j - x - 1]);
        } else if j > y {
            assert(l[j] == d[j - y - 1]);
        }
    }
}

/// The history file gives back the history that it was written from, its texts as cells.
pub proof fn history_round_trip(h: Seq<VisitView>)
    ensures
        read_visits(text::lines_of(history_text(h))) == kept_visits(h),
{
    let lines = Seq::new(h.len(), |i: int| visit_line(h[i]));
    assert forall|i: int| 0 <= i < lines.len() implies !(#[trigger] lines[i]).contains('\n')
        && text::without_cr(lines[i]) == lines[i] by {
        lemma_visit_line(h[i]);
    }
    text::lemma_lines_of_strung(lines);
    assert(Seq::new(lines.len(), |i: int| lines[i] + seq!['\n']) =~= Seq::new(
        h.len(),
        |i: int| visit_line(h[i]) + seq!['\n'],
    ));
    lemma_read_visit_lines(h, h.len());
    assert(lines.take(h.len() as int) =~= lines);
    assert(kept_visits(h).take(h.len() as int) =~= kept_visits(h));
}

proof fn lemma_read_visit_lines(h: Seq<VisitView>, n: nat)
    requires
        n <= h.len(),
    ensures
        read_visits(Seq::new(h.len(), |i: int| visit_line(h[i])).take(n as int)) == kept_visits(
            h,
        ).take(n as int),
    decreases n,
{
    let lines = Seq::new(h.len(), |i: int| visit_line(h[i]));
    if n > 0 {
        lemma_read_visit_lines(h, (n - 1) as nat);
        lemma_visit_line(h[n - 1]);
        assert(lines.take(n as int).drop_last() =~= lines.take(n - 1));
        assert(lines.take(n as int).last() == visit_line(h[n - 1]));
        assert(kept_visits(h).take(n as int) =~= kept_visits(h).take(n - 1).push(
            kept_visits(h)[n - 1],
        ));
    }
}

/// The bookmarks file gives back the bookmarks that it was written from, their texts as cells.
pub proof fn bookmarks_round_trip(b: Seq<MarkView>)
    ensures
        read_marks(text::lines_of(bookmarks_text(b))) == kept_marks(b),
{
    let lines = Seq::new(b.len(), |i: int| mark_line(b[i]));
    assert forall|i: int| 0 <= i < lines.len() implies !(#[trigger] lines[i]).contains('\n')
        && text::without_cr(lines[i]) == lines[i] by {
        lemma_mark_line(b[i]);
    }
    text::lemma_lines_of_strung(lines);
    assert(Seq::new(lines.len(), |i: int| lines[i] + seq!['\n']) =~= Seq::new(
        b.len(),
        |i: int| mark_line(b[i]) + seq!['\n'],
    ));
    lemma_read_mark_lines(b, b.len());
    assert(lines.take(b.len() as int) =~= lines);
    assert(kept_marks(b).take(b.len() as int) =~= kept_marks(b));
}

proof fn lemma_read_mark_lines(b: Seq<MarkView>, n: nat)
    requires
        n <= b.len(),
    ensures
        read_marks(Seq::new(b.len(), |i: int| mark_line(b[i])).take(n as int)) == kept_marks(
            b,
        ).take(n as int),
    decreases n,
{
    let lines = Seq::new(b.len(), |i: int| mark_line(b[i]));
    if n > 0 {
        lemma_read_mark_lines(b, (n - 1) as nat);
        lemma_mark_line(b[n - 1]);
        assert(lines.take(n as int).drop_last() =~= lines.take(n - 1));
        assert(lines.take(n as int).last() == mark_line(b[n - 1]));
        assert(kept_marks(b).take(n as int) =~= kept_marks(b).take(n - 1).push(
            kept_marks(b)[n - 1],
        ));
    }
}

fn parse_signed_or_zero(s: &str) -> (r: i64)
    ensures
        r == signed_or(s@, 0) as i64,
{
    match number::parse_signed(s) {
        Some(n) => n,
        None => 0,
    }
}

fn parse_visit(line: &str) -> (r: Option<HistoryEntry>)
    ensures
        match read_visit(line@) {
            Some(e) => r matches Some(x) && x@ == e,
            None => r is None,
        },
{
    let c: Vec<String> = text::split_at_most(line, '\t', 4);
    let ghost p = text::texts(c@);
    assert(p.len() == c@.len());
    if c.len() < 3 {
        return None;
    }
    assert(p[0] == c@[0]@ && p[1] == c@[1]@ && p[2] == c@[2]@);
    let visits: u32 = match number::parse_unsigned(c[2].as_str(), u32::MAX as u64) {
        Some(n) => n as u32,
        None => 1,
    };
    let updated: i64 = if c.len() > 3 {
        assert(p[3] == c@[3]@);
        parse_signed_or_zero(c[3].as_str())
    } else {
        0
    };
    Some(HistoryEntry { url: c[0].clone(), title: c[1].clone(), visits, updated })
}

fn parse_mark(line: &str) -> (r: Option<Bookmark>)
    ensures
        match read_mark(line@) {
            Some(e) => r matches Some(x) && x@ == e,
            None => r is None,
        },
{
    let c: Vec<String> = text::split_at_most(line, '\t', 3);
    let ghost p = text::texts(c@);
    assert(p.len() == c@.len());
    if c.len() < 2 {
        return None;
    }
    assert(p[0] == c@[0]@ && p[1] == c@[1]@);
    let updated: i64 = if c.len() > 2 {
        assert(p[2] == c@[2]@);
        parse_signed_or_zero(c[2].as_str())
    } else {
        0
    };
    Some(Bookmark { url: c[0].clone(), title: c[1].clone(), updated })
}

fn load_history(file: &str) -> (r: Vec<HistoryEntry>)
    ensures
        visit_views(r@) == read_visits(text::lines_of(file@)),
{
    let lines: Vec<String> = text::lines(file);
    let ghost all = text::texts(lines@);
    let mut out: Vec<HistoryEntry> = Vec::new();
    let mut i: usize = 0;
    assert(visit_views(out@) =~= read_visits(all.take(0)));
    while i < lines.len()
        invariant
            i <= lines@.len(),
            all == text::texts(lines@),
            visit_views(out@) == read_visits(all.take(i as int)),
        decreases lines@.len() - i,
    {
        let ghost before = visit_views(out@);
        assert(all.take(i + 1).drop_last() =~= all.take(i as int));
        assert(all.take(i + 1).last() == lines@[i as int]@);
        match parse_visit(lines[i].as_str()) {
            Some(e) => {
                out.push(e);
                assert(visit_views(out@) =~= before.push(e@));
            },
            None => {},
        }
        i = i + 1;
    }
    assert(all.take(lines@.len() as int) =~= all);
    out
}

fn load_bookmarks(file: &str) -> (r: Vec<Bookmark>)
    ensures
        mark_views(r@) == read_marks(text::lines_of(file@)),
{
    let lines: Vec<String> = text::lines(file);
    let ghost all = text::texts(lines@);
    let mut out: Vec<Bookmark> = Vec::new();
    let mut i: usize = 0;
    assert(mark_views(out@) =~= read_marks(all.take(0)));
    while i < lines.len()
        invariant
            i <= lines@.len(),
            all == text::texts(lines@),
            mark_views(out@) == read_marks(all.take(i as int)),
        decreases lines@.len() - i,
    {
        let ghost before = mark_views(out@);
        assert(all.take(i + 1).drop_last() =~= all.take(i as int));
        assert(all.take(i + 1).last() == lines@[i as int]@);
        match parse_mark(lines[i].as_str()) {
            Some(e) => {
                out.push(e);
                assert(mark_views(out@) =~= before.push(e@));
            },
            None => {},
        }
        i = i + 1;
    }
    assert(all.take(lines@.len() as int) =~= all);
    out
}

/// Reads the profile from its two files; a file that is not there counts as empty.
pub fn load_profile(history: Option<&str>, bookmarks: Option<&str>) -> (r: Profile)
    ensures
        visit_views(r.history@) == match history {
            Some(f) => read_visits(text::lines_of(f@)),
            None => Seq::empty(),
        },
        mark_views(r.bookmarks@) == match bookmarks {
            Some(f) => read_marks(text::lines_of(f@)),
            None => Seq::empty(),
        },
{
    let mut p: Profile = Profile::new();
    match history {
        Some(f) => {
            p.history = load_history(f);
        },
        None => {
            assert(visit_views(p.history@) =~= Seq::<VisitView>::empty());
        },
    }
    match bookmarks {
        Some(f) => {
            p.bookmarks = load_bookmarks(f);
        },
        None => {
            assert(mark_views(p.bookmarks@) =~= Seq::<MarkView>::empty());
        },
    }
    p
}

/// Writes the history file.
pub fn save_history(h: &Vec<HistoryEntry>) -> (r: String)
    ensures
        r@ == history_text(visit_views(h@)),
{
    let ghost v = visit_views(h@);
    let ghost all = Seq::new(v.len(), |i: int| visit_line(v[i]) + seq!['\n']);
    let mut out: String = String::new();
    let mut i: usize = 0;
    while i < h.len()
        invariant
            i <= h@.len(),
            v == visit_views(h@),
            all == Seq::new(v.len(), |i: int| visit_line(v[i]) + seq!['\n']),
            out@ == text::strung(all.take(i as int)),
        decreases h@.len() - i,
    {
        let ghost before = out@;
        out.append(codec::tsv_field(h[i].url.as_str()).as_str());
        out.push('\t');
        out.append(codec::tsv_field(h[i].title.as_str()).as_str());
        out.push('\t');
        out.append(number::decimal_string(h[i].visits as u64).as_str());
        out.push('\t');
        out.append(number::signed_string(h[i].updated).as_str());
        out.push('\n');
        proof {
            assert(out@ =~= before + (visit_line(v[i as int]) + seq!['\n']));
            assert(all.take(i + 1) =~= all.take(i as int).push(all[i as int]));
            text::lemma_strung_push(all.take(i as int), all[i as int]);
        }
        i = i + 1;
    }
    assert(all.take(h@.len() as int) =~= all);
    out
}

/// Writes the bookmarks file.
pub fn save_bookmarks(b: &Vec<Bookmark>) -> (r: String)
    ensures
        r@ == bookmarks_text(mark_views(b@)),
{
    let ghost v = mark_views(b@);
    let ghost all = Seq::new(v.len(), |i: int| mark_line(v[i]) + seq!['\n']);
    let mut out: String = String::new();
    let mut i: usize = 0;
    while i < b.len()
        invariant
            i <= b@.len(),
            v == mark_views(b@),
            all == Seq::new(v.len(), |i: int| mark_line(v[i]) + seq!['\n']),
            out@ == text::strung(all.take(i as int)),
        decreases b@.len() - i,
    {
        let ghost before = out@;
        out.append(codec::tsv_field(b[i].url.as_str()).as_str());
        out.push('\t');
        out.append(codec::tsv_field(b[i].title.as_str()).as_str());
        out.push('\t');
        out.append(number::signed_string(b[i].updated).as_str());
        out.push('\n');
        proof {
            assert(out@ =~= before + (mark_line(v[i as int]) + seq!['\n']));
            assert(all.take(i + 1) =~= all.take(i as int).push(all[i as int]));
            text::lemma_strung_push(all.take(i as int), all[i as int]);
        }
        i = i + 1;
    }
    assert(all.take(b@.len() as int) =~= all);
    out
}

// ---------------------------------------------------------------------------
// Laws
// ---------------------------------------------------------------------------

/// Exactly the entries whose address or title holds the query, whatever the case of the letters, are
/// candidates for a suggestion.
proof fn lemma_matching(h: Seq<VisitView>, query: Seq<char>)
    ensures
        matching(h, query) == h.filter(
            |e: VisitView|
                text::has(unicode::lowercase(e.title), unicode::lowercase(query)) || text::has(
                    unicode::lowercase(e.url),
                    unicode::lowercase(query),
                ),
        ),
    decreases h.len(),
{
    reveal(Seq::filter);
    if h.len() > 0 {
        lemma_matching(h.drop_last(), query);
    }
}

/// There are as many suggestions as pages hold the query, up to six.
pub proof fn suggestions_are_few(h: Seq<VisitView>, query: Seq<char>)
    ensures
        suggested(h, query).len() <= 6,
        h.filter(
            |e: VisitView|
                text::has(unicode::lowercase(e.title), unicode::lowercase(query)) || text::has(
                    unicode::lowercase(e.url),
                    unicode::lowercase(query),
                ),
        ).len() <= 6 ==> suggested(h, query).len() == h.filter(
            |e: VisitView|
                text::has(unicode::lowercase(e.title), unicode::lowercase(query)) || text::has(
                    unicode::lowercase(e.url),
                    unicode::lowercase(query),
                ),
        ).len(),
{
    lemma_matching(h, query);
}

/// Suggestions are sound: each is the address and title of a page in the history whose address or
/// title holds the query.
pub proof fn suggestions_hold_the_query(h: Seq<VisitView>, query: Seq<char>, k: int)
    requires
        0 <= k < suggested(h, query).len(),
    ensures
        exists|e: VisitView| #[trigger]
            h.contains(e) && suggested(h, query)[k] == (e.url, e.title) && (text::has(
                unicode::lowercase(e.title),
                unicode::lowercase(query),
            ) || text::has(unicode::lowercase(e.url), unicode::lowercase(query))),
{
    lemma_matching(h, query);
    let p = |e: VisitView|
        text::has(unicode::lowercase(e.title), unicode::lowercase(query)) || text::has(
            unicode::lowercase(e.url),
            unicode::lowercase(query),
        );
    let m = matching(h, query);
    assert(m == h.filter(p));
    let keys = visit_counts(m);
    ranking::ranking_is_stable(keys, keys.len());
    let order = ranking::ranking(keys);
    let e = m[order[k]];
    h.lemma_filter_pred(p, order[k]);
    assert(m.contains(e));
    h.lemma_filter_contains_rev(p, e);
}

/// Suggestions are complete. A page whose title holds the query is suggested, and so is one whose
/// address does, wherever it stands in the history; only where six others, none of them visited
/// less, take all the places is it left out.
pub proof fn pages_that_hold_the_query_are_suggested(h: Seq<VisitView>, query: Seq<char>, i: int)
    requires
        0 <= i < h.len(),
        text::has(unicode::lowercase(h[i].title), unicode::lowercase(query)) || text::has(
            unicode::lowercase(h[i].url),
            unicode::lowercase(query),
        ),
    ensures
        ({
            ||| suggested(h, query).contains((h[i].url, h[i].title))
            ||| h.filter(
                |e: VisitView|
                    text::has(unicode::lowercase(e.title), unicode::lowercase(query)) || text::has(
                        unicode::lowercase(e.url),
                        unicode::lowercase(query),
                    ),
            ).len() > 6 && suggested(h, query).len() == 6 && forall|k: int|
                0 <= k < 6 ==> exists|j: int|
                    0 <= j < h.len() && #[trigger] suggested(h, query)[k] == (
                        (#[trigger] h[j]).url,
                        h[j].title,
                    ) && h[j].visits >= h[i].visits
        }),
{
    lemma_matching(h, query);
    let p = |e: VisitView|
        text::has(unicode::lowercase(e.title), unicode::lowercase(query)) || text::has(
            unicode::lowercase(e.url),
            unicode::lowercase(query),
        );
    let m = matching(h, query);
    assert(m == h.filter(p));
    let keys = visit_counts(m);
    ranking::ranking_is_stable(keys, keys.len());
    let order = ranking::ranking(keys);
    let s = suggested(h, query);
    h.lemma_filter_contains(p, i);
    let a = choose|a: int| 0 <= a < m.len() && m[a] == h[i];
    assert(order.contains(a));
    let c = choose|c: int| 0 <= c < order.len() && order[c] == a;
    if c < s.len() {
        assert(s[c] == (h[i].url, h[i].title));
    } else {
        assert forall|k: int| 0 <= k < 6 implies exists|j: int|
            0 <= j < h.len() && #[trigger] s[k] == ((#[trigger] h[j]).url, h[j].title)
                && h[j].visits >= h[i].visits by {
            let e = m[order[k]];
            assert(m.contains(e));
            h.lemma_filter_contains_rev(p, e);
            let j = choose|j: int| 0 <= j < h.len() && h[j] == e;
            assert(ranking::precedes(keys, order[k], order[c]));
            assert(keys[order[k]] == e.visits && keys[a] == h[i].visits);
            assert(s[k] == (h[j].url, h[j].title));
        }
    }
}

/// Where two pages are suggested, the one that was visited more comes first.
pub proof fn the_most_visited_is_suggested_first(h: Seq<VisitView>, query: Seq<char>, j: int, k: int)
    requires
        0 <= j < k < suggested(h, query).len(),
    ensures
        exists|a: VisitView, b: VisitView| #[trigger]
            h.contains(a) && #[trigger] h.contains(b) && suggested(h, query)[j] == (a.url, a.title)
                && suggested(h, query)[k] == (b.url, b.title) && a.visits >= b.visits,
{
    lemma_matching(h, query);
    let m = matching(h, query);
    let keys = visit_counts(m);
    ranking::ranking_is_stable(keys, keys.len());
    let order = ranking::ranking(keys);
    let p = |e: VisitView|
        text::has(unicode::lowercase(e.title), unicode::lowercase(query)) || text::has(
            unicode::lowercase(e.url),
            unicode::lowercase(query),
        );
    assert(m == h.filter(p));
    let a = m[order[j]];
    let b = m[order[k]];
    assert(m.contains(a) && m.contains(b));
    h.lemma_filter_contains_rev(p, a);
    h.lemma_filter_contains_rev(p, b);
    assert(ranking::precedes(keys, order[j], order[k]));
    assert(keys[order[j]] == a.visits && keys[order[k]] == b.visits);
}

/// A visit of a page that is in the history: it counts one more, at the time of the visit, under its
/// new title where that is not empty; every other entry stays.
pub proof fn a_visit_counts_once(
    h: Seq<VisitView>,
    url: Seq<char>,
    title: Seq<char>,
    now: i64,
    i: int,
)
    requires
        !is_private(url),
        0 <= i < h.len(),
        h[i].url == url,
        forall|j: int| 0 <= j < i ==> (#[trigger] h[j]).url != url,
        h[i].visits < u32::MAX,
    ensures
        visited(h, url, title, now).len() == h.len(),
        visited(h, url, title, now)[i].url == url,
        visited(h, url, title, now)[i].visits == h[i].visits + 1,
        visited(h, url, title, now)[i].updated == now,
        title.len() > 0 ==> visited(h, url, title, now)[i].title == title,
        title.len() == 0 ==> visited(h, url, title, now)[i].title == h[i].title,
        forall|j: int|
            0 <= j < h.len() && j != i ==> visited(h, url, title, now)[j] == #[trigger] h[j],
{
    lemma_visit_place(h, url);
}

/// A first visit is put behind the other entries, counted once; where there are too many then, the
/// oldest entries go and all others keep their order.
pub proof fn a_first_visit_is_remembered(
    h: Seq<VisitView>,
    url: Seq<char>,
    title: Seq<char>,
    now: i64,
)
    requires
        !is_private(url),
        forall|j: int| 0 <= j < h.len() ==> (#[trigger] h[j]).url != url,
    ensures
        visited(h, url, title, now).len() > 0,
        visited(h, url, title, now).last() == (VisitView { url, title, visits: 1, updated: now }),
        h.len() < 2000 ==> visited(h, url, title, now).drop_last() == h,
        h.len() >= 2000 ==> visited(h, url, title, now).drop_last() == h.skip(h.len() - 1999),
{
    lemma_visit_place(h, url);
    let r = visited(h, url, title, now);
    if h.len() < 2000 {
        assert(r.drop_last() =~= h);
    } else {
        assert(r.drop_last() =~= h.skip(h.len() - 1999));
    }
}

/// The browser's own pages, blank pages, inline data and files leave no trace in the history, and
/// neither does an empty address. Every address of the web does.
pub proof fn private_pages_leave_no_trace(
    h: Seq<VisitView>,
    rest: Seq<char>,
    title: Seq<char>,
    now: i64,
)
    ensures
        visited(h, Seq::empty(), title, now) == h,
        visited(h, "gator:"@ + rest, title, now) == h,
        visited(h, "about:"@ + rest, title, now) == h,
        visited(h, "data:"@ + rest, title, now) == h,
        visited(h, "file:"@ + rest, title, now) == h,
        !is_private("http://"@ + rest),
        !is_private("https://"@ + rest),
{
    reveal_strlit("gator:");
    reveal_strlit("about:");
    reveal_strlit("data:");
    reveal_strlit("file:");
    reveal_strlit("http://");
    reveal_strlit("https://");
    assert(("gator:"@ + rest).take(6) =~= "gator:"@);
    assert(("about:"@ + rest).take(6) =~= "about:"@);
    assert(("data:"@ + rest).take(5) =~= "data:"@);
    assert(("file:"@ + rest).take(5) =~= "file:"@);
    assert(("http://"@ + rest)[0] == 'h');
    assert(("https://"@ + rest)[0] == 'h');
    assert("gator:"@[0] == 'g' && "about:"@[0] == 'a' && "data:"@[0] == 'd' && "file:"@[0] == 'f');
}

/// The star: a page that is not bookmarked is afterwards, behind the others, under its title and the
/// time; the first bookmark of one that is goes, and no other.
pub proof fn the_star_toggles(
    b: Seq<MarkView>,
    url: Seq<char>,
    title: Seq<char>,
    now: i64,
    i: int,
)
    requires
        url.len() > 0,
    ensures
        (forall|j: int| 0 <= j < b.len() ==> (#[trigger] b[j]).url != url) ==> toggled(
            b,
            url,
            title,
            now,
        ) == b.push(MarkView { url, title, updated: now }),
        0 <= i < b.len() && b[i].url == url && (forall|j: int|
            0 <= j < i ==> (#[trigger] b[j]).url != url) ==> toggled(b, url, title, now) == b.take(i)
            + b.skip(i + 1),
{
    lemma_mark_place(b, url);
    if 0 <= i < b.len() && b[i].url == url && (forall|j: int|
        0 <= j < i ==> (#[trigger] b[j]).url != url) {
        assert(mark_place(b, url) == Some(i));
        assert(b.remove(i) =~= b.take(i) + b.skip(i + 1));
    }
}

/// A line of the history is an address, a title, a visit count and a time, in that order and apart by
/// tabs.
pub proof fn history_lines_are_read(
    url: Seq<char>,
    title: Seq<char>,
    visits: u32,
    updated: i64,
)
    requires
        !url.contains('\t'),
        !title.contains('\t'),
    ensures
        read_visit(
            url + seq!['\t'] + (title + seq!['\t'] + (number::decimal(visits as nat) + seq!['\t']
                + number::signed_decimal(updated as int))),
        ) == Some(VisitView { url, title, visits, updated }),
{
    let n = number::decimal(visits as nat);
    let t = number::signed_decimal(updated as int);
    number::lemma_decimal(visits as nat);
    assert(!n.contains('\t')) by {
        if n.contains('\t') {
            let k = choose|k: int| 0 <= k < n.len() && n[k] == '\t';
            assert(number::is_digit(n[k]));
        }
    }
    text::lemma_first_piece(url, title + seq!['\t'] + (n + seq!['\t'] + t), '\t', 4);
    text::lemma_first_piece(title, n + seq!['\t'] + t, '\t', 3);
    text::lemma_first_piece(n, t, '\t', 2);
    assert(text::pieces(t, '\t', 1) == seq![t]);
    number::lemma_read_decimal(visits as nat, u32::MAX as nat);
    number::lemma_read_signed_decimal(updated);
}

/// A line of the bookmarks is an address, a title and a time, in that order and apart by tabs.
pub proof fn bookmark_lines_are_read(url: Seq<char>, title: Seq<char>, updated: i64)
    requires
        !url.contains('\t'),
        !title.contains('\t'),
    ensures
        read_mark(
            url + seq!['\t'] + (title + seq!['\t'] + number::signed_decimal(updated as int)),
        ) == Some(MarkView { url, title, updated }),
{
    let t = number::signed_decimal(updated as int);
    text::lemma_first_piece(url, title + seq!['\t'] + t, '\t', 3);
    text::lemma_first_piece(title, t, '\t', 2);
    assert(text::pieces(t, '\t', 1) == seq![t]);
    number::lemma_read_signed_decimal(updated);
}

/// A line without a time is as old as can be; one whose count cannot be read counts one visit; a line
/// with too few columns is passed over.
pub proof fn older_lines_are_read(url: Seq<char>, title: Seq<char>, n: Seq<char>, visits: u32)
    requires
        !url.contains('\t'),
        !title.contains('\t'),
        !n.contains('\t'),
    ensures
        read_visit(url + seq!['\t'] + (title + seq!['\t'] + number::decimal(visits as nat))) == Some(
            (VisitView { url, title, visits, updated: 0 }),
        ),
        number::read_unsigned(n, u32::MAX as nat) is None ==> read_visit(
            url + seq!['\t'] + (title + seq!['\t'] + n),
        ) == Some((VisitView { url, title, visits: 1, updated: 0 })),
        read_mark(url + seq!['\t'] + title) == Some((MarkView { url, title, updated: 0 })),
        read_visit(url + seq!['\t'] + title) is None,
        read_visit(url) is None,
        read_mark(url) is None,
{
    let d = number::decimal(visits as nat);
    number::lemma_decimal(visits as nat);
    assert(!d.contains('\t')) by {
        if d.contains('\t') {
            let k = choose|k: int| 0 <= k < d.len() && d[k] == '\t';
            assert(number::is_digit(d[k]));
        }
    }
    number::lemma_read_decimal(visits as nat, u32::MAX as nat);
    text::lemma_first_piece(url, title + seq!['\t'] + d, '\t', 4);
    text::lemma_first_piece(title, d, '\t', 3);
    text::lemma_whole_piece(d, '\t', 2);
    text::lemma_first_piece(url, title + seq!['\t'] + n, '\t', 4);
    text::lemma_first_piece(title, n, '\t', 3);
    text::lemma_whole_piece(n, '\t', 2);
    text::lemma_first_piece(url, title, '\t', 3);
    text::lemma_first_piece(url, title, '\t', 4);
    text::lemma_whole_piece(title, '\t', 2);
    text::lemma_whole_piece(title, '\t', 3);
    text::lemma_whole_piece(url, '\t', 3);
    text::lemma_whole_piece(url, '\t', 4);
}

/// Each line that can be read adds its entry, in order, and any other is passed over.
pub proof fn readable_lines_are_kept(lines: Seq<Seq<char>>, line: Seq<char>)
    ensures
        read_visits(Seq::empty()).len() == 0,
        read_visit(line) matches Some(v) ==> read_visits(lines.push(line)) == read_visits(lines).push(v),
        read_visit(line) is None ==> read_visits(lines.push(line)) == read_visits(lines),
        read_marks(Seq::empty()).len() == 0,
        read_mark(line) matches Some(b) ==> read_marks(lines.push(line)) == read_marks(lines).push(b),
        read_mark(line) is None ==> read_marks(lines.push(line)) == read_marks(lines),
{
    assert(lines.push(line).drop_last() =~= lines);
}

} // verus!

//! Highlighted passages, kept for each origin.

use vstd::prelude::*;
use vstd::string::*;

use crate::bridge;
use crate::json;
use crate::json::Json;
use crate::text;

verus! {

/// One highlighted passage: its text, a little of what stands around it, and its colour.
pub struct Highlight {
    pub text: String,
    pub prefix: String,
    pub suffix: String,
    pub color: String,
}

/// Passages for each origin, no origin twice.
pub struct HighlightMap {
    entries: Vec<(String, Vec<Highlight>)>,
}

/// The passages of an origin; none where the origin has none.
pub open spec fn passages(m: Map<Seq<char>, Seq<Highlight>>, origin: Seq<char>) -> Seq<Highlight> {
    if m.dom().contains(origin) {
        m[origin]
    } else {
        Seq::empty()
    }
}

spec fn distinct(e: Seq<(String, Vec<Highlight>)>) -> bool {
    forall|i: int, j: int|
        0 <= i < j < e.len() ==> (#[trigger] e[i]).0@ != (#[trigger] e[j]).0@
}

spec fn map_of(e: Seq<(String, Vec<Highlight>)>) -> Map<Seq<char>, Seq<Highlight>>
    decreases e.len(),
{
    if e.len() == 0 {
        Map::empty()
    } else {
        map_of(e.drop_last()).insert(e.last().0@, e.last().1@)
    }
}

impl View for HighlightMap {
    type V = Map<Seq<char>, Seq<Highlight>>;

    closed spec fn view(&self) -> Map<Seq<char>, Seq<Highlight>> {
        map_of(self.entries@)
    }
}

proof fn lemma_map_of(e: Seq<(String, Vec<Highlight>)>)
    requires
        distinct(e),
    ensures
        forall|i: int|
            0 <= i < e.len() ==> map_of(e).dom().contains((#[trigger] e[i]).0@) && map_of(
                e,
            )[e[i].0@] == e[i].1@,
        forall|o: Seq<char>|
            map_of(e).dom().contains(o) ==> exists|i: int|
                0 <= i < e.len() && (#[trigger] e[i]).0@ == o,
    decreases e.len(),
{
    if e.len() > 0 {
        let r = e.drop_last();
        assert forall|i: int, j: int| 0 <= i < j < r.len() implies (#[trigger] r[i]).0@ != (
        #[trigger] r[j]).0@ by {
            assert(e[i].0@ != e[j].0@);
        }
        lemma_map_of(r);
        assert forall|i: int| 0 <= i < e.len() implies map_of(e).dom().contains((#[trigger] e[i]).0@)
            && map_of(e)[e[i].0@] == e[i].1@ by {
            if i < r.len() {
                assert(r[i] == e[i]);
                assert(e[i].0@ != e[e.len() - 1].0@);
            }
        }
        assert forall|o: Seq<char>| map_of(e).dom().contains(o) implies exists|i: int|
            0 <= i < e.len() && (#[trigger] e[i]).0@ == o by {
            if o == e.last().0@ {
                assert(e[e.len() - 1].0@ == o);
            } else {
                assert(map_of(r).dom().contains(o));
                let i = choose|i: int| 0 <= i < r.len() && (#[trigger] r[i]).0@ == o;
                assert(e[i].0@ == o);
            }
        }
    }
}

proof fn lemma_map_update(e: Seq<(String, Vec<Highlight>)>, i: int, x: (String, Vec<Highlight>))
    requires
        distinct(e),
        0 <= i < e.len(),
        x.0@ == e[i].0@,
    ensures
        distinct(e.update(i, x)),
        map_of(e.update(i, x)) == map_of(e).insert(x.0@, x.1@),
    decreases e.len(),
{
    let u = e.update(i, x);
    assert forall|a: int, b: int| 0 <= a < b < u.len() implies (#[trigger] u[a]).0@ != (
    #[trigger] u[b]).0@ by {
        assert(e[a].0@ != e[b].0@);
    }
    let r = e.drop_last();
    assert(distinct(r)) by {
        assert forall|a: int, b: int| 0 <= a < b < r.len() implies (#[trigger] r[a]).0@ != (
        #[trigger] r[b]).0@ by {
            assert(e[a].0@ != e[b].0@);
        }
    }
    if i == e.len() - 1 {
        assert(u.drop_last() =~= r);
        assert(map_of(u) =~= map_of(e).insert(x.0@, x.1@));
    } else {
        assert(r[i] == e[i]);
        lemma_map_update(r, i, x);
        assert(u.drop_last() =~= r.update(i, x));
        assert(e[i].0@ != e[e.len() - 1].0@);
        assert(map_of(u) =~= map_of(e).insert(x.0@, x.1@));
    }
}

impl HighlightMap {
    #[verifier::type_invariant]
    spec fn wf(&self) -> bool {
        distinct(self.entries@)
    }

    /// No passages.
    pub fn new() -> (r: HighlightMap)
        ensures
            r@ == Map::<Seq<char>, Seq<Highlight>>::empty(),
    {
        HighlightMap { entries: Vec::new() }
    }

    fn find(&self, origin: &str) -> (r: Option<usize>)
        ensures
            match r {
                Some(i) => i < self.entries@.len() && self.entries@[i as int].0@ == origin@
                    && self@.dom().contains(origin@) && self@[origin@]
                    == self.entries@[i as int].1@,
                None => !self@.dom().contains(origin@) && forall|j: int|
                    0 <= j < self.entries@.len() ==> (#[trigger] self.entries@[j]).0@ != origin@,
            },
    {
        proof {
            use_type_invariant(&*self);
            lemma_map_of(self.entries@);
        }
        let mut i: usize = 0;
        while i < self.entries.len()
            invariant
                i <= self.entries@.len(),
                distinct(self.entries@),
                forall|j: int| 0 <= j < i ==> (#[trigger] self.entries@[j]).0@ != origin@,
            decreases self.entries@.len() - i,
        {
            if text::same(self.entries[i].0.as_str(), origin) {
                proof {
                    lemma_map_of(self.entries@);
                }
                return Some(i);
            }
            i = i + 1;
        }
        None
    }

    /// Sets an origin's passages.
    pub fn put(&mut self, origin: &str, list: Vec<Highlight>)
        ensures
            final(self)@ == old(self)@.insert(origin@, list@),
    {
        let at: Option<usize> = self.find(origin);
        let ghost l = list@;
        proof {
            use_type_invariant(&*self);
        }
        let mut entries: Vec<(String, Vec<Highlight>)> = Vec::new();
        std::mem::swap(&mut entries, &mut self.entries);
        let ghost e = entries@;
        match at {
            Some(i) => {
                let x: (String, Vec<Highlight>) = (origin.to_owned(), list);
                proof {
                    lemma_map_update(e, i as int, x);
                }
                entries.set(i, x);
            },
            None => {
                entries.push((origin.to_owned(), list));
                proof {
                    assert(entries@.drop_last() =~= e);
                    assert(distinct(entries@)) by {
                        assert forall|a: int, b: int| 0 <= a < b < entries@.len() implies (
                        #[trigger] entries@[a]).0@ != (#[trigger] entries@[b]).0@ by {
                            if b < e.len() {
                                assert(e[a].0@ != e[b].0@);
                            } else {
                                assert(e[a].0@ != origin@);
                            }
                        }
                    }
                }
            },
        }
        self.entries = entries;
    }

    /// The passages of an origin.
    pub fn get(&self, origin: &str) -> (r: &[Highlight])
        ensures
            r@ == passages(self@, origin@),
    {
        match self.find(origin) {
            Some(i) => self.entries[i].1.as_slice(),
            None => {
                let none: &[Highlight] = &[];
                assert(none@ =~= Seq::<Highlight>::empty());
                none
            },
        }
    }

    /// Adds a passage to an origin's.
    pub fn add(&mut self, origin: &str, hl: Highlight)
        ensures
            final(self)@ == old(self)@.insert(origin@, passages(old(self)@, origin@).push(hl)),
    {
        let at: Option<usize> = self.find(origin);
        let ghost was = self@;
        match at {
            Some(i) => {
                proof {
                    use_type_invariant(&*self);
                }
                let mut entries: Vec<(String, Vec<Highlight>)> = Vec::new();
                std::mem::swap(&mut entries, &mut self.entries);
                let ghost e = entries@;
                let mut x: (String, Vec<Highlight>) = entries.remove(i);
                let ghost y = x;
                x.1.push(hl);
                proof {
                    assert(x.0@ == e[i as int].0@);
                    lemma_map_update(e, i as int, x);
                }
                entries.insert(i, x);
                assert(entries@ =~= e.update(i as int, x));
                self.entries = entries;
            },
            None => {
                let mut list: Vec<Highlight> = Vec::new();
                list.push(hl);
                assert(list@ =~= Seq::<Highlight>::empty().push(hl));
                self.put(origin, list);
            },
        }
    }
}

// ---------------------------------------------------------------------------
// Passages as a text
// ---------------------------------------------------------------------------

/// The passage that a document holds.
pub open spec fn read_passage(j: Json) -> Option<Highlight> {
    match (
        json::member_string(j, "text"@),
        json::member_string(j, "prefix"@),
        json::member_string(j, "suffix"@),
        json::member_string(j, "color"@),
    ) {
        (Some(text), Some(prefix), Some(suffix), Some(color)) => Some(
            Highlight { text, prefix, suffix, color },
        ),
        _ => None,
    }
}

/// Each of these is a passage.
pub open spec fn are_passages(a: Seq<Json>) -> bool {
    forall|i: int| 0 <= i < a.len() ==> read_passage(#[trigger] a[i]) is Some
}

/// The passages in a list.
pub open spec fn read_passages(j: Json) -> Option<Seq<Highlight>> {
    match j {
        Json::List(a) => if are_passages(a@) {
            Some(Seq::new(a@.len(), |i: int| read_passage(a@[i])->0))
        } else {
            None
        },
        _ => None,
    }
}

/// Each of these members is an origin with its passages.
pub open spec fn are_origins(m: Seq<(String, Json)>) -> bool {
    forall|i: int| 0 <= i < m.len() ==> read_passages((#[trigger] m[i]).1) is Some
}

/// The passages of each origin among some members, the last where an origin comes twice.
pub open spec fn origins_in(m: Seq<(String, Json)>) -> Map<Seq<char>, Seq<Highlight>>
    decreases m.len(),
{
    if m.len() == 0 {
        Map::empty()
    } else {
        origins_in(m.drop_last()).insert(m.last().0@, read_passages(m.last().1)->0)
    }
}

/// The passages of each origin in a text.
pub open spec fn passages_in(s: Seq<char>) -> Option<Map<Seq<char>, Seq<Highlight>>> {
    match json::parsed_json(s) {
        Some(Json::Object(m)) => if are_origins(m@) {
            Some(origins_in(m@))
        } else {
            None
        },
        _ => None,
    }
}

proof fn lemma_origins_in(m: Seq<(String, Json)>)
    requires
        json::in_order(m),
    ensures
        forall|i: int|
            0 <= i < m.len() ==> origins_in(m).dom().contains((#[trigger] m[i]).0@) && origins_in(
                m,
            )[m[i].0@] == read_passages(m[i].1)->0,
        forall|o: Seq<char>|
            origins_in(m).dom().contains(o) ==> exists|i: int|
                0 <= i < m.len() && (#[trigger] m[i]).0@ == o,
    decreases m.len(),
{
    if m.len() > 0 {
        let r = m.drop_last();
        assert forall|i: int, j: int| 0 <= i < j < r.len() implies text::sorts_before(
            (#[trigger] r[i]).0@,
            (#[trigger] r[j]).0@,
        ) by {
            assert(text::sorts_before(m[i].0@, m[j].0@));
        }
        lemma_origins_in(r);
        assert forall|i: int| 0 <= i < m.len() implies origins_in(m).dom().contains(
            (#[trigger] m[i]).0@,
        ) && origins_in(m)[m[i].0@] == read_passages(m[i].1)->0 by {
            if i < r.len() {
                assert(r[i] == m[i]);
                assert(text::sorts_before(m[i].0@, m[m.len() - 1].0@));
                text::sorts_one_way(m[i].0@, m[m.len() - 1].0@);
            }
        }
        assert forall|o: Seq<char>| origins_in(m).dom().contains(o) implies exists|i: int|
            0 <= i < m.len() && (#[trigger] m[i]).0@ == o by {
            if o == m.last().0@ {
                assert(m[m.len() - 1].0@ == o);
            } else {
                assert(origins_in(r).dom().contains(o));
                let i = choose|i: int| 0 <= i < r.len() && (#[trigger] r[i]).0@ == o;
                assert(m[i].0@ == o);
            }
        }
    }
}

/// A list of passages that can be written and read again.
spec fn is_kept_list(x: Json, l: Seq<Highlight>) -> bool {
    &&& read_passages(x) == Some(l)
    &&& json::is_ordered(x)
    &&& json::has_whole_numbers(x)
    &&& json::nests_within(x, (json::MAX_DEPTH - 1) as nat)
}

fn write_passage(h: &Highlight) -> (r: Json)
    ensures
        read_passage(r) == Some(*h),
        json::is_ordered(r),
        json::has_whole_numbers(r),
        json::nests_within(r, 1),
{
    let m: Vec<(String, Json)> = vec![
        json::text_member("color", &h.color),
        json::text_member("prefix", &h.prefix),
        json::text_member("suffix", &h.suffix),
        json::text_member("text", &h.text),
    ];
    proof {
        reveal_strlit("color");
        reveal_strlit("prefix");
        reveal_strlit("suffix");
        reveal_strlit("text");
        text::lemma_sorts_at("color"@, "prefix"@, 0);
        text::lemma_sorts_at("prefix"@, "suffix"@, 0);
        text::lemma_sorts_at("suffix"@, "text"@, 0);
        json::lemma_in_order(m@);
        json::lemma_plain_object(m);
        json::lemma_member_in_order(m@, 0);
        json::lemma_member_in_order(m@, 1);
        json::lemma_member_in_order(m@, 2);
        json::lemma_member_in_order(m@, 3);
        assert forall|i: int| 0 <= i < m@.len() implies json::nests_within(
            (#[trigger] m@[i]).1,
            0,
        ) by {
            assert(m@[i].1 is Text);
        }
    }
    Json::Object(m)
}

fn write_passages(l: &Vec<Highlight>) -> (r: Json)
    ensures
        is_kept_list(r, l@),
{
    let mut out: Vec<Json> = Vec::new();
    let mut i: usize = 0;
    while i < l.len()
        invariant
            i <= l@.len(),
            out@.len() == i,
            forall|j: int| 0 <= j < i ==> read_passage(#[trigger] out@[j]) == Some(l@[j]),
            forall|j: int|
                0 <= j < i ==> json::is_ordered(#[trigger] out@[j]) && json::has_whole_numbers(
                    out@[j],
                ) && json::nests_within(out@[j], (json::MAX_DEPTH - 2) as nat),
        decreases l@.len() - i,
    {
        let x: Json = write_passage(&l[i]);
        proof {
            json::lemma_nests_within(x, 1, (json::MAX_DEPTH - 2) as nat);
        }
        out.push(x);
        i = i + 1;
    }
    assert(Seq::new(out@.len(), |i: int| read_passage(out@[i])->0) =~= l@);
    Json::List(out)
}

fn read_one_passage(j: &Json) -> (r: Option<Highlight>)
    ensures
        r == read_passage(*j),
{
    let text: String = j.get_text("text")?;
    let prefix: String = j.get_text("prefix")?;
    let suffix: String = j.get_text("suffix")?;
    let color: String = j.get_text("color")?;
    Some(Highlight { text, prefix, suffix, color })
}

fn read_list(j: &Json) -> (r: Option<Vec<Highlight>>)
    ensures
        match r {
            Some(l) => read_passages(*j) == Some(l@),
            None => read_passages(*j) is None,
        },
{
    let a: &Vec<Json> = match j {
        Json::List(a) => a,
        _ => {
            return None;
        },
    };
    let mut out: Vec<Highlight> = Vec::new();
    let mut i: usize = 0;
    while i < a.len()
        invariant
            i <= a@.len(),
            *j == Json::List(*a),
            out@.len() == i,
            forall|k: int| 0 <= k < i ==> read_passage(#[trigger] a@[k]) == Some(out@[k]),
        decreases a@.len() - i,
    {
        match read_one_passage(&a[i]) {
            Some(h) => {
                out.push(h);
            },
            None => {
                assert(read_passage(a@[i as int]) is None);
                return None;
            },
        }
        i = i + 1;
    }
    assert(out@ =~= Seq::new(a@.len(), |i: int| read_passage(a@[i])->0));
    Some(out)
}

impl HighlightMap {
    fn to_members(&self) -> (r: Vec<(String, Json)>)
        ensures
            json::is_keepable(Json::Object(r)),
            are_origins(r@),
            origins_in(r@) == self@,
    {
        proof {
            use_type_invariant(&*self);
        }
        let ghost e = self.entries@;
        let mut m: Vec<(String, Json)> = Vec::new();
        let mut i: usize = 0;
        assert(e.take(0) =~= Seq::empty());
        while i < self.entries.len()
            invariant
                i <= self.entries@.len(),
                e == self.entries@,
                distinct(e),
                json::in_order(m@),
                forall|n: Seq<char>| #[trigger]
                    bridge::lookup(m@, n) is Some <==> map_of(e.take(i as int)).dom().contains(n),
                forall|n: Seq<char>| #[trigger]
                    bridge::lookup(m@, n) matches Some(x) ==> is_kept_list(
                        x,
                        map_of(e.take(i as int))[n],
                    ),
            decreases self.entries@.len() - i,
        {
            assert(e.take(i + 1).drop_last() =~= e.take(i as int));
            assert(e.take(i + 1).last() == e[i as int]);
            let x: Json = write_passages(&self.entries[i].1);
            bridge::put_value(&mut m, self.entries[i].0.as_str(), x);
            i = i + 1;
        }
        proof {
            assert(e.take(e.len() as int) =~= e);
            assert forall|k: int| 0 <= k < m@.len() implies bridge::lookup(
                m@,
                (#[trigger] m@[k]).0@,
            ) == Some(m@[k].1) by {
                json::lemma_member_in_order(m@, k);
            }
            assert forall|k: int| 0 <= k < m@.len() implies is_kept_list(
                (#[trigger] m@[k]).1,
                self@[m@[k].0@],
            ) && self@.dom().contains(m@[k].0@) by {
                assert(bridge::lookup(m@, m@[k].0@) == Some(m@[k].1));
            }
            lemma_origins_in(m@);
            assert forall|n: Seq<char>| origins_in(m@).dom().contains(n) == self@.dom().contains(
                n,
            ) by {
                if self@.dom().contains(n) {
                    assert(bridge::lookup(m@, n) is Some);
                    json::lemma_member_place(m@, n);
                    let k = json::member_place(m@, n)->0;
                    assert(m@[k].0@ == n);
                }
                if origins_in(m@).dom().contains(n) {
                    let k = choose|k: int| 0 <= k < m@.len() && (#[trigger] m@[k]).0@ == n;
                    assert(self@.dom().contains(m@[k].0@));
                }
            }
            assert forall|n: Seq<char>| origins_in(m@).dom().contains(n) implies origins_in(m@)[n]
                == self@[n] by {
                let k = choose|k: int| 0 <= k < m@.len() && (#[trigger] m@[k]).0@ == n;
                assert(is_kept_list(m@[k].1, self@[m@[k].0@]));
            }
            assert(origins_in(m@) =~= self@);
        }
        m
    }

    /// Writes the passages as a text, from which they can be read again.
    pub fn to_text(&self) -> (r: String)
        ensures
            passages_in(r@) == Some(self@),
    {
        json::to_compact(&Json::Object(self.to_members()))
    }

    /// Reads passages from a text.
    pub fn from_text(s: &str) -> (r: Option<HighlightMap>)
        ensures
            match r {
                Some(m) => passages_in(s@) == Some(m@),
                None => passages_in(s@) is None,
            },
    {
        let m: Vec<(String, Json)> = match json::parse_json(s)? {
            Json::Object(m) => m,
            _ => {
                return None;
            },
        };
        let mut out: HighlightMap = HighlightMap::new();
        let mut i: usize = 0;
        while i < m.len()
            invariant
                i <= m@.len(),
                json::parsed_json(s@) == Some(Json::Object(m)),
                out@ == origins_in(m@.take(i as int)),
                forall|k: int| 0 <= k < i ==> read_passages((#[trigger] m@[k]).1) is Some,
            decreases m@.len() - i,
        {
            assert(m@.take(i + 1).drop_last() =~= m@.take(i as int));
            assert(m@.take(i + 1).last() == m@[i as int]);
            match read_list(&m[i].1) {
                Some(l) => {
                    out.put(m[i].0.as_str(), l);
                },
                None => {
                    assert(read_passages(m@[i as int].1) is None);
                    return None;
                },
            }
            i = i + 1;
        }
        assert(m@.take(m@.len() as int) =~= m@);
        Some(out)
    }
}

/// The passages that were kept in a file, given the text that it was decrypted to.
pub open spec fn kept_passages(plain: Option<String>) -> Option<Map<Seq<char>, Seq<Highlight>>> {
    match plain {
        Some(s) => passages_in(s@),
        None => None,
    }
}

/// The passages of an origin that are handed out: none while the store is locked.
pub open spec fn shown_passages(
    unlocked: bool,
    m: Map<Seq<char>, Seq<Highlight>>,
    origin: Seq<char>,
) -> Seq<Highlight> {
    if unlocked {
        passages(m, origin)
    } else {
        Seq::empty()
    }
}

/// The passages in memory, and where they are kept.
pub struct HighlightStore {
    path: String,
    by_origin: HighlightMap,
    unlocked: bool,
}

impl HighlightStore {
    /// Where the passages are kept.
    pub closed spec fn path_view(&self) -> Seq<char> {
        self.path@
    }

    /// The passages of each origin.
    pub closed spec fn map_view(&self) -> Map<Seq<char>, Seq<Highlight>> {
        self.by_origin@
    }

    /// The passages can be read.
    pub closed spec fn unlocked_view(&self) -> bool {
        self.unlocked
    }

    /// A locked store for the file at this path.
    pub fn load(path: String) -> (r: HighlightStore)
        ensures
            r.path_view() == path@,
            r.map_view() == Map::<Seq<char>, Seq<Highlight>>::empty(),
            !r.unlocked_view(),
    {
        HighlightStore { path, by_origin: HighlightMap::new(), unlocked: false }
    }

    /// Where the passages are kept.
    pub fn path(&self) -> (r: &str)
        ensures
            r@ == self.path_view(),
    {
        self.path.as_str()
    }

    pub fn is_unlocked(&self) -> (r: bool)
        ensures
            r == self.unlocked_view(),
    {
        self.unlocked
    }

    /// The passages saved for an origin; none where there are none or the store is locked.
    pub fn for_origin(&self, origin: &str) -> (r: &[Highlight])
        ensures
            r@ == shown_passages(self.unlocked_view(), self.map_view(), origin@),
            !self.unlocked_view() ==> r@.len() == 0,
    {
        if !self.unlocked {
            let none: &[Highlight] = &[];
            assert(none@ =~= Seq::<Highlight>::empty());
            return none;
        }
        self.by_origin.get(origin)
    }

    /// The text that is encrypted and written to the file. A store that is unlocked with it holds
    /// the passages of this one.
    pub fn save(&self) -> (r: String)
        ensures
            kept_passages(Some(r)) == Some(self.map_view()),
    {
        self.by_origin.to_text()
    }

    /// Adds a passage to an origin's.
    pub fn add(&mut self, origin: &str, hl: Highlight)
        ensures
            final(self).map_view() == old(self).map_view().insert(
                origin@,
                passages(old(self).map_view(), origin@).push(hl),
            ),
            final(self).path_view() == old(self).path_view(),
            final(self).unlocked_view() == old(self).unlocked_view(),
    {
        self.by_origin.add(origin, hl);
    }

    /// Unlocks the store, given what the file holds (`None` if it cannot be read) and what came of
    /// decrypting it: the error of a wrong passphrase, or the text, or nothing where it was none. A
    /// missing or empty file unlocks the store as it is; a text that holds no passages empties it;
    /// an error leaves everything as it is.
    pub fn unlock(
        &mut self,
        blob: Option<&Vec<u8>>,
        opened: Result<Option<String>, String>,
    ) -> (r: Result<(), String>)
        ensures
            final(self).path_view() == old(self).path_view(),
            if blob is None || blob->0@.len() == 0 {
                r is Ok && final(self).unlocked_view() && final(self).map_view() == old(self).map_view()
            } else {
                match opened {
                    Err(e) => r == Err::<(), String>(e) && *final(self) == *old(self),
                    Ok(t) => r is Ok && final(self).unlocked_view() && final(self).map_view()
                        == match kept_passages(t) {
                        Some(m) => m,
                        None => Map::empty(),
                    },
                }
            },
    {
        match blob {
            Some(b) => {
                if b.len() > 0 {
                    match opened {
                        Err(e) => {
                            return Err(e);
                        },
                        Ok(Some(s)) => {
                            self.by_origin = match HighlightMap::from_text(s.as_str()) {
                                Some(m) => m,
                                None => HighlightMap::new(),
                            };
                        },
                        Ok(None) => {
                            self.by_origin = HighlightMap::new();
                        },
                    }
                }
            },
            None => {},
        }
        self.unlocked = true;
        Ok(())
    }

    /// Forgets the passages.
    pub fn lock(&mut self)
        ensures
            final(self).map_view() == Map::<Seq<char>, Seq<Highlight>>::empty(),
            !final(self).unlocked_view(),
            final(self).path_view() == old(self).path_view(),
    {
        self.by_origin = HighlightMap::new();
        self.unlocked = false;
    }
}

/// A passage that is added to an origin is the last of that origin's, and no other origin's
/// passages change.
pub proof fn added_passages_are_found(
    m: Map<Seq<char>, Seq<Highlight>>,
    origin: Seq<char>,
    hl: Highlight,
    other: Seq<char>,
)
    ensures
        ({
            let n = m.insert(origin, passages(m, origin).push(hl));
            &&& passages(n, origin) == passages(m, origin).push(hl)
            &&& passages(n, origin).last() == hl
            &&& other != origin ==> passages(n, other) == passages(m, other)
        }),
{
}

/// A store that is locked hands out nothing for any origin, whatever was added to it; one that has
/// been locked and is unlocked with no file hands out nothing either.
pub proof fn locked_stores_are_empty(m: Map<Seq<char>, Seq<Highlight>>, origin: Seq<char>)
    ensures
        shown_passages(false, m, origin) == Seq::<Highlight>::empty(),
        shown_passages(true, Map::empty(), origin) == Seq::<Highlight>::empty(),
{
}

// ---------------------------------------------------------------------------
// Laws
// ---------------------------------------------------------------------------

/// Each part of a passage is kept under its own name.
pub proof fn parts_are_kept_under_their_names(j: Json)
    ensures
        read_passage(j) matches Some(p) ==> json::member_string(j, "text"@) == Some(p.text)
            && json::member_string(j, "prefix"@) == Some(p.prefix) && json::member_string(j, "suffix"@)
            == Some(p.suffix) && json::member_string(j, "color"@) == Some(p.color),
        read_passage(j) is None ==> json::member_string(j, "text"@) is None || json::member_string(
            j,
            "prefix"@,
        ) is None || json::member_string(j, "suffix"@) is None || json::member_string(j, "color"@) is None,
{
}

/// An unlocked store hands out the passages of the origin that is asked for, and of no other.
pub proof fn unlocked_stores_hand_out_their_passages(
    m: Map<Seq<char>, Seq<Highlight>>,
    origin: Seq<char>,
)
    ensures
        m.dom().contains(origin) ==> shown_passages(true, m, origin) == m[origin],
        !m.dom().contains(origin) ==> shown_passages(true, m, origin).len() == 0,
{
}

} // verus!

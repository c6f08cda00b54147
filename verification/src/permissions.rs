//! The permission ledger: what the user has allowed or blocked for good, site by site.

use vstd::prelude::*;
use vstd::string::*;

use crate::address;
use crate::text;

verus! {

/// A standing answer: the origin, the feature, and whether it is allowed.
pub type GrantView = (Seq<char>, Seq<char>, bool);

/// The standing answers of a list; a later one replaces an earlier one.
pub open spec fn ledger_map(e: Seq<GrantView>) -> Map<(Seq<char>, Seq<char>), bool>
    decreases e.len(),
{
    if e.len() == 0 {
        Map::empty()
    } else {
        ledger_map(e.drop_last()).insert((e.last().0, e.last().1), e.last().2)
    }
}

/// No two answers are for the same origin and feature.
pub open spec fn distinct(e: Seq<GrantView>) -> bool {
    forall|i: int, j: int|
        0 <= i < j < e.len() ==> ((#[trigger] e[i]).0, e[i].1) != ((#[trigger] e[j]).0, e[j].1)
}

/// The line that holds an answer.
pub open spec fn grant_line(g: GrantView) -> Seq<char> {
    g.0 + "\t"@ + g.1 + "\t"@ + if g.2 {
        "1"@
    } else {
        "0"@
    }
}

/// The file that holds the answers, one on each line.
pub open spec fn ledger_text(e: Seq<GrantView>) -> Seq<char> {
    text::strung(Seq::new(e.len(), |i: int| grant_line(e[i]) + seq!['\n']))
}

/// The answer on a line: an origin, a feature and a mark, which is `1` where it is allowed. A
/// line with fewer parts holds none.
pub open spec fn read_grant(line: Seq<char>) -> Option<GrantView> {
    let p = text::pieces(line, '\t', 3);
    if p.len() == 3 {
        Some((p[0], p[1], text::trimmed(p[2]) == "1"@))
    } else {
        None
    }
}

/// The standing answers of a file.
pub open spec fn read_ledger(lines: Seq<Seq<char>>) -> Map<(Seq<char>, Seq<char>), bool>
    decreases lines.len(),
{
    if lines.len() == 0 {
        Map::empty()
    } else {
        let rest = read_ledger(lines.drop_last());
        match read_grant(lines.last()) {
            Some(g) => rest.insert((g.0, g.1), g.2),
            None => rest,
        }
    }
}

/// A name that a line of the ledger can hold.
pub open spec fn is_plain(s: Seq<char>) -> bool {
    !s.contains('\t') && !s.contains('\n')
}

proof fn lemma_grant_line(g: GrantView)
    requires
        is_plain(g.0),
        is_plain(g.1),
    ensures
        read_grant(grant_line(g)) == Some(g),
        !grant_line(g).contains('\n'),
        text::without_cr(grant_line(g)) == grant_line(g),
{
    reveal_strlit("\t");
    reveal_strlit("1");
    reveal_strlit("0");
    let v = if g.2 {
        "1"@
    } else {
        "0"@
    };
    assert("\t"@ =~= seq!['\t']);
    assert(v.len() == 1);
    assert(!v.contains('\t') && !v.contains('\n'));
    let rest = g.1 + "\t"@ + v;
    assert(grant_line(g) =~= g.0 + seq!['\t'] + rest);
    text::lemma_first_piece(g.0, rest, '\t', 3);
    assert(rest =~= g.1 + seq!['\t'] + v);
    text::lemma_first_piece(g.1, v, '\t', 2);
    text::lemma_whole_piece(v, '\t', 1);
    assert(text::pieces(grant_line(g), '\t', 3) =~= seq![g.0, g.1, v]);
    text::lemma_trimmed_same(v);
    if !g.2 {
        assert(v[0] != "1"@[0]);
    }
    let line = grant_line(g);
    assert(line.last() == v[0]);
    assert forall|i: int| 0 <= i < line.len() implies line[i] != '\n' by {
        if i < g.0.len() {
            assert(line[i] == g.0[i]);
        } else if i == g.0.len() {
        } else if i < g.0.len() + 1 + g.1.len() {
            assert(line[i] == g.1[i - g.0.len() - 1]);
        }
    }
}

proof fn lemma_read_lines(e: Seq<GrantView>, n: nat)
    requires
        n <= e.len(),
        forall|i: int| 0 <= i < e.len() ==> is_plain((#[trigger] e[i]).0) && is_plain(e[i].1),
    ensures
        read_ledger(Seq::new(e.len(), |i: int| grant_line(e[i])).take(n as int)) == ledger_map(
            e.take(n as int),
        ),
    decreases n,
{
    let lines = Seq::new(e.len(), |i: int| grant_line(e[i]));
    if n > 0 {
        lemma_read_lines(e, (n - 1) as nat);
        lemma_grant_line(e[n - 1]);
        assert(lines.take(n as int).drop_last() =~= lines.take(n - 1));
        assert(lines.take(n as int).last() == grant_line(e[n - 1]));
        assert(e.take(n as int).drop_last() =~= e.take(n - 1));
        assert(e.take(n as int).last() == e[n - 1]);
    }
}

/// A ledger that is saved and loaded holds the answers that it held, where no origin or feature
/// has a tab or a line break in it.
pub proof fn ledger_round_trip(e: Seq<GrantView>)
    requires
        forall|i: int| 0 <= i < e.len() ==> is_plain((#[trigger] e[i]).0) && is_plain(e[i].1),
    ensures
        read_ledger(text::lines_of(ledger_text(e))) == ledger_map(e),
{
    let lines = Seq::new(e.len(), |i: int| grant_line(e[i]));
    assert forall|i: int| 0 <= i < lines.len() implies !(#[trigger] lines[i]).contains('\n')
        && text::without_cr(lines[i]) == lines[i] by {
        lemma_grant_line(e[i]);
    }
    text::lemma_lines_of_strung(lines);
    assert(Seq::new(lines.len(), |i: int| lines[i] + seq!['\n']) =~= Seq::new(
        e.len(),
        |i: int| grant_line(e[i]) + seq!['\n'],
    ));
    lemma_read_lines(e, e.len());
    assert(lines.take(e.len() as int) =~= lines);
    assert(e.take(e.len() as int) =~= e);
}

proof fn lemma_ledger_map(e: Seq<GrantView>)
    requires
        distinct(e),
    ensures
        forall|i: int|
            0 <= i < e.len() ==> ledger_map(e).dom().contains(((#[trigger] e[i]).0, e[i].1))
                && ledger_map(e)[(e[i].0, e[i].1)] == e[i].2,
        forall|k: (Seq<char>, Seq<char>)| #[trigger]
            ledger_map(e).dom().contains(k) ==> exists|i: int|
                0 <= i < e.len() && ((#[trigger] e[i]).0, e[i].1) == k,
    decreases e.len(),
{
    if e.len() > 0 {
        let r = e.drop_last();
        assert forall|i: int, j: int| 0 <= i < j < r.len() implies ((#[trigger] r[i]).0, r[i].1)
            != ((#[trigger] r[j]).0, r[j].1) by {
            assert((e[i].0, e[i].1) != (e[j].0, e[j].1));
        }
        lemma_ledger_map(r);
        assert forall|i: int| 0 <= i < e.len() implies ledger_map(e).dom().contains(
            ((#[trigger] e[i]).0, e[i].1),
        ) && ledger_map(e)[(e[i].0, e[i].1)] == e[i].2 by {
            if i < r.len() {
                assert(r[i] == e[i]);
                assert((e[i].0, e[i].1) != (e[e.len() - 1].0, e[e.len() - 1].1));
            }
        }
        assert forall|k: (Seq<char>, Seq<char>)| #[trigger]
            ledger_map(e).dom().contains(k) implies exists|i: int|
            0 <= i < e.len() && ((#[trigger] e[i]).0, e[i].1) == k by {
            if k == (e.last().0, e.last().1) {
                assert((e[e.len() - 1].0, e[e.len() - 1].1) == k);
            } else {
                assert(ledger_map(r).dom().contains(k));
                let i = choose|i: int| 0 <= i < r.len() && ((#[trigger] r[i]).0, r[i].1) == k;
                assert((e[i].0, e[i].1) == k);
            }
        }
    }
}

proof fn lemma_ledger_update(e: Seq<GrantView>, i: int, g: GrantView)
    requires
        distinct(e),
        0 <= i < e.len(),
        (g.0, g.1) == (e[i].0, e[i].1),
    ensures
        distinct(e.update(i, g)),
        ledger_map(e.update(i, g)) == ledger_map(e).insert((g.0, g.1), g.2),
    decreases e.len(),
{
    let u = e.update(i, g);
    assert forall|a: int, b: int| 0 <= a < b < u.len() implies ((#[trigger] u[a]).0, u[a].1) != ((
    #[trigger] u[b]).0, u[b].1) by {
        assert((e[a].0, e[a].1) != (e[b].0, e[b].1));
    }
    let r = e.drop_last();
    assert(distinct(r)) by {
        assert forall|a: int, b: int| 0 <= a < b < r.len() implies ((#[trigger] r[a]).0, r[a].1)
            != ((#[trigger] r[b]).0, r[b].1) by {
            assert((e[a].0, e[a].1) != (e[b].0, e[b].1));
        }
    }
    if i == e.len() - 1 {
        assert(u.drop_last() =~= r);
        assert(ledger_map(u) =~= ledger_map(e).insert((g.0, g.1), g.2));
    } else {
        assert(r[i] == e[i]);
        lemma_ledger_update(r, i, g);
        assert(u.drop_last() =~= r.update(i, g));
        assert((e[i].0, e[i].1) != (e[e.len() - 1].0, e[e.len() - 1].1));
        assert(ledger_map(u) =~= ledger_map(e).insert((g.0, g.1), g.2));
    }
}

/// The answers of a list of grants.
pub open spec fn grant_views(v: Seq<(String, String, bool)>) -> Seq<GrantView> {
    Seq::new(v.len(), |i: int| (v[i].0@, v[i].1@, v[i].2))
}

/// The user's standing answers.
pub struct Ledger {
    grants: Vec<(String, String, bool)>,
}

impl View for Ledger {
    type V = Map<(Seq<char>, Seq<char>), bool>;

    open spec fn view(&self) -> Map<(Seq<char>, Seq<char>), bool> {
        ledger_map(self.entries())
    }
}

/// What a page that asks for a permission gets.
#[derive(Debug)]
pub enum PermissionStep {
    Allow,
    Deny,
    /// The user is asked, with this message.
    Ask(String),
}

/// What the user answers.
#[derive(Clone, Copy, Debug, PartialEq, Eq, Structural)]
pub enum PermissionAnswer {
    AllowOnce,
    AllowAlways,
    BlockAlways,
    Deny,
}

/// Whether an answer allows what was asked.
pub open spec fn allows(a: PermissionAnswer) -> bool {
    a == PermissionAnswer::AllowOnce || a == PermissionAnswer::AllowAlways
}

/// Whether an answer stands for good.
pub open spec fn stands(a: PermissionAnswer) -> bool {
    a == PermissionAnswer::AllowAlways || a == PermissionAnswer::BlockAlways
}

/// The ledger after an answer.
pub open spec fn after_answer(
    m: Map<(Seq<char>, Seq<char>), bool>,
    origin: Seq<char>,
    feature: Seq<char>,
    a: PermissionAnswer,
) -> Map<(Seq<char>, Seq<char>), bool> {
    if stands(a) {
        m.insert((origin, feature), allows(a))
    } else {
        m
    }
}

/// Who asks, for the message.
pub open spec fn asker(origin: Seq<char>) -> Seq<char> {
    if origin.len() == 0 {
        "This site"@
    } else {
        origin
    }
}

/// The question that the user is asked.
pub open spec fn question(origin: Seq<char>, feature: Seq<char>) -> Seq<char> {
    asker(origin) + " is requesting permission: "@ + feature
}

/// The origin of the page that asks; empty where it has none.
pub open spec fn asking_origin(url: Option<Seq<char>>) -> Seq<char> {
    match url {
        Some(u) => match address::origin_of_text(u) {
            Some(o) => o,
            None => Seq::empty(),
        },
        None => Seq::empty(),
    }
}

/// The origin of the page that asks.
pub fn origin_that_asks(url: Option<&str>) -> (r: String)
    ensures
        r@ == asking_origin(
            match url {
                Some(u) => Some(u@),
                None => None,
            },
        ),
{
    let o: Option<String> = match url {
        Some(u) => address::origin_of(u),
        None => None,
    };
    match o {
        Some(s) => s,
        None => {
            let s: String = String::new();
            assert(s@ =~= Seq::<char>::empty());
            s
        },
    }
}

impl Ledger {
    #[verifier::type_invariant]
    spec fn wf(&self) -> bool {
        distinct(grant_views(self.grants@))
    }

    /// The answers in the order in which they are saved.
    pub closed spec fn entries(&self) -> Seq<GrantView> {
        grant_views(self.grants@)
    }

    /// No standing answers.
    pub fn new() -> (r: Ledger)
        ensures
            r@ == Map::<(Seq<char>, Seq<char>), bool>::empty(),
    {
        Ledger { grants: Vec::new() }
    }

    fn find(&self, origin: &str, feature: &str) -> (r: Option<usize>)
        ensures
            match r {
                Some(i) => i < self.grants@.len() && self.grants@[i as int].0@ == origin@
                    && self.grants@[i as int].1@ == feature@ && self@.dom().contains(
                    (origin@, feature@),
                ) && self@[(origin@, feature@)] == self.grants@[i as int].2,
                None => !self@.dom().contains((origin@, feature@)) && forall|j: int|
                    0 <= j < self.entries().len() ==> ((#[trigger] self.entries()[j]).0,
                    self.entries()[j].1) != (origin@, feature@),
            },
    {
        let ghost e = grant_views(self.grants@);
        proof {
            use_type_invariant(&*self);
            lemma_ledger_map(e);
        }
        let mut i: usize = 0;
        while i < self.grants.len()
            invariant
                i <= self.grants@.len(),
                e == grant_views(self.grants@),
                distinct(e),
                forall|j: int| 0 <= j < i ==> ((#[trigger] e[j]).0, e[j].1) != (origin@, feature@),
            decreases self.grants@.len() - i,
        {
            assert(e[i as int] == (
                self.grants@[i as int].0@,
                self.grants@[i as int].1@,
                self.grants@[i as int].2,
            ));
            if text::same(self.grants[i].0.as_str(), origin) && text::same(
                self.grants[i].1.as_str(),
                feature,
            ) {
                proof {
                    lemma_ledger_map(e);
                }
                return Some(i);
            }
            i = i + 1;
        }
        None
    }

    /// The standing answer for an origin and a feature.
    pub fn get(&self, origin: &str, feature: &str) -> (r: Option<bool>)
        ensures
            r == if self@.dom().contains((origin@, feature@)) {
                Some(self@[(origin@, feature@)])
            } else {
                None
            },
    {
        match self.find(origin, feature) {
            Some(i) => Some(self.grants[i].2),
            None => None,
        }
    }

    /// Sets the standing answer for an origin and a feature.
    pub fn insert(&mut self, origin: &str, feature: &str, allowed: bool)
        ensures
            final(self)@ == old(self)@.insert((origin@, feature@), allowed),
    {
        let at: Option<usize> = self.find(origin, feature);
        proof {
            use_type_invariant(&*self);
        }
        let mut grants: Vec<(String, String, bool)> = Vec::new();
        std::mem::swap(&mut grants, &mut self.grants);
        let ghost e = grant_views(grants@);
        let x: (String, String, bool) = (origin.to_owned(), feature.to_owned(), allowed);
        let ghost g = (origin@, feature@, allowed);
        match at {
            Some(i) => {
                proof {
                    lemma_ledger_update(e, i as int, g);
                }
                grants.set(i, x);
                assert(grant_views(grants@) =~= e.update(i as int, g));
            },
            None => {
                grants.push(x);
                proof {
                    assert(grant_views(grants@) =~= e.push(g));
                    assert(e.push(g).drop_last() =~= e);
                }
            },
        }
        self.grants = grants;
    }

    /// Reads a ledger from its file.
    pub fn load(file: &str) -> (r: Ledger)
        ensures
            r@ == read_ledger(text::lines_of(file@)),
    {
        let lines: Vec<String> = text::lines(file);
        let ghost all = text::texts(lines@);
        let mut out: Ledger = Ledger::new();
        let mut i: usize = 0;
        while i < lines.len()
            invariant
                i <= lines@.len(),
                all == text::texts(lines@),
                out@ == read_ledger(all.take(i as int)),
            decreases lines@.len() - i,
        {
            assert(all.take(i + 1).drop_last() =~= all.take(i as int));
            assert(all.take(i + 1).last() == all[i as int]);
            let c: Vec<String> = text::split_at_most(lines[i].as_str(), '\t', 3);
            assert(text::texts(c@).len() == c@.len());
            if c.len() == 3 {
                let v: String = text::trim(c[2].as_str());
                let allowed: bool = text::same(v.as_str(), "1");
                out.insert(c[0].as_str(), c[1].as_str(), allowed);
            }
            i = i + 1;
        }
        assert(all.take(lines@.len() as int) =~= all);
        out
    }

    /// The file that holds this ledger.
    pub fn save(&self) -> (r: String)
        ensures
            r@ == ledger_text(self.entries()),
            distinct(self.entries()),
    {
        proof {
            use_type_invariant(&*self);
        }
        let ghost e = grant_views(self.grants@);
        let ghost lines = Seq::new(e.len(), |i: int| grant_line(e[i]) + seq!['\n']);
        let mut out: String = String::new();
        let mut i: usize = 0;
        assert(out@ =~= text::strung(lines.take(0)));
        while i < self.grants.len()
            invariant
                i <= self.grants@.len(),
                e == grant_views(self.grants@),
                lines == Seq::new(e.len(), |i: int| grant_line(e[i]) + seq!['\n']),
                out@ == text::strung(lines.take(i as int)),
            decreases self.grants@.len() - i,
        {
            let ghost before = out@;
            let mut line: String = self.grants[i].0.clone();
            line.append("\t");
            line.append(self.grants[i].1.as_str());
            line.append("\t");
            line.append(
                if self.grants[i].2 {
                    "1"
                } else {
                    "0"
                },
            );
            assert(line@ == grant_line(e[i as int]));
            out.append(line.as_str());
            out.push('\n');
            assert(lines.take(i + 1).drop_last() =~= lines.take(i as int));
            assert(out@ =~= before + (grant_line(e[i as int]) + seq!['\n']));
            i = i + 1;
        }
        assert(lines.take(e.len() as int) =~= lines);
        out
    }

    /// Decides what a page that asks for a permission gets: a standing answer where there is one,
    /// and otherwise the user is asked.
    pub fn request(&self, origin: &str, feature: &str) -> (r: PermissionStep)
        ensures
            match r {
                PermissionStep::Allow => self@.dom().contains((origin@, feature@)) && self@[(
                    origin@,
                    feature@,
                )],
                PermissionStep::Deny => self@.dom().contains((origin@, feature@)) && !self@[(
                    origin@,
                    feature@,
                )],
                PermissionStep::Ask(m) => !self@.dom().contains((origin@, feature@)) && m@
                    == question(origin@, feature@),
            },
    {
        match self.get(origin, feature) {
            Some(true) => PermissionStep::Allow,
            Some(false) => PermissionStep::Deny,
            None => {
                let mut m: String = if origin.unicode_len() == 0 {
                    "This site".to_owned()
                } else {
                    origin.to_owned()
                };
                m.append(" is requesting permission: ");
                m.append(feature);
                PermissionStep::Ask(m)
            },
        }
    }

    /// Takes the user's answer. Tells whether the page gets the permission, and whether the
    /// ledger is to be saved.
    pub fn answer(&mut self, origin: &str, feature: &str, a: PermissionAnswer) -> (r: (bool, bool))
        ensures
            final(self)@ == after_answer(old(self)@, origin@, feature@, a),
            r == (allows(a), stands(a)),
    {
        match a {
            PermissionAnswer::AllowOnce => (true, false),
            PermissionAnswer::AllowAlways => {
                self.insert(origin, feature, true);
                (true, true)
            },
            PermissionAnswer::BlockAlways => {
                self.insert(origin, feature, false);
                (false, true)
            },
            PermissionAnswer::Deny => (false, false),
        }
    }
}

/// An answer that stands is the answer to the same question from then on, and no other question
/// is answered by it; an answer that does not stand is forgotten.
pub proof fn standing_answers_hold(
    m: Map<(Seq<char>, Seq<char>), bool>,
    origin: Seq<char>,
    feature: Seq<char>,
    a: PermissionAnswer,
    other: (Seq<char>, Seq<char>),
)
    requires
        other != (origin, feature),
    ensures
        stands(a) ==> after_answer(m, origin, feature, a).dom().contains((origin, feature))
            && after_answer(m, origin, feature, a)[(origin, feature)] == allows(a),
        !stands(a) ==> after_answer(m, origin, feature, a) == m,
        after_answer(m, origin, feature, a).dom().contains(other) == m.dom().contains(other),
        m.dom().contains(other) ==> after_answer(m, origin, feature, a)[other] == m[other],
{
}

// ---------------------------------------------------------------------------
// Laws
// ---------------------------------------------------------------------------

/// What each answer means: once or for good it is allowed, blocked or denied it is not; only the two
/// answers for good are kept, and they are kept as they were given.
pub proof fn answers_mean_what_they_say(
    m: Map<(Seq<char>, Seq<char>), bool>,
    origin: Seq<char>,
    feature: Seq<char>,
)
    ensures
        allows(PermissionAnswer::AllowOnce),
        allows(PermissionAnswer::AllowAlways),
        !allows(PermissionAnswer::BlockAlways),
        !allows(PermissionAnswer::Deny),
        after_answer(m, origin, feature, PermissionAnswer::AllowAlways) == m.insert(
            (origin, feature),
            true,
        ),
        after_answer(m, origin, feature, PermissionAnswer::BlockAlways) == m.insert(
            (origin, feature),
            false,
        ),
        after_answer(m, origin, feature, PermissionAnswer::AllowOnce) == m,
        after_answer(m, origin, feature, PermissionAnswer::Deny) == m,
        stands(PermissionAnswer::AllowAlways) && stands(PermissionAnswer::BlockAlways),
        !stands(PermissionAnswer::AllowOnce) && !stands(PermissionAnswer::Deny),
{
}

/// The question names who asks and what for; a page without an origin is called a site.
pub proof fn the_question_names_the_site(origin: Seq<char>, feature: Seq<char>)
    ensures
        origin.len() > 0 ==> question(origin, feature) == origin + " is requesting permission: "@
            + feature,
        question(Seq::empty(), feature) == "This site is requesting permission: "@ + feature,
{
    reveal_strlit("This site");
    reveal_strlit(" is requesting permission: ");
    reveal_strlit("This site is requesting permission: ");
    assert("This site"@ + " is requesting permission: "@ =~= "This site is requesting permission: "@);
}

/// A line of the ledger that says `1` allows, and one that says anything else blocks; a line with
/// fewer than three parts says nothing.
pub proof fn ledger_lines_say_what_they_say(origin: Seq<char>, feature: Seq<char>, mark: Seq<char>)
    requires
        !origin.contains('\t'),
        !feature.contains('\t'),
    ensures
        read_grant(origin + seq!['\t'] + (feature + seq!['\t'] + mark)) == Some(
            (origin, feature, text::trimmed(mark) == "1"@),
        ),
        read_grant(origin) is None,
        read_grant(origin + seq!['\t'] + feature) is None,
{
    text::lemma_first_piece(origin, feature + seq!['\t'] + mark, '\t', 3);
    text::lemma_first_piece(feature, mark, '\t', 2);
    assert(text::pieces(mark, '\t', 1) == seq![mark]);
    text::lemma_whole_piece(origin, '\t', 3);
    text::lemma_first_piece(origin, feature, '\t', 3);
    text::lemma_whole_piece(feature, '\t', 2);
    assert(text::pieces(origin + seq!['\t'] + feature, '\t', 3).len() == 2);
}

} // verus!

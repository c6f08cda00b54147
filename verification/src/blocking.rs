//! Blocking ads and trackers: which requests are stopped, and which elements are hidden.

use vstd::prelude::*;
use vstd::string::*;
use vstd::utf8::*;

use crate::address;
use crate::codec;
use crate::json;
use crate::json::Json;
use crate::reports;
use crate::text;
use crate::window;
use crate::window::TabWindow;

verus! {

/// How old, in seconds, a filter list may be before it is fetched again.
pub const LIST_AGE: u64 = 604_800;

// ---------------------------------------------------------------------------
// The filter engine
// ---------------------------------------------------------------------------

/// The filter engine of the `adblock` crate.
#[verifier::external_type_specification]
#[verifier::external_body]
pub struct ExEngine(adblock::Engine);

/// The rules that an engine holds.
pub uninterp spec fn engine_rules(e: adblock::Engine) -> Seq<Seq<char>>;

/// Builds an engine with `adblock::Engine::from_rules` and the default options. It holds the
/// rules given.
#[verifier::external_body]
fn engine_from_rules(rules: &Vec<String>) -> (r: adblock::Engine)
    ensures
        engine_rules(r) == text::texts(rules@),
{
    adblock::Engine::from_rules(rules, adblock::lists::ParseOptions::default())
}

/// What `adblock::request::Request::new` and `adblock::Engine::check_network_request` say of a
/// request under some rules: whether a blocking rule matches, or nothing where the addresses
/// cannot be read.
pub uninterp spec fn rule_matches(
    rules: Seq<Seq<char>>,
    url: Seq<char>,
    source: Seq<char>,
    kind: Seq<char>,
) -> Option<bool>;

/// Asks an engine about a request with `adblock::request::Request::new` and
/// `adblock::Engine::check_network_request`. The answer depends on the engine's rules and on the
/// request.
#[verifier::external_body]
fn check_request(e: &adblock::Engine, url: &str, source: &str, kind: &str) -> (r: Option<bool>)
    ensures
        r == rule_matches(engine_rules(*e), url@, source@, kind@),
{
    let request = adblock::request::Request::new(url, source, kind).ok()?;
    Some(e.check_network_request(&request).matched)
}

/// The selectors that `adblock::Engine::url_cosmetic_resources` hides on a page.
pub uninterp spec fn page_selectors(rules: Seq<Seq<char>>, url: Seq<char>) -> Set<Seq<char>>;

/// The selectors that `adblock::Engine::hidden_class_id_selectors` hides among these classes and
/// ids, with the page's own exceptions.
pub uninterp spec fn name_selectors(
    rules: Seq<Seq<char>>,
    url: Seq<char>,
    classes: Seq<Seq<char>>,
    ids: Seq<Seq<char>>,
) -> Set<Seq<char>>;

/// Asks an engine what to hide on a page, with `adblock::Engine::url_cosmetic_resources` and then
/// `adblock::Engine::hidden_class_id_selectors`, which is given the page's exceptions. The first
/// list comes from a hash set, so its order is open; which selectors there are depends on the
/// engine's rules, the address, the classes and the ids.
#[verifier::external_body]
fn selectors_to_hide(
    e: &adblock::Engine,
    url: &str,
    classes: &Vec<String>,
    ids: &Vec<String>,
) -> (r: (Vec<String>, Vec<String>))
    ensures
        text::texts(r.0@).to_set() == page_selectors(engine_rules(*e), url@),
        text::texts(r.1@).to_set() == name_selectors(
            engine_rules(*e),
            url@,
            text::texts(classes@),
            text::texts(ids@),
        ),
{
    let page = e.url_cosmetic_resources(url);
    let named = e.hidden_class_id_selectors(classes, ids, &page.exceptions);
    (page.hide_selectors.into_iter().collect(), named)
}

// ---------------------------------------------------------------------------
// Requests
// ---------------------------------------------------------------------------

/// Is this request stopped? Only web requests are, only where the user blocks ads, and only where
/// a rule matches.
pub open spec fn stopped(
    scheme: Seq<char>,
    block_ads: bool,
    matches: Option<bool>,
) -> bool {
    address::is_web_scheme(scheme) && block_ads && matches == Some(true)
}

/// Decides whether a request is stopped, given what the engine says of it.
pub fn is_stopped(scheme: &str, block_ads: bool, matches: Option<bool>) -> (r: bool)
    ensures
        r == stopped(scheme@, block_ads, matches),
{
    match matches {
        Some(true) => block_ads && address::web_scheme(scheme),
        _ => false,
    }
}

/// The scheme of an address; nothing where it is none.
pub open spec fn scheme_in(url: Seq<char>) -> Seq<char> {
    match address::parsed_url(url) {
        Some(u) => u.scheme,
        None => Seq::empty(),
    }
}

/// Decides whether a request that a page makes is stopped.
pub fn blocks(e: &adblock::Engine, url: &str, source: &str, block_ads: bool) -> (r: bool)
    ensures
        r == stopped(
            scheme_in(url@),
            block_ads,
            rule_matches(engine_rules(*e), url@, source@, "other"@),
        ),
{
    let scheme: String = match address::parse_url(url) {
        Some(u) => u.scheme,
        None => String::new(),
    };
    assert(scheme@ =~= scheme_in(url@));
    is_stopped(scheme.as_str(), block_ads, check_request(e, url, source, "other"))
}

/// Does a rule of the engine match a request of this kind?
pub fn matches_rule(e: &adblock::Engine, url: &str, source: &str, kind: &str) -> (r: bool)
    ensures
        r == (rule_matches(engine_rules(*e), url@, source@, kind@) == Some(true)),
{
    match check_request(e, url, source, kind) {
        Some(b) => b,
        None => false,
    }
}

/// The address of the page that makes a request: that of its tab, or nothing where there is none.
pub open spec fn page_of(w: window::WindowView, id: u64) -> Seq<char> {
    match window::located(w, id) {
        Some((p, i)) => w.pane(p).tabs[i as int].url,
        None => Seq::empty(),
    }
}

impl TabWindow {
    /// Decides whether a request that a tab makes is stopped, and puts one that is on the tab's
    /// receipt. Whether a request counts as one to another site goes by the tab's address.
    pub fn check_request(
        &mut self,
        e: &adblock::Engine,
        id: u64,
        url: &str,
        block_ads: bool,
    ) -> (r: bool)
        ensures
            r == stopped(
                scheme_in(url@),
                block_ads,
                rule_matches(engine_rules(*e), url@, page_of(old(self)@, id), "other"@),
            ),
            final(self)@ == match window::located(old(self)@, id) {
                Some((p, i)) => if r {
                    reports::with_receipt(old(self)@, p, i, url@)
                } else {
                    old(self)@
                },
                None => old(self)@,
            },
            old(self)@.wf() ==> final(self)@.wf(),
    {
        let at: Option<(usize, usize)> = self.locate_tab(id);
        let source: String = match at {
            Some(x) => self.pane(x.0).tabs[x.1].url.clone(),
            None => String::new(),
        };
        assert(source@ =~= page_of(self@, id));
        let r: bool = blocks(e, url, source.as_str(), block_ads);
        if r {
            match at {
                Some(x) => {
                    self.note_blocked(x.0, x.1, url);
                },
                None => {},
            }
        }
        r
    }
}

// ---------------------------------------------------------------------------
// Elements
// ---------------------------------------------------------------------------

/// The texts in a list; what is no text is left out.
pub open spec fn list_texts(l: Seq<Json>) -> Seq<Seq<char>>
    decreases l.len(),
{
    if l.len() == 0 {
        Seq::empty()
    } else {
        match l.last() {
            Json::Text(s) => list_texts(l.drop_last()).push(s@),
            _ => list_texts(l.drop_last()),
        }
    }
}

/// The texts in a member that is a list.
pub open spec fn member_texts(doc: Json, name: Seq<char>) -> Seq<Seq<char>> {
    match json::member(doc, name) {
        Some(Json::List(l)) => list_texts(l@),
        _ => Seq::empty(),
    }
}

/// The texts in a member that is a list.
pub fn texts_of_member(doc: &Json, name: &str) -> (r: Vec<String>)
    ensures
        text::texts(r@) == member_texts(*doc, name@),
{
    let mut out: Vec<String> = Vec::new();
    assert(text::texts(out@) =~= Seq::<Seq<char>>::empty());
    match doc.get(name) {
        Some(Json::List(l)) => {
            let mut i: usize = 0;
            while i < l.len()
                invariant
                    i <= l@.len(),
                    text::texts(out@) == list_texts(l@.take(i as int)),
                decreases l@.len() - i,
            {
                let ghost before = text::texts(out@);
                assert(l@.take(i + 1).drop_last() =~= l@.take(i as int));
                assert(l@.take(i + 1).last() == l@[i as int]);
                match &l[i] {
                    Json::Text(s) => {
                        out.push(s.clone());
                        assert(text::texts(out@) =~= before.push(s@));
                    },
                    _ => {},
                }
                i = i + 1;
            }
            assert(l@.take(l@.len() as int) =~= l@);
        },
        _ => {},
    }
    out
}

/// The style that hides some selectors; none where there is nothing to hide.
pub open spec fn hiding_style(selectors: Seq<Seq<char>>) -> Option<Seq<char>> {
    if selectors.len() == 0 {
        None
    } else {
        Some(text::joined(selectors, ","@) + "{display:none!important}"@)
    }
}

/// The style that hides some selectors.
pub fn style_for(selectors: &Vec<String>) -> (r: Option<String>)
    ensures
        address::optional_text(r) == hiding_style(text::texts(selectors@)),
{
    if selectors.len() == 0 {
        None
    } else {
        let mut out: String = text::join(selectors, ",");
        out.append("{display:none!important}");
        Some(out)
    }
}

/// The style for a page, given what the page says of its classes and ids (a JSON text with the
/// lists `c` and `i`); none where it says nothing readable or nothing is to be hidden. The style
/// hides the page's own selectors and those found among its classes and ids, and no others.
pub fn cosmetic_style(e: &adblock::Engine, url: &str, report: &str) -> (r: Option<String>)
    ensures
        match json::parsed_json(report@) {
            None => r is None,
            Some(doc) => exists|s: Seq<Seq<char>>|
                #![trigger hiding_style(s)]
                address::optional_text(r) == hiding_style(s) && s.to_set() == page_selectors(
                    engine_rules(*e),
                    url@,
                ).union(
                    name_selectors(
                        engine_rules(*e),
                        url@,
                        member_texts(doc, "c"@),
                        member_texts(doc, "i"@),
                    ),
                ),
        },
{
    let doc: Json = match json::parse_json(report) {
        None => {
            return None;
        },
        Some(d) => d,
    };
    let classes: Vec<String> = texts_of_member(&doc, "c");
    let ids: Vec<String> = texts_of_member(&doc, "i");
    let lists: (Vec<String>, Vec<String>) = selectors_to_hide(e, url, &classes, &ids);
    let mut all: Vec<String> = lists.0;
    let mut named: Vec<String> = lists.1;
    let ghost a = text::texts(all@);
    let ghost b = text::texts(named@);
    all.append(&mut named);
    proof {
        let s = text::texts(all@);
        assert(s =~= a + b);
        assert(s.to_set() =~= a.to_set().union(b.to_set())) by {
            assert forall|x: Seq<char>| s.to_set().contains(x) <==> a.to_set().union(
                b.to_set(),
            ).contains(x) by {
                if a.contains(x) {
                    let i = choose|i: int| 0 <= i < a.len() && a[i] == x;
                    assert(s[i] == x);
                }
                if b.contains(x) {
                    let i = choose|i: int| 0 <= i < b.len() && b[i] == x;
                    assert(s[a.len() + i] == x);
                }
            }
        }
    }
    let r: Option<String> = style_for(&all);
    assert(address::optional_text(r) == hiding_style(text::texts(all@)));
    r
}

/// The script that puts a style into a page, in the place of the one put in before.
pub open spec fn style_script(css: Seq<char>) -> Seq<char> {
    "(function(c){var s=document.getElementById('__ng_cos')||document.createElement('style');s.id='__ng_cos';s.textContent=c;(document.head||document.documentElement).appendChild(s);})("@
        + codec::script_literal(css) + ")"@
}

/// The script that puts a style into a page.
pub fn inject_style(css: &str) -> (r: String)
    ensures
        r@ == style_script(css@),
{
    let mut out: String = "(function(c){var s=document.getElementById('__ng_cos')||document.createElement('style');s.id='__ng_cos';s.textContent=c;(document.head||document.documentElement).appendChild(s);})(".to_owned();
    out.append(codec::js_string(css).as_str());
    out.append(")");
    out
}

// ---------------------------------------------------------------------------
// Filter lists
// ---------------------------------------------------------------------------

/// The lines of the bundled list and of the fetched lists that are there.
pub open spec fn all_rules(bundled: Seq<char>, fetched: Seq<Option<Seq<char>>>) -> Seq<Seq<char>>
    decreases fetched.len(),
{
    if fetched.len() == 0 {
        text::lines_of(bundled)
    } else {
        let rest = all_rules(bundled, fetched.drop_last());
        match fetched.last() {
            Some(f) => rest + text::lines_of(f),
            None => rest,
        }
    }
}

pub open spec fn optional_texts(v: Seq<Option<String>>) -> Seq<Option<Seq<char>>> {
    Seq::new(v.len(), |i: int| address::optional_text(v[i]))
}

/// Builds the engine that the browser filters with: it holds the rules of the bundled list and of
/// the fetched lists that are there.
pub fn filter_engine(bundled: &str, fetched: &Vec<Option<String>>) -> (r: adblock::Engine)
    ensures
        engine_rules(r) == all_rules(bundled@, optional_texts(fetched@)),
{
    engine_from_rules(&load_filter_rules(bundled, fetched))
}

/// All filter rules: the bundled list, and the fetched lists that are there.
pub fn load_filter_rules(bundled: &str, fetched: &Vec<Option<String>>) -> (r: Vec<String>)
    ensures
        text::texts(r@) == all_rules(bundled@, optional_texts(fetched@)),
{
    let mut out: Vec<String> = text::lines(bundled);
    let ghost all = optional_texts(fetched@);
    let mut i: usize = 0;
    while i < fetched.len()
        invariant
            i <= fetched@.len(),
            all == optional_texts(fetched@),
            text::texts(out@) == all_rules(bundled@, all.take(i as int)),
        decreases fetched@.len() - i,
    {
        assert(all.take(i + 1).drop_last() =~= all.take(i as int));
        assert(all.take(i + 1).last() == all[i as int]);
        match &fetched[i] {
            Some(f) => {
                let ghost before = out@;
                let mut more: Vec<String> = text::lines(f.as_str());
                let ghost m = more@;
                out.append(&mut more);
                assert(text::texts(out@) =~= text::texts(before) + text::texts(m));
            },
            None => {},
        }
        i = i + 1;
    }
    assert(all.take(fetched@.len() as int) =~= all);
    out
}

/// Is a list of this age to be fetched again? One whose age is not known is.
pub fn is_stale(age: Option<u64>) -> (r: bool)
    ensures
        r == !(age matches Some(a) && a < LIST_AGE),
{
    match age {
        Some(a) => !(a < LIST_AGE),
        None => true,
    }
}

/// Is this a filter list rather than an error page? It is long, and says so.
pub fn is_filter_list(body: &str) -> (r: bool)
    ensures
        r == (encode_utf8(body@).len() > 10_000 && text::has(body@, "[Adblock"@)),
{
    body.as_bytes().len() > 10_000 && text::contains(body, "[Adblock")
}

// ---------------------------------------------------------------------------
// Laws
// ---------------------------------------------------------------------------

/// The style of one selector is the selector and its block; each further selector is put behind a
/// comma, before the same block. So every selector is hidden by itself.
pub proof fn selectors_are_listed(s: Seq<Seq<char>>, x: Seq<char>, head: Seq<char>)
    ensures
        hiding_style(seq![x]) == Some(x + "{display:none!important}"@),
        s.len() > 0 && hiding_style(s) == Some(head + "{display:none!important}"@) ==> hiding_style(
            s.push(x),
        ) == Some(head + ","@ + x + "{display:none!important}"@),
        hiding_style(Seq::empty()) is None,
{
    assert(s.push(x).drop_last() =~= s);
    if s.len() > 0 && hiding_style(s) == Some(head + "{display:none!important}"@) {
        let block = "{display:none!important}"@;
        let h = text::joined(s, ","@);
        assert(h + block == head + block);
        assert((h + block).len() == (head + block).len());
        assert(h =~= (h + block).take(h.len() as int));
        assert(head =~= (head + block).take(head.len() as int));
    }
}

/// Two selectors are hidden each by itself, not one inside the other.
pub proof fn two_selectors_are_both_hidden(a: Seq<char>, b: Seq<char>)
    ensures
        hiding_style(seq![a, b]) == Some(a + ","@ + b + "{display:none!important}"@),
{
    selectors_are_listed(seq![a], b, a);
    assert(seq![a].push(b) =~= seq![a, b]);
}

proof fn lemma_listed(s: Seq<Seq<char>>)
    requires
        s.len() > 0,
        forall|i: int| 0 <= i < s.len() ==> !(#[trigger] s[i]).contains(','),
    ensures
        text::pieces(text::joined(s, ","@), ',', s.len() + 1) == s,
    decreases s.len(),
{
    reveal_strlit(",");
    assert(","@ =~= seq![',']);
    if s.len() == 1 {
        text::lemma_whole_piece(s[0], ',', 2);
        assert(s =~= seq![s[0]]);
    } else {
        let t = s.skip(1);
        assert forall|i: int| 0 <= i < t.len() implies !(#[trigger] t[i]).contains(',') by {
            assert(t[i] == s[i + 1]);
        }
        lemma_listed(t);
        lemma_joined_first(s);
        text::lemma_first_piece(s[0], text::joined(t, ","@), ',', s.len() + 1);
        assert(s =~= seq![s[0]] + t);
    }
}

proof fn lemma_joined_first(s: Seq<Seq<char>>)
    requires
        s.len() > 1,
    ensures
        text::joined(s, ","@) == s[0] + ","@ + text::joined(s.skip(1), ","@),
    decreases s.len(),
{
    let t = s.skip(1);
    if s.len() == 2 {
        assert(s.drop_last() =~= seq![s[0]]);
        assert(t =~= seq![s[1]]);
        reveal_with_fuel(text::joined, 2);
    } else {
        lemma_joined_first(s.drop_last());
        assert(s.drop_last().skip(1) =~= t.drop_last());
        assert(t.last() == s.last());
        assert(text::joined(s, ","@) =~= s[0] + ","@ + text::joined(t, ","@));
    }
}

/// A style gives its selectors back: up to its block, it splits at the commas into the selectors it
/// was made from, where none of them holds a comma itself.
pub proof fn a_style_gives_its_selectors_back(s: Seq<Seq<char>>)
    requires
        s.len() > 0,
        forall|i: int| 0 <= i < s.len() ==> !(#[trigger] s[i]).contains(','),
    ensures
        hiding_style(s) matches Some(css) && "{display:none!important}"@.is_suffix_of(css)
            && text::pieces(
            css.take(css.len() - "{display:none!important}"@.len()),
            ',',
            s.len() + 1,
        ) == s,
{
    lemma_listed(s);
    let head = text::joined(s, ","@);
    let block = "{display:none!important}"@;
    assert((head + block).take(head.len() as int) =~= head);
    assert((head + block).skip(head.len() as int) =~= block);
}

/// A web request that a rule matches is stopped where the user blocks ads; one that no rule matches, one
/// of another scheme, and any where the user does not block ads goes through.
pub proof fn matched_web_requests_are_stopped(scheme: Seq<char>, on: bool, matches: Option<bool>)
    ensures
        stopped("http"@, true, Some(true)),
        stopped("https"@, true, Some(true)),
        !stopped(scheme, false, matches),
        !stopped(scheme, on, Some(false)),
        !stopped(scheme, on, None),
        scheme != "http"@ && scheme != "https"@ ==> !stopped(scheme, on, matches),
{
}

/// A request is stopped by its own scheme, and what is no address is not.
pub proof fn requests_are_stopped_by_their_scheme(url: Seq<char>)
    ensures
        address::parsed_url(url) matches Some(u) ==> scheme_in(url) == u.scheme,
        address::parsed_url(url) is None ==> scheme_in(url).len() == 0,
{
}

/// The rules are the lines of the bundled list and then those of each fetched list that is there.
pub proof fn fetched_lists_add_their_rules(
    bundled: Seq<char>,
    fetched: Seq<Option<Seq<char>>>,
    list: Seq<char>,
)
    ensures
        all_rules(bundled, Seq::empty()) == text::lines_of(bundled),
        all_rules(bundled, fetched.push(Some(list))) == all_rules(bundled, fetched) + text::lines_of(list),
        all_rules(bundled, fetched.push(None)) == all_rules(bundled, fetched),
{
    assert(fetched.push(Some(list)).drop_last() =~= fetched);
    assert(fetched.push(None).drop_last() =~= fetched);
}

/// Of a list each text is taken, in order, and nothing else.
pub proof fn the_texts_of_a_list_are_taken(l: Seq<Json>, s: String, other: Json)
    requires
        !(other is Text),
    ensures
        list_texts(Seq::empty()).len() == 0,
        list_texts(l.push(Json::Text(s))) == list_texts(l).push(s@),
        list_texts(l.push(other)) == list_texts(l),
{
    assert(l.push(Json::Text(s)).drop_last() =~= l);
    assert(l.push(other).drop_last() =~= l);
}

} // verus!

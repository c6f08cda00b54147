//! The bridge through which add-ons reach the browser: who calls, what they may do, and what they
//! are answered.

use std::collections::hash_map::DefaultHasher;
use std::hash::Hasher;

use vstd::prelude::*;
use vstd::std_specs::hash::*;
use vstd::string::*;
use vstd::utf8::*;

use crate::addons;
use crate::addons::{Addon, AddonView, Permission, Registry};
use crate::address;
use crate::json;
use crate::json::Json;
use crate::number;
use crate::text;

verus! {

// ---------------------------------------------------------------------------
// Tokens
// ---------------------------------------------------------------------------

/// What is fed to the hasher for a token: the salt, after its length, and the id, which a byte
/// that no text holds ends.
pub open spec fn token_writes(salt: Seq<u8>, id: Seq<char>) -> Seq<Seq<u8>> {
    seq![
        seq![16u8, 0u8, 0u8, 0u8, 0u8, 0u8, 0u8, 0u8],
        salt,
        encode_utf8(id),
        seq![0xffu8],
    ]
}

/// The token by which an add-on is known on the bridge: sixteen hexadecimal digits that depend on
/// this run's secret and on the add-on's id.
pub open spec fn cap_token(salt: Seq<u8>, id: Seq<char>) -> Seq<char> {
    number::hex_padded(DefaultHasher::spec_finish(token_writes(salt, id)) as nat, 16)
}

/// The token by which an add-on is known on the bridge.
pub fn addon_cap_token(salt: &[u8; 16], id: &str) -> (r: String)
    ensures
        r@ == cap_token(salt@, id@),
{
    let mut h: DefaultHasher = DefaultHasher::new();
    h.write(&[16u8, 0u8, 0u8, 0u8, 0u8, 0u8, 0u8, 0u8]);
    h.write(salt);
    h.write(id.as_bytes());
    h.write(&[0xffu8]);
    assert(h@ =~~= token_writes(salt@, id@));
    number::hex16(h.finish())
}

/// The add-on that a token belongs to: the first that is switched on and has it.
pub open spec fn caller(e: Seq<AddonView>, salt: Seq<u8>, cap: Seq<char>) -> Option<AddonView>
    decreases e.len(),
{
    if e.len() == 0 {
        None
    } else if e[0].enabled && cap_token(salt, e[0].id) == cap {
        Some(e[0])
    } else {
        caller(e.skip(1), salt, cap)
    }
}

/// The add-on that a token belongs to.
fn find_caller<'a>(reg: &'a Registry, salt: &[u8; 16], cap: &str) -> (r: Option<&'a Addon>)
    ensures
        match r {
            Some(a) => caller(reg@, salt@, cap@) == Some(a@),
            None => caller(reg@, salt@, cap@) is None,
        },
{
    let ghost e = reg@;
    let mut i: usize = 0;
    assert(e.skip(0) =~= e);
    while i < reg.addons.len()
        invariant
            i <= reg.addons@.len(),
            e == addons::addon_views(reg.addons@),
            caller(e, salt@, cap@) == caller(e.skip(i as int), salt@, cap@),
        decreases reg.addons@.len() - i,
    {
        assert(e.skip(i as int)[0] == reg.addons@[i as int]@);
        if reg.addons[i].enabled {
            let t: String = addon_cap_token(salt, reg.addons[i].id.as_str());
            if text::same(t.as_str(), cap) {
                return Some(&reg.addons[i]);
            }
        }
        assert(e.skip(i as int).skip(1) =~= e.skip(i + 1));
        i = i + 1;
    }
    None
}

// ---------------------------------------------------------------------------
// Hosts
// ---------------------------------------------------------------------------

/// An entry of an add-on's list of hosts allows a host: it is a star, or the host itself, or a
/// domain that the host is under. A leading `*.` and capitals make no difference.
pub open spec fn entry_allows(entry: Seq<char>, host: Seq<char>) -> bool {
    let e = text::lowered(text::without_leading(text::trimmed(entry), "*."@));
    let h = text::lowered(host);
    text::trimmed(entry) == "*"@ || e == h || ("."@ + e).is_suffix_of(h)
}

/// Some entry of an add-on's list of hosts allows a host.
pub open spec fn allows_host(connect: Seq<Seq<char>>, host: Seq<char>) -> bool {
    exists|i: int| 0 <= i < connect.len() && entry_allows(#[trigger] connect[i], host)
}

/// Does an add-on's list of hosts allow this one?
pub fn connect_allows(connect: &Vec<String>, host: &str) -> (r: bool)
    ensures
        r == allows_host(text::texts(connect@), host@),
{
    let ghost all = text::texts(connect@);
    let h: String = text::to_lower(host);
    proof {
        reveal_strlit("*.");
    }
    let mut i: usize = 0;
    while i < connect.len()
        invariant
            i <= connect@.len(),
            all == text::texts(connect@),
            h@ == text::lowered(host@),
            "*."@.len() == 2,
            forall|j: int| 0 <= j < i ==> !entry_allows(#[trigger] all[j], host@),
        decreases connect@.len() - i,
    {
        let t: String = text::trim(connect[i].as_str());
        let e: String = text::to_lower(text::trim_start_matches(t.as_str(), "*.").as_str());
        let mut under: String = ".".to_owned();
        under.append(e.as_str());
        if text::same(t.as_str(), "*") || text::same(e.as_str(), h.as_str()) || text::ends_with(
            h.as_str(),
            under.as_str(),
        ) {
            assert(entry_allows(all[i as int], host@));
            return true;
        }
        assert(!entry_allows(all[i as int], host@));
        i = i + 1;
    }
    false
}

/// An add-on that names no host may fetch from none.
pub proof fn no_hosts_without_a_list(host: Seq<char>)
    ensures
        !allows_host(Seq::empty(), host),
{
}

// ---------------------------------------------------------------------------
// Calls
// ---------------------------------------------------------------------------

/// What is to be done about a call.
pub enum BridgeStep {
    /// Refuse it, for this reason.
    Deny(&'static str),
    /// List the keys of this add-on's store.
    List(String),
    /// Read a key of this add-on's store.
    Get(String, String),
    /// Set a key of this add-on's store.
    Put(String, String, Json),
    /// Delete a key of this add-on's store.
    Delete(String, String),
}

/// `BridgeStep` as mathematical values.
#[verifier::ext_equal]
pub enum StepView {
    Deny(Seq<char>),
    List(Seq<char>),
    Get(Seq<char>, Seq<char>),
    Put(Seq<char>, Seq<char>, Json),
    Delete(Seq<char>, Seq<char>),
}

impl View for BridgeStep {
    type V = StepView;

    open spec fn view(&self) -> StepView {
        match self {
            BridgeStep::Deny(s) => StepView::Deny(s@),
            BridgeStep::List(id) => StepView::List(id@),
            BridgeStep::Get(id, k) => StepView::Get(id@, k@),
            BridgeStep::Put(id, k, v) => StepView::Put(id@, k@, *v),
            BridgeStep::Delete(id, k) => StepView::Delete(id@, k@),
        }
    }
}

/// The arguments of a call: the JSON text of its first `a`, or null.
pub open spec fn call_args(pairs: Seq<(Seq<char>, Seq<char>)>) -> Json {
    match address::first_value(pairs, "a"@) {
        Some(v) => match json::parsed_json(v) {
            Some(j) => j,
            None => Json::Null,
        },
        None => Json::Null,
    }
}

/// The permission that a call needs; a call without one is unknown.
pub open spec fn needed(call: Seq<char>) -> Option<Permission> {
    if call == "storage.list"@ || call == "storage.get"@ || call == "storage.set"@ || call
        == "storage.delete"@ {
        Some(Permission::Storage)
    } else if call == "net.fetch"@ {
        Some(Permission::CrossOriginFetch)
    } else if call == "notify.show"@ {
        Some(Permission::Notifications)
    } else if call == "tabs.open"@ {
        Some(Permission::TabControl)
    } else if call == "clipboard.set"@ {
        Some(Permission::Clipboard)
    } else {
        None
    }
}

/// Why a fetch is refused. A host that the add-on's list allows is refused too, since fetching is
/// not there yet.
pub open spec fn fetch_refusal(connect: Seq<Seq<char>>, args: Json) -> Seq<char> {
    match json::member_text(args, "url"@) {
        None => "bad-args"@,
        Some(u) => match address::parsed_url(u) {
            Some(p) => match p.host {
                Some(h) => if allows_host(connect, h) {
                    "net-fetch-unimplemented"@
                } else {
                    "connect-not-allowed"@
                },
                None => "bad-url"@,
            },
            None => "bad-url"@,
        },
    }
}

/// What is to be done about a call of an add-on that has the permission for it.
pub open spec fn permitted_step(a: AddonView, call: Seq<char>, args: Json) -> StepView {
    let key = json::member_text(args, "key"@);
    if call == "storage.list"@ {
        StepView::List(a.id)
    } else if call == "net.fetch"@ {
        StepView::Deny(fetch_refusal(a.connect, args))
    } else if call == "notify.show"@ || call == "tabs.open"@ || call == "clipboard.set"@ {
        StepView::Deny("not-implemented"@)
    } else if key is None {
        StepView::Deny("bad-args"@)
    } else if call == "storage.get"@ {
        StepView::Get(a.id, key->0)
    } else if call == "storage.set"@ {
        StepView::Put(
            a.id,
            key->0,
            match json::member(args, "value"@) {
                Some(v) => v,
                None => Json::Null,
            },
        )
    } else {
        StepView::Delete(a.id, key->0)
    }
}

/// What is to be done about a call. Its path holds a slash, the caller's token, a slash and the
/// call's name.
pub open spec fn called(
    e: Seq<AddonView>,
    salt: Seq<u8>,
    path: Seq<char>,
    pairs: Seq<(Seq<char>, Seq<char>)>,
) -> StepView {
    if path.len() == 0 || path[0] != '/' {
        StepView::Deny("bad-path"@)
    } else {
        let p = text::pieces(path.skip(1), '/', 3);
        let call = if p.len() > 1 {
            p[1]
        } else {
            Seq::empty()
        };
        if p[0].len() == 0 {
            StepView::Deny("no-cap"@)
        } else {
            match caller(e, salt, p[0]) {
                None => StepView::Deny("bad-cap"@),
                Some(a) => match needed(call) {
                    None => StepView::Deny("unknown-call"@),
                    Some(n) => if a.granted.holds(n) {
                        permitted_step(a, call, call_args(pairs))
                    } else {
                        StepView::Deny("permission-denied"@)
                    },
                },
            }
        }
    }
}

fn needed_for(call: &str) -> (r: Option<Permission>)
    ensures
        r == needed(call@),
{
    if text::same(call, "storage.list") || text::same(call, "storage.get") || text::same(
        call,
        "storage.set",
    ) || text::same(call, "storage.delete") {
        Some(Permission::Storage)
    } else if text::same(call, "net.fetch") {
        Some(Permission::CrossOriginFetch)
    } else if text::same(call, "notify.show") {
        Some(Permission::Notifications)
    } else if text::same(call, "tabs.open") {
        Some(Permission::TabControl)
    } else if text::same(call, "clipboard.set") {
        Some(Permission::Clipboard)
    } else {
        None
    }
}

/// The arguments of a call.
pub fn read_args(pairs: &Vec<(String, String)>) -> (r: Json)
    ensures
        r == call_args(address::pair_texts(pairs@)),
{
    match address::find_value(pairs, "a") {
        Some(v) => match json::parse_json(v.as_str()) {
            Some(j) => j,
            None => Json::Null,
        },
        None => Json::Null,
    }
}

fn refuse_fetch(connect: &Vec<String>, args: &Json) -> (r: &'static str)
    ensures
        r@ == fetch_refusal(text::texts(connect@), *args),
{
    match args.get_text("url") {
        None => "bad-args",
        Some(u) => match address::parse_url(u.as_str()) {
            Some(p) => match p.host {
                Some(h) => {
                    if connect_allows(connect, h.as_str()) {
                        "net-fetch-unimplemented"
                    } else {
                        "connect-not-allowed"
                    }
                },
                None => "bad-url",
            },
            None => "bad-url",
        },
    }
}

/// Takes a member out of a document that is no longer needed.
fn take_member(j: Json, name: &str) -> (r: Option<Json>)
    ensures
        r == json::member(j, name@),
{
    match j {
        Json::Object(m) => {
            let mut members: Vec<(String, Json)> = m;
            match json::find_member(&members, name) {
                Some(i) => Some(members.remove(i).1),
                None => None,
            }
        },
        _ => None,
    }
}

/// Decides a call of an add-on that has the permission for it, given its arguments.
pub fn permitted_call(a: &Addon, call: &str, args: Json) -> (r: BridgeStep)
    requires
        needed(call@) is Some,
    ensures
        r@ == permitted_step(a@, call@, args),
{
    if text::same(call, "storage.list") {
        return BridgeStep::List(a.id.clone());
    }
    if text::same(call, "net.fetch") {
        return BridgeStep::Deny(refuse_fetch(&a.connect, &args));
    }
    if text::same(call, "notify.show") || text::same(call, "tabs.open") || text::same(
        call,
        "clipboard.set",
    ) {
        return BridgeStep::Deny("not-implemented");
    }
    match args.get_text("key") {
        None => BridgeStep::Deny("bad-args"),
        Some(k) => {
            if text::same(call, "storage.get") {
                BridgeStep::Get(a.id.clone(), k)
            } else if text::same(call, "storage.set") {
                let value: Json = match take_member(args, "value") {
                    Some(v) => v,
                    None => Json::Null,
                };
                BridgeStep::Put(a.id.clone(), k, value)
            } else {
                BridgeStep::Delete(a.id.clone(), k)
            }
        },
    }
}

/// Decides what is to be done about a call: who calls, whether they have the permission, and
/// whether the arguments will do.
pub fn handle_gm_bridge(
    reg: &Registry,
    salt: &[u8; 16],
    path: &str,
    pairs: &Vec<(String, String)>,
) -> (r: BridgeStep)
    ensures
        r@ == called(reg@, salt@, path@, address::pair_texts(pairs@)),
{
    let v: Vec<char> = text::chars_of(path);
    if v.len() == 0 || v[0] != '/' {
        return BridgeStep::Deny("bad-path");
    }
    let rest: String = text::string_between(&v, 1, v.len());
    assert(rest@ =~= path@.skip(1));
    let p: Vec<String> = text::split_at_most(rest.as_str(), '/', 3);
    let ghost q = text::texts(p@);
    assert(q.len() == p@.len());
    let cap: &str = p[0].as_str();
    let call: String = if p.len() > 1 {
        p[1].clone()
    } else {
        String::new()
    };
    assert(call@ =~= if q.len() > 1 {
        q[1]
    } else {
        Seq::empty()
    });
    if cap.unicode_len() == 0 {
        return BridgeStep::Deny("no-cap");
    }
    match find_caller(reg, salt, cap) {
        None => BridgeStep::Deny("bad-cap"),
        Some(a) => match needed_for(call.as_str()) {
            None => BridgeStep::Deny("unknown-call"),
            Some(n) => {
                if a.granted.contains(n) {
                    permitted_call(a, call.as_str(), read_args(pairs))
                } else {
                    BridgeStep::Deny("permission-denied")
                }
            },
        },
    }
}

/// Nothing is done for a caller without consent: whatever is not refused is done for an add-on
/// that is switched on, whose token was given, and that holds the permission to use its store; and
/// it is done to that add-on's own store.
pub proof fn the_bridge_asks_for_consent(
    e: Seq<AddonView>,
    salt: Seq<u8>,
    path: Seq<char>,
    pairs: Seq<(Seq<char>, Seq<char>)>,
)
    ensures
        !(called(e, salt, path, pairs) is Deny) ==> {
            let cap = text::pieces(path.skip(1), '/', 3)[0];
            &&& caller(e, salt, cap) is Some
            &&& caller(e, salt, cap)->0.enabled
            &&& cap_token(salt, caller(e, salt, cap)->0.id) == cap
            &&& caller(e, salt, cap)->0.granted.storage
            &&& match called(e, salt, path, pairs) {
                StepView::List(id) => id == caller(e, salt, cap)->0.id,
                StepView::Get(id, k) => id == caller(e, salt, cap)->0.id,
                StepView::Put(id, k, v) => id == caller(e, salt, cap)->0.id,
                StepView::Delete(id, k) => id == caller(e, salt, cap)->0.id,
                StepView::Deny(s) => false,
            }
        },
{
    if path.len() > 0 && path[0] == '/' {
        lemma_caller(e, salt, text::pieces(path.skip(1), '/', 3)[0]);
    }
}

proof fn lemma_caller(e: Seq<AddonView>, salt: Seq<u8>, cap: Seq<char>)
    ensures
        caller(e, salt, cap) matches Some(a) ==> a.enabled && cap_token(salt, a.id) == cap,
    decreases e.len(),
{
    if e.len() > 0 {
        lemma_caller(e.skip(1), salt, cap);
    }
}

// ---------------------------------------------------------------------------
// Stores
// ---------------------------------------------------------------------------

/// The value of the first member with this name.
pub open spec fn lookup(m: Seq<(String, Json)>, name: Seq<char>) -> Option<Json> {
    match json::member_place(m, name) {
        Some(i) => Some(m[i].1),
        None => None,
    }
}

/// The members that a store's file holds; none where it holds no object.
pub open spec fn store_members(doc: Option<Json>) -> Seq<(String, Json)> {
    match doc {
        Some(Json::Object(m)) => m@,
        _ => Seq::empty(),
    }
}

/// Reads an add-on's store from its file. The keys are in order.
pub fn addon_storage_load(file: Option<&str>) -> (r: Vec<(String, Json)>)
    ensures
        json::in_order(r@),
        r@ == store_members(
            match file {
                Some(f) => json::parsed_json(f@),
                None => None,
            },
        ),
{
    let doc: Option<Json> = match file {
        Some(f) => json::parse_json(f),
        None => None,
    };
    match doc {
        Some(Json::Object(m)) => m,
        _ => Vec::new(),
    }
}

/// The file name of an add-on's store.
pub fn addon_storage_path(id: &str) -> (r: String)
    ensures
        r@ == "addon-storage/"@ + id@ + ".json"@,
{
    let mut out: String = "addon-storage/".to_owned();
    out.append(id);
    out.append(".json");
    out
}

/// The file of an add-on's store. What was saved is what is loaded again.
pub fn addon_storage_save(m: Vec<(String, Json)>) -> (r: String)
    ensures
        r@ == json::pretty_json(json::normal_json(Json::Object(m))),
        json::is_keepable(Json::Object(m)) ==> store_members(json::parsed_json(r@)) == m@,
{
    json::to_pretty(&Json::Object(m))
}

/// In a store whose keys are in order, a key is found wherever it stands.
proof fn lemma_lookup(m: Seq<(String, Json)>, name: Seq<char>)
    requires
        json::in_order(m),
    ensures
        json::member_place(m, name) matches Some(i) ==> 0 <= i < m.len() && m[i].0@ == name,
        forall|k: int|
            0 <= k < m.len() && (#[trigger] m[k]).0@ == name ==> json::member_place(m, name)
                == Some(k),
{
    json::lemma_member_place(m, name);
    assert forall|k: int|
        0 <= k < m.len() && (#[trigger] m[k]).0@ == name implies json::member_place(m, name)
        == Some(k) by {
        let i = json::member_place(m, name)->0;
        text::sorts_one_way(name, name);
        if i < k {
            assert(text::sorts_before(m[i].0@, m[k].0@));
        }
    }
}

proof fn lemma_same_names(a: Seq<(String, Json)>, b: Seq<(String, Json)>, name: Seq<char>)
    requires
        a.len() == b.len(),
        forall|i: int| 0 <= i < a.len() ==> (#[trigger] a[i]).0@ == b[i].0@,
    ensures
        json::member_place(a, name) == json::member_place(b, name),
    decreases a.len(),
{
    if a.len() > 0 {
        assert forall|i: int| 0 <= i < a.len() - 1 implies (#[trigger] a.drop_last()[i]).0@
            == b.drop_last()[i].0@ by {
            assert(a.drop_last()[i] == a[i]);
        }
        lemma_same_names(a.drop_last(), b.drop_last(), name);
        assert(a[a.len() - 1].0@ == b[a.len() - 1].0@);
    }
}

/// The place of a key among the members of a store: the first that it does not come after.
fn place_for(m: &Vec<(String, Json)>, key: &str) -> (r: usize)
    requires
        json::in_order(m@),
    ensures
        r <= m@.len(),
        forall|j: int| 0 <= j < r ==> text::sorts_before((#[trigger] m@[j]).0@, key@),
        forall|j: int| r <= j < m@.len() ==> !text::sorts_before((#[trigger] m@[j]).0@, key@),
{
    let mut i: usize = 0;
    while i < m.len() && text::is_before(m[i].0.as_str(), key)
        invariant
            i <= m@.len(),
            forall|j: int| 0 <= j < i ==> text::sorts_before((#[trigger] m@[j]).0@, key@),
        decreases m@.len() - i,
    {
        i = i + 1;
    }
    assert forall|j: int| i <= j < m@.len() implies !text::sorts_before(
        (#[trigger] m@[j]).0@,
        key@,
    ) by {
        if j > i {
            let here = m@[i as int].0@;
            let there = m@[j].0@;
            assert(text::sorts_before(here, there));
            if text::sorts_before(there, key@) {
                text::sorts_one_way(there, key@);
                text::sorts_through(here, there, key@);
            }
        }
    }
    i
}

/// Sets a key of a store whose keys are in order: it then has the value, every other key what it
/// had, and the keys are in order.
pub fn put_value(m: &mut Vec<(String, Json)>, key: &str, value: Json)
    requires
        json::in_order(old(m)@),
    ensures
        json::in_order(final(m)@),
        lookup(final(m)@, key@) == Some(value),
        forall|n: Seq<char>| n != key@ ==> #[trigger] lookup(final(m)@, n) == lookup(old(m)@, n),
{
    let ghost before = m@;
    let at: usize = place_for(m, key);
    let x: (String, Json) = (key.to_owned(), value);
    if at < m.len() && text::same(m[at].0.as_str(), key) {
        m.set(at, x);
        assert forall|i: int, j: int| 0 <= i < j < m@.len() implies text::sorts_before(
            (#[trigger] m@[i]).0@,
            (#[trigger] m@[j]).0@,
        ) by {
            assert(m@[i].0@ == before[i].0@);
            assert(m@[j].0@ == before[j].0@);
        }
        assert forall|n: Seq<char>| #[trigger] lookup(m@, n) == if n == key@ {
            Some(value)
        } else {
            lookup(before, n)
        } by {
            lemma_lookup(m@, n);
            lemma_same_names(m@, before, n);
            json::lemma_member_place(before, n);
            if n == key@ {
                assert(m@[at as int].0@ == n);
            }
        }
    } else {
        m.insert(at, x);
        assert(m@ == before.insert(at as int, x));
        assert forall|i: int, j: int| 0 <= i < j < m@.len() implies text::sorts_before(
            (#[trigger] m@[i]).0@,
            (#[trigger] m@[j]).0@,
        ) by {
            if i == at {
                text::sorts_one_way(before[j - 1].0@, key@);
                if j - 1 > at {
                    let next = before[at as int].0@;
                    assert(text::sorts_before(next, before[j - 1].0@));
                    text::sorts_one_way(next, key@);
                    assert(text::sorts_before(key@, next));
                    text::sorts_one_way(next, before[j - 1].0@);
                    text::sorts_through(key@, next, before[j - 1].0@);
                }
            } else if j == at {
            } else {
                let i0 = if i < at {
                    i
                } else {
                    i - 1
                };
                let j0 = if j < at {
                    j
                } else {
                    j - 1
                };
                assert(m@[i] == before[i0] && m@[j] == before[j0]);
            }
        }
        assert forall|n: Seq<char>| #[trigger] lookup(m@, n) == if n == key@ {
            Some(value)
        } else {
            lookup(before, n)
        } by {
            lemma_lookup(m@, n);
            lemma_lookup(before, n);
            if n == key@ {
                assert(m@[at as int].0@ == n);
            } else if let Some(i) = json::member_place(before, n) {
                let k = if i < at {
                    i
                } else {
                    i + 1
                };
                assert(m@[k] == before[i]);
            } else if let Some(k) = json::member_place(m@, n) {
                let i = if k < at {
                    k
                } else {
                    k - 1
                };
                assert(m@[k] == before[i]);
            }
        }
    }
}

/// The members without those of this name.
pub open spec fn without_key(m: Seq<(String, Json)>, key: Seq<char>) -> Seq<(String, Json)>
    decreases m.len(),
{
    if m.len() == 0 {
        Seq::empty()
    } else if m.last().0@ == key {
        without_key(m.drop_last(), key)
    } else {
        without_key(m.drop_last(), key).push(m.last())
    }
}

proof fn lemma_without_key(m: Seq<(String, Json)>, key: Seq<char>, n: Seq<char>)
    ensures
        lookup(without_key(m, key), n) == if n == key {
            None
        } else {
            lookup(m, n)
        },
    decreases m.len(),
{
    if m.len() > 0 {
        let r = m.drop_last();
        lemma_without_key(r, key, n);
        json::lemma_member_place(r, n);
        let w = without_key(r, key);
        json::lemma_member_place(w, n);
        if m.last().0@ != key {
            assert(w.push(m.last()).drop_last() =~= w);
        }
    }
}

proof fn lemma_without_key_in_order(m: Seq<(String, Json)>, key: Seq<char>)
    requires
        json::in_order(m),
    ensures
        json::in_order(without_key(m, key)),
        forall|i: int|
            0 <= i < without_key(m, key).len() ==> m.contains(#[trigger] without_key(m, key)[i]),
    decreases m.len(),
{
    if m.len() > 0 {
        let r = m.drop_last();
        let w = without_key(r, key);
        lemma_without_key_in_order(r, key);
        assert forall|i: int| 0 <= i < w.len() implies m.contains(#[trigger] w[i]) && (m.last().0@
            != key ==> text::sorts_before(w[i].0@, m.last().0@)) by {
            let j = choose|j: int| 0 <= j < r.len() && r[j] == w[i];
            assert(m[j] == w[i]);
            assert(text::sorts_before(m[j].0@, m[m.len() - 1].0@));
        }
        assert(m.contains(m.last()));
    }
}

/// Deletes a key of a store: it is then gone, every other key has what it had, and keys that were in
/// order still are.
pub fn delete_value(m: &mut Vec<(String, Json)>, key: &str)
    ensures
        json::in_order(old(m)@) ==> json::in_order(final(m)@),
        lookup(final(m)@, key@) is None,
        forall|n: Seq<char>| n != key@ ==> #[trigger] lookup(final(m)@, n) == lookup(old(m)@, n),
{
    let ghost all = m@;
    let mut i: usize = 0;
    let ghost mut n: int = 0;
    assert(all.skip(0) =~= all);
    assert(m@.take(0) =~= without_key(all.take(0), key@));
    while i < m.len()
        invariant
            i <= m@.len(),
            0 <= n <= all.len(),
            m@.take(i as int) == without_key(all.take(n), key@),
            m@.skip(i as int) == all.skip(n),
        decreases m@.len() - i,
    {
        let ghost before = m@;
        assert(before.skip(i as int)[0] == before[i as int]);
        assert(before.skip(i as int).len() == all.skip(n).len());
        assert(all.skip(n)[0] == all[n]);
        assert(all.take(n + 1).drop_last() =~= all.take(n));
        if text::same(m[i].0.as_str(), key) {
            m.remove(i);
            assert(m@.take(i as int) =~= before.take(i as int));
            assert(m@.skip(i as int) =~= before.skip(i as int).skip(1));
        } else {
            assert(before.take(i + 1) =~= before.take(i as int).push(all[n]));
            assert(before.skip(i + 1) =~= before.skip(i as int).skip(1));
            i = i + 1;
        }
        assert(all.skip(n + 1) =~= all.skip(n).skip(1));
        proof {
            n = n + 1;
        }
    }
    assert(all.skip(n).len() == 0);
    assert(all.take(n) =~= all);
    assert(m@.take(i as int) =~= m@);
    proof {
        if json::in_order(all) {
            lemma_without_key_in_order(all, key@);
        }
        assert forall|x: Seq<char>| #[trigger] lookup(m@, x) == if x == key@ {
            None
        } else {
            lookup(all, x)
        } by {
            lemma_without_key(all, key@, x);
        }
    }
}

// ---------------------------------------------------------------------------
// Answers
// ---------------------------------------------------------------------------

/// The answer to a call that is refused.
pub fn deny(reason: &str) -> (r: String)
    ensures
        r@ == "{\"ok\":false,\"error\":\""@ + reason@ + "\"}"@,
{
    let mut out: String = "{\"ok\":false,\"error\":\"".to_owned();
    out.append(reason);
    out.append("\"}");
    out
}

/// The answer to a call that has changed the store, or could not.
pub fn stored_answer(written: bool) -> (r: String)
    ensures
        r@ == if written {
            "{\"ok\":true}"@
        } else {
            "{\"ok\":false,\"error\":\""@ + "storage-write"@ + "\"}"@
        },
{
    if written {
        "{\"ok\":true}".to_owned()
    } else {
        deny("storage-write")
    }
}

/// The answer to a call that asks for a value.
pub open spec fn is_value_answer(doc: Json, value: Option<Json>) -> bool {
    doc matches Json::Object(m) && m@.len() >= 1 && m@[0].0@ == "ok"@ && m@[0].1 == Json::Bool(true)
        && match value {
        Some(v) => m@.len() == 2 && m@[1].0@ == "value"@ && m@[1].1 == v,
        None => m@.len() == 1,
    }
}

/// The answer to a call that asks for a key of a store: its value, or none where it is not there.
pub fn value_answer(m: Vec<(String, Json)>, key: &str) -> (r: String)
    ensures
        exists|doc: Json|
            #![trigger json::normal_json(doc)]
            is_value_answer(doc, lookup(m@, key@)) && r@ == json::compact_json(
                json::normal_json(doc),
            ),
{
    let mut members: Vec<(String, Json)> = m;
    let mut out: Vec<(String, Json)> = Vec::new();
    out.push(("ok".to_owned(), Json::Bool(true)));
    match json::find_member(&members, key) {
        Some(i) => {
            let x: (String, Json) = members.remove(i);
            out.push(("value".to_owned(), x.1));
        },
        None => {},
    }
    let doc: Json = Json::Object(out);
    assert(is_value_answer(doc, lookup(m@, key@)));
    json::to_compact(&doc)
}

/// The names of a store's members.
pub open spec fn member_names(m: Seq<(String, Json)>) -> Seq<Seq<char>> {
    Seq::new(m.len(), |i: int| m[i].0@)
}

/// The answer to a call that asks for a store's keys.
pub open spec fn is_keys_answer(doc: Json, names: Seq<Seq<char>>) -> bool {
    &&& doc matches Json::Object(m)
    &&& m@.len() == 2
    &&& m@[0].0@ == "ok"@
    &&& m@[0].1 == Json::Bool(true)
    &&& m@[1].0@ == "keys"@
    &&& m@[1].1 matches Json::List(l)
    &&& l@.len() == names.len()
    &&& forall|i: int|
        0 <= i < names.len() ==> ((#[trigger] l@[i]) matches Json::Text(s) && s@ == names[i])
}

/// The answer to a call that asks for a store's keys.
pub fn keys_answer(m: &Vec<(String, Json)>) -> (r: String)
    ensures
        exists|doc: Json|
            #![trigger json::normal_json(doc)]
            is_keys_answer(doc, member_names(m@)) && r@ == json::compact_json(
                json::normal_json(doc),
            ),
{
    let ghost names = member_names(m@);
    let mut list: Vec<Json> = Vec::new();
    let mut i: usize = 0;
    while i < m.len()
        invariant
            i <= m@.len(),
            names == member_names(m@),
            list@.len() == i,
            forall|j: int|
                0 <= j < i ==> ((#[trigger] list@[j]) matches Json::Text(s) && s@ == names[j]),
        decreases m@.len() - i,
    {
        list.push(Json::Text(m[i].0.clone()));
        i = i + 1;
    }
    let mut out: Vec<(String, Json)> = Vec::new();
    out.push(("ok".to_owned(), Json::Bool(true)));
    out.push(("keys".to_owned(), Json::List(list)));
    let doc: Json = Json::Object(out);
    assert(is_keys_answer(doc, names));
    json::to_compact(&doc)
}

// ---------------------------------------------------------------------------
// Laws
// ---------------------------------------------------------------------------

/// A token is an add-on's exactly if that add-on is on and the token was made from this run's secret
/// and its id; the first such add-on is the caller.
pub proof fn a_token_names_its_addon(e: Seq<AddonView>, salt: Seq<u8>, cap: Seq<char>)
    ensures
        caller(e, salt, cap) matches Some(a) ==> exists|i: int|
            0 <= i < e.len() && #[trigger] e[i] == a && a.enabled && cap_token(salt, a.id) == cap
                && forall|j: int|
                0 <= j < i ==> !((#[trigger] e[j]).enabled && cap_token(salt, e[j].id) == cap),
        caller(e, salt, cap) is None ==> forall|j: int|
            0 <= j < e.len() ==> !((#[trigger] e[j]).enabled && cap_token(salt, e[j].id) == cap),
    decreases e.len(),
{
    if e.len() > 0 {
        let t = e.skip(1);
        if !(e[0].enabled && cap_token(salt, e[0].id) == cap) {
            a_token_names_its_addon(t, salt, cap);
            match caller(t, salt, cap) {
                Some(a) => {
                    let i = choose|i: int|
                        0 <= i < t.len() && #[trigger] t[i] == a && a.enabled && cap_token(salt, a.id)
                            == cap && forall|j: int|
                            0 <= j < i ==> !((#[trigger] t[j]).enabled && cap_token(salt, t[j].id)
                                == cap);
                    assert(e[i + 1] == a);
                    assert forall|j: int| 0 <= j < i + 1 implies !((#[trigger] e[j]).enabled
                        && cap_token(salt, e[j].id) == cap) by {
                        if j > 0 {
                            assert(t[j - 1] == e[j]);
                        }
                    }
                },
                None => {
                    assert forall|j: int| 0 <= j < e.len() implies !((#[trigger] e[j]).enabled
                        && cap_token(salt, e[j].id) == cap) by {
                        if j > 0 {
                            assert(t[j - 1] == e[j]);
                        }
                    }
                },
            }
        } else {
            assert(e[0] == caller(e, salt, cap)->0);
        }
    }
}

/// A domain on the list allows itself and what is under it, and nothing else: not a domain that only
/// ends in the same letters.
pub proof fn a_listed_domain_allows_what_is_under_it(entry: Seq<char>, host: Seq<char>)
    requires
        text::trimmed(entry) == entry,
        entry != "*"@,
        !"*."@.is_prefix_of(entry),
    ensures
        entry_allows(entry, host) <==> text::lowered(host) == text::lowered(entry) || ("."@
            + text::lowered(entry)).is_suffix_of(text::lowered(host)),
        entry_allows("*"@, host),
{
    reveal_strlit("*");
    reveal_strlit("*.");
    text::lemma_trimmed_same("*"@);
}

/// Each call needs the permission of its own kind, and a call of another name is not known.
pub proof fn calls_need_their_permission(call: Seq<char>)
    ensures
        needed("storage.list"@) == Some(Permission::Storage),
        needed("storage.get"@) == Some(Permission::Storage),
        needed("storage.set"@) == Some(Permission::Storage),
        needed("storage.delete"@) == Some(Permission::Storage),
        needed("net.fetch"@) == Some(Permission::CrossOriginFetch),
        needed("notify.show"@) == Some(Permission::Notifications),
        needed("tabs.open"@) == Some(Permission::TabControl),
        needed("clipboard.set"@) == Some(Permission::Clipboard),
        needed(call) is Some ==> call == "storage.list"@ || call == "storage.get"@ || call
            == "storage.set"@ || call == "storage.delete"@ || call == "net.fetch"@ || call
            == "notify.show"@ || call == "tabs.open"@ || call == "clipboard.set"@,
{
    reveal_strlit("storage.list");
    reveal_strlit("storage.get");
    reveal_strlit("storage.set");
    reveal_strlit("storage.delete");
    reveal_strlit("net.fetch");
    reveal_strlit("notify.show");
    reveal_strlit("tabs.open");
    reveal_strlit("clipboard.set");
    assert("net.fetch"@.len() == 9 && "net.fetch"@[0] == 'n');
    assert("notify.show"@.len() == 11 && "notify.show"@[0] == 'n' && "storage.get"@[0] == 's');
    assert("tabs.open"@.len() == 9 && "tabs.open"@[0] == 't');
    assert("clipboard.set"@.len() == 13 && "clipboard.set"@[0] == 'c');
    assert("storage.list"@.len() == 12 && "storage.get"@.len() == 11 && "storage.set"@.len() == 11
        && "storage.delete"@.len() == 14);
}

/// The calls of the store do what they are called: they list, read, set or delete the key that was
/// given in the caller's own store, and set it to the value that was given.
pub proof fn store_calls_do_what_they_are_called(a: AddonView, args: Json, key: Seq<char>)
    requires
        json::member_text(args, "key"@) == Some(key),
    ensures
        permitted_step(a, "storage.list"@, args) == StepView::List(a.id),
        permitted_step(a, "storage.get"@, args) == StepView::Get(a.id, key),
        permitted_step(a, "storage.delete"@, args) == StepView::Delete(a.id, key),
        json::member(args, "value"@) matches Some(v) ==> permitted_step(a, "storage.set"@, args)
            == StepView::Put(a.id, key, v),
        permitted_step(a, "net.fetch"@, args) is Deny,
{
    reveal_strlit("storage.list");
    reveal_strlit("storage.get");
    reveal_strlit("storage.set");
    reveal_strlit("storage.delete");
    reveal_strlit("net.fetch");
    reveal_strlit("notify.show");
    reveal_strlit("tabs.open");
    reveal_strlit("clipboard.set");
    assert("storage.list"@.len() == 12 && "storage.get"@.len() == 11 && "storage.set"@.len() == 11
        && "storage.delete"@.len() == 14 && "net.fetch"@.len() == 9 && "notify.show"@.len() == 11
        && "tabs.open"@.len() == 9 && "clipboard.set"@.len() == 13);
    assert("storage.get"@[8] == 'g' && "storage.set"@[8] == 's');
    assert("storage.get"@[0] == 's' && "storage.set"@[0] == 's' && "notify.show"@[0] == 'n');
    assert("net.fetch"@[0] == 'n' && "tabs.open"@[0] == 't');
}

/// A caller with its token and its grant gets what it calls for: the path is a slash, the token, a
/// slash and the call. Without the grant it is refused, and so is a token that is nobody's.
pub proof fn granted_calls_are_answered(
    e: Seq<AddonView>,
    salt: Seq<u8>,
    cap: Seq<char>,
    call: Seq<char>,
    pairs: Seq<(Seq<char>, Seq<char>)>,
    p: Permission,
)
    requires
        cap.len() > 0,
        !cap.contains('/'),
        !call.contains('/'),
        needed(call) == Some(p),
    ensures
        caller(e, salt, cap) matches Some(a) ==> {
            &&& a.granted.holds(p) ==> called(
                e,
                salt,
                seq!['/'] + (cap + seq!['/'] + call),
                pairs,
            ) == permitted_step(a, call, call_args(pairs))
            &&& !a.granted.holds(p) ==> called(
                e,
                salt,
                seq!['/'] + (cap + seq!['/'] + call),
                pairs,
            ) == StepView::Deny("permission-denied"@)
        },
        caller(e, salt, cap) is None ==> called(
            e,
            salt,
            seq!['/'] + (cap + seq!['/'] + call),
            pairs,
        ) == StepView::Deny("bad-cap"@),
{
    let path = seq!['/'] + (cap + seq!['/'] + call);
    assert(path.skip(1) =~= cap + seq!['/'] + call);
    text::lemma_first_piece(cap, call, '/', 3);
    text::lemma_whole_piece(call, '/', 2);
    assert(text::pieces(path.skip(1), '/', 3) =~= seq![cap, call]);
}

/// A fetch is refused for its own reason: one to a host that the list does not allow because of that.
pub proof fn fetches_need_a_listed_host(connect: Seq<Seq<char>>, args: Json, u: Seq<char>)
    requires
        json::member_text(args, "url"@) == Some(u),
    ensures
        address::parsed_url(u) matches Some(p) ==> (p.host matches Some(h) ==> (!allows_host(connect, h)
            ==> fetch_refusal(connect, args) == "connect-not-allowed"@) && (allows_host(connect, h)
            ==> fetch_refusal(connect, args) == "net-fetch-unimplemented"@)),
        address::parsed_url(u) is None ==> fetch_refusal(connect, args) == "bad-url"@,
{
}

} // verus!

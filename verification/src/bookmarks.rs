//! The bookmarks file of the Chromium browsers: a tree of folders in JSON.

use vstd::prelude::*;
use vstd::string::*;

use crate::address;
use crate::json;
use crate::json::Json;
use crate::text;

verus! {

/// A bookmark, by its type.
pub open spec fn is_url_node(node: Json) -> bool {
    json::member_text(node, "type"@) == Some("url"@)
}

/// The web bookmark that a bookmark node is: its address and its name, or its address again where
/// it has no name.
pub open spec fn url_node(node: Json) -> Seq<(Seq<char>, Seq<char>)> {
    match json::member_text(node, "url"@) {
        Some(u) => if "http"@.is_prefix_of(u) {
            seq![
                (
                    u,
                    match json::member_text(node, "name"@) {
                        Some(n) => n,
                        None => u,
                    },
                ),
            ]
        } else {
            Seq::empty()
        },
        None => Seq::empty(),
    }
}

/// The web bookmarks in a node: its own if it is a bookmark, else those of its children in order.
pub open spec fn node_bookmarks(node: Json) -> Seq<(Seq<char>, Seq<char>)>
    decreases node, 0nat,
{
    if is_url_node(node) {
        url_node(node)
    } else {
        match node {
            Json::Object(m) => match json::member_place(m@, "children"@) {
                Some(i) => if 0 <= i < m@.len() {
                    match m@[i].1 {
                        Json::List(c) => child_bookmarks(c@, c@.len()),
                        _ => Seq::empty(),
                    }
                } else {
                    Seq::empty()
                },
                None => Seq::empty(),
            },
            _ => Seq::empty(),
        }
    }
}

/// The web bookmarks in the first `n` nodes.
pub open spec fn child_bookmarks(c: Seq<Json>, n: nat) -> Seq<(Seq<char>, Seq<char>)>
    decreases c, n,
{
    if n == 0 || n > c.len() {
        Seq::empty()
    } else {
        child_bookmarks(c, (n - 1) as nat) + node_bookmarks(c[n - 1])
    }
}

/// Adds the web bookmarks in a node.
pub fn collect_chrome_bookmarks(node: &Json, out: &mut Vec<(String, String)>)
    ensures
        address::pair_texts(final(out)@) == address::pair_texts(old(out)@) + node_bookmarks(*node),
    decreases *node,
{
    let ghost before = address::pair_texts(out@);
    let is_url: bool = match node.get_text("type") {
        Some(t) => text::same(t.as_str(), "url"),
        None => false,
    };
    if is_url {
        match node.get_text("url") {
            Some(u) => {
                if text::starts_with(u.as_str(), "http") {
                    let name: String = match node.get_text("name") {
                        Some(n) => n,
                        None => u.clone(),
                    };
                    let ghost pair = (u@, name@);
                    out.push((u, name));
                    assert(address::pair_texts(out@) =~= before + seq![pair]);
                } else {
                    assert(before + Seq::<(Seq<char>, Seq<char>)>::empty() =~= before);
                }
            },
            None => {
                assert(before + Seq::<(Seq<char>, Seq<char>)>::empty() =~= before);
            },
        }
        return;
    }
    match node {
        Json::Object(m) => {
            match json::find_member(m, "children") {
                Some(i) => {
                    match &m[i].1 {
                        Json::List(c) => {
                            let mut k: usize = 0;
                            assert(before + child_bookmarks(c@, 0) =~= before);
                            while k < c.len()
                                invariant
                                    k <= c@.len(),
                                    *node == Json::Object(*m),
                                    i < m@.len(),
                                    m@[i as int].1 == Json::List(*c),
                                    address::pair_texts(out@) == before + child_bookmarks(
                                        c@,
                                        k as nat,
                                    ),
                                decreases c@.len() - k,
                            {
                                let ghost so_far = address::pair_texts(out@);
                                proof {
                                    let pair = m@[i as int];
                                    assert(decreases_to!(*node => node->Object_0));
                                    assert(decreases_to!(*m => m@));
                                    assert(decreases_to!(m@ => m@[i as int]));
                                    assert(decreases_to!(pair => pair.1));
                                    assert(decreases_to!(pair.1 => pair.1->List_0));
                                    assert(decreases_to!(*c => c@));
                                    assert(decreases_to!(c@ => c@[k as int]));
                                }
                                collect_chrome_bookmarks(&c[k], out);
                                assert(address::pair_texts(out@) =~= before + child_bookmarks(
                                    c@,
                                    (k + 1) as nat,
                                ));
                                k = k + 1;
                            }
                        },
                        _ => {
                            assert(before + Seq::<(Seq<char>, Seq<char>)>::empty() =~= before);
                        },
                    }
                },
                None => {
                    assert(before + Seq::<(Seq<char>, Seq<char>)>::empty() =~= before);
                },
            }
        },
        _ => {
            assert(before + Seq::<(Seq<char>, Seq<char>)>::empty() =~= before);
        },
    }
}

/// The values of an object's members, in order.
pub open spec fn member_values(m: Seq<(String, Json)>) -> Seq<Json> {
    Seq::new(m.len(), |i: int| m[i].1)
}

/// The web bookmarks of a bookmarks file: those of its roots, one after the other.
pub open spec fn file_bookmarks(doc: Json) -> Seq<(Seq<char>, Seq<char>)> {
    match json::member(doc, "roots"@) {
        Some(Json::Object(m)) => child_bookmarks(member_values(m@), m@.len()),
        _ => Seq::empty(),
    }
}

/// The web bookmarks of a bookmarks file that has been read.
pub fn document_bookmarks(doc: &Json) -> (r: Vec<(String, String)>)
    ensures
        address::pair_texts(r@) == file_bookmarks(*doc),
{
    let mut out: Vec<(String, String)> = Vec::new();
    assert(address::pair_texts(out@) =~= Seq::<(Seq<char>, Seq<char>)>::empty());
    match doc.get("roots") {
        Some(Json::Object(m)) => {
            let ghost c = member_values(m@);
            let mut k: usize = 0;
            while k < m.len()
                invariant
                    k <= m@.len(),
                    c == member_values(m@),
                    address::pair_texts(out@) == child_bookmarks(c, k as nat),
                decreases m@.len() - k,
            {
                collect_chrome_bookmarks(&m[k].1, &mut out);
                k = k + 1;
            }
        },
        _ => {},
    }
    out
}

/// The web bookmarks of a bookmarks file; none where it is no JSON.
pub fn import_chrome_bookmarks(file: &str) -> (r: Vec<(String, String)>)
    ensures
        address::pair_texts(r@) == match json::parsed_json(file@) {
            Some(doc) => file_bookmarks(doc),
            None => Seq::empty(),
        },
{
    match json::parse_json(file) {
        Some(doc) => document_bookmarks(&doc),
        None => {
            let none: Vec<(String, String)> = Vec::new();
            assert(address::pair_texts(none@) =~= Seq::<(Seq<char>, Seq<char>)>::empty());
            none
        },
    }
}

/// Every bookmark taken from a tree is an address that starts with `http`.
pub proof fn taken_bookmarks_are_web_addresses(node: Json)
    ensures
        forall|i: int|
            0 <= i < node_bookmarks(node).len() ==> "http"@.is_prefix_of(
                (#[trigger] node_bookmarks(node)[i]).0,
            ),
    decreases node, 0nat,
{
    if is_url_node(node) {
        assert(node_bookmarks(node) == url_node(node));
        assert forall|i: int| 0 <= i < node_bookmarks(node).len() implies "http"@.is_prefix_of(
            (#[trigger] node_bookmarks(node)[i]).0,
        ) by {
            assert(i == 0);
        }
    } else {
        match node {
            Json::Object(m) => {
                match json::member_place(m@, "children"@) {
                    Some(i) => {
                        if 0 <= i < m@.len() {
                            match m@[i].1 {
                                Json::List(c) => {
                                    lemma_children_are_web(c@, c@.len());
                                    assert(node_bookmarks(node) == child_bookmarks(
                                        c@,
                                        c@.len(),
                                    ));
                                },
                                _ => {},
                            }
                        }
                    },
                    None => {},
                }
            },
            _ => {},
        }
    }
}

proof fn lemma_children_are_web(c: Seq<Json>, n: nat)
    ensures
        forall|i: int|
            0 <= i < child_bookmarks(c, n).len() ==> "http"@.is_prefix_of(
                (#[trigger] child_bookmarks(c, n)[i]).0,
            ),
    decreases c, n,
{
    if 0 < n <= c.len() {
        lemma_children_are_web(c, (n - 1) as nat);
        taken_bookmarks_are_web_addresses(c[n - 1]);
        let a = child_bookmarks(c, (n - 1) as nat);
        let b = node_bookmarks(c[n - 1]);
        assert forall|i: int| 0 <= i < child_bookmarks(c, n).len() implies "http"@.is_prefix_of(
            (#[trigger] child_bookmarks(c, n)[i]).0,
        ) by {
            if i < a.len() {
                assert(child_bookmarks(c, n)[i] == a[i]);
            } else {
                assert(child_bookmarks(c, n)[i] == b[i - a.len()]);
            }
        }
    }
}

// ---------------------------------------------------------------------------
// Laws
// ---------------------------------------------------------------------------

/// A bookmark of the web is taken under its name, or under its address where it has none; one of
/// another kind is not taken.
pub proof fn web_bookmarks_are_taken(node: Json, u: Seq<char>)
    requires
        json::member_text(node, "type"@) == Some("url"@),
        json::member_text(node, "url"@) == Some(u),
    ensures
        "http"@.is_prefix_of(u) ==> (json::member_text(node, "name"@) matches Some(n)
            ==> node_bookmarks(node) == seq![(u, n)]),
        "http"@.is_prefix_of(u) && json::member_text(node, "name"@) is None ==> node_bookmarks(node)
            == seq![(u, u)],
        !"http"@.is_prefix_of(u) ==> node_bookmarks(node).len() == 0,
{
}

/// The bookmarks of some nodes are those of each, in order: nothing is passed over.
pub proof fn every_node_is_visited(c: Seq<Json>, n: nat)
    requires
        n < c.len(),
    ensures
        child_bookmarks(c, n + 1) == child_bookmarks(c, n) + node_bookmarks(c[n as int]),
        child_bookmarks(c, 0).len() == 0,
{
}

/// A folder holds the bookmarks of its children.
pub proof fn folders_are_opened(m: Vec<(String, Json)>, c: Vec<Json>, i: int)
    requires
        json::member_text(Json::Object(m), "type"@) != Some("url"@),
        json::member_place(m@, "children"@) == Some(i),
        0 <= i < m@.len(),
        m@[i].1 == Json::List(c),
    ensures
        node_bookmarks(Json::Object(m)) == child_bookmarks(c@, c@.len()),
{
}

} // verus!

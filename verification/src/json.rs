//! JSON: documents as the library works on them, read and written with `serde_json`.

use vstd::prelude::*;
use vstd::string::*;

use crate::number;
use crate::text;

verus! {

/// A JSON document. A number is kept as it is written; an object's members are in the order in
/// which they are walked.
pub enum Json {
    Null,
    Bool(bool),
    Number(String),
    Text(String),
    List(Vec<Json>),
    Object(Vec<(String, Json)>),
}

/// The members of an object are in the order of their names, and no name comes twice.
pub open spec fn in_order(m: Seq<(String, Json)>) -> bool {
    forall|i: int, j: int|
        0 <= i < j < m.len() ==> text::sorts_before(
            (#[trigger] m[i]).0@,
            (#[trigger] m[j]).0@,
        )
}

/// The members of every object in a document are in order.
pub open spec fn is_ordered(j: Json) -> bool
    decreases j,
{
    match j {
        Json::List(a) => forall|i: int| 0 <= i < a@.len() ==> is_ordered(#[trigger] a@[i]),
        Json::Object(m) => in_order(m@) && forall|i: int|
            0 <= i < m@.len() ==> is_ordered((#[trigger] m@[i]).1),
        _ => true,
    }
}

/// A number as it is written where it is a whole one of at most 64 bits.
pub open spec fn is_whole(n: Seq<char>) -> bool {
    (exists|v: u64| n == #[trigger] number::decimal(v as nat)) || (exists|v: i64|
        v < 0 && n == #[trigger] number::signed_decimal(v as int))
}

/// The numbers of a document are whole ones. (Reading a fraction may give a neighbour of what was
/// written.)
pub open spec fn has_whole_numbers(j: Json) -> bool
    decreases j,
{
    match j {
        Json::Number(n) => is_whole(n@),
        Json::List(a) => forall|i: int| 0 <= i < a@.len() ==> has_whole_numbers(#[trigger] a@[i]),
        Json::Object(m) => forall|i: int|
            0 <= i < m@.len() ==> has_whole_numbers((#[trigger] m@[i]).1),
        _ => true,
    }
}

/// How deep lists and objects may lie in each other for a text to be read.
pub const MAX_DEPTH: u8 = 127;

/// Lists and objects lie in each other at most this deep.
pub open spec fn nests_within(j: Json, depth: nat) -> bool
    decreases j,
{
    match j {
        Json::List(a) => depth > 0 && forall|i: int|
            0 <= i < a@.len() ==> nests_within(#[trigger] a@[i], (depth - 1) as nat),
        Json::Object(m) => depth > 0 && forall|i: int|
            0 <= i < m@.len() ==> nests_within((#[trigger] m@[i]).1, (depth - 1) as nat),
        _ => true,
    }
}

/// What lies at most so deep lies at most deeper.
pub proof fn lemma_nests_within(j: Json, d: nat, e: nat)
    requires
        nests_within(j, d),
        d <= e,
    ensures
        nests_within(j, e),
    decreases j,
{
    match j {
        Json::List(a) => {
            assert forall|i: int| 0 <= i < a@.len() implies nests_within(
                #[trigger] a@[i],
                (e - 1) as nat,
            ) by {
                lemma_nests_within(a@[i], (d - 1) as nat, (e - 1) as nat);
            }
        },
        Json::Object(m) => {
            assert forall|i: int| 0 <= i < m@.len() implies nests_within(
                (#[trigger] m@[i]).1,
                (e - 1) as nat,
            ) by {
                lemma_nests_within(m@[i].1, (d - 1) as nat, (e - 1) as nat);
            }
        },
        _ => {},
    }
}

/// A document that can be written and read again without a change.
pub open spec fn is_keepable(j: Json) -> bool {
    is_ordered(j) && has_whole_numbers(j) && nests_within(j, MAX_DEPTH as nat)
}

// ---------------------------------------------------------------------------
// Reading and writing
// ---------------------------------------------------------------------------

/// A JSON value of the `serde_json` crate.
#[verifier::external_type_specification]
#[verifier::external_body]
pub struct ExValue(serde_json::Value);

/// The document that a `serde_json` value holds.
pub uninterp spec fn value_tree(v: serde_json::Value) -> Json;

/// What `serde_json::from_str` makes of a text.
pub uninterp spec fn parsed_json(s: Seq<char>) -> Option<Json>;

/// Reads a JSON text with `serde_json::from_str`. The result depends on the text alone.
#[verifier::external_body]
fn parse_value(s: &str) -> (r: Option<serde_json::Value>)
    ensures
        match r {
            Some(v) => parsed_json(s@) == Some(value_tree(v)),
            None => parsed_json(s@) is None,
        },
{
    serde_json::from_str(s).ok()
}

/// Takes a `serde_json::Value` apart into a document that holds the same: its strings, its members
/// in the order of `serde_json::Map::iter`, its numbers as they are written. A `serde_json::Map`
/// walks its members by name, and holds each name once.
#[verifier::external_body]
fn tree_of(v: &serde_json::Value) -> (r: Json)
    ensures
        r == value_tree(*v),
        is_ordered(r),
{
    match v {
        serde_json::Value::Null => Json::Null,
        serde_json::Value::Bool(b) => Json::Bool(*b),
        serde_json::Value::Number(n) => Json::Number(n.to_string()),
        serde_json::Value::String(s) => Json::Text(s.clone()),
        serde_json::Value::Array(a) => Json::List(a.iter().map(tree_of).collect()),
        serde_json::Value::Object(m) => Json::Object(
            m.iter().map(|(k, x)| (k.clone(), tree_of(x))).collect(),
        ),
    }
}

/// Puts a document together as a `serde_json::Value`. A number is what `serde_json::from_str` reads
/// of its text, or null where that reads nothing; of several members with one name the last stays. A
/// document whose members are in order
/// and whose numbers are whole ones is held as it is.
#[verifier::external_body]
fn value_of(j: &Json) -> (r: serde_json::Value)
    ensures
        value_tree(r) == normal_json(*j),
        is_ordered(*j) && has_whole_numbers(*j) ==> value_tree(r) == *j,
{
    match j {
        Json::Null => serde_json::Value::Null,
        Json::Bool(b) => serde_json::Value::Bool(*b),
        Json::Number(n) => serde_json::from_str(n).unwrap_or(serde_json::Value::Null),
        Json::Text(s) => serde_json::Value::String(s.clone()),
        Json::List(a) => serde_json::Value::Array(a.iter().map(value_of).collect()),
        Json::Object(m) => serde_json::Value::Object(
            m.iter().map(|(k, x)| (k.clone(), value_of(x))).collect(),
        ),
    }
}

/// A document as `serde_json::Value` holds it.
pub uninterp spec fn normal_json(j: Json) -> Json;

/// What `serde_json::to_string` makes of a document.
pub uninterp spec fn compact_json(j: Json) -> Seq<char>;

/// Writes a value on one line with `serde_json::to_string`. The result depends on the value alone.
/// Writing a value cannot fail, and `serde_json::from_str` reads the same value again, unless it
/// holds a fraction or lies too deep.
#[verifier::external_body]
fn print_value(v: &serde_json::Value) -> (r: String)
    ensures
        r@ == compact_json(value_tree(*v)),
        is_keepable(value_tree(*v)) ==> parsed_json(r@) == Some(value_tree(*v)),
{
    v.to_string()
}

/// What `serde_json::to_string_pretty` makes of a document.
pub uninterp spec fn pretty_json(j: Json) -> Seq<char>;

/// Writes a value on several lines with `serde_json::to_string_pretty`. The result depends on the
/// value alone. Writing a value cannot fail, and `serde_json::from_str` reads the same value again,
/// unless it holds a fraction or lies too deep.
#[verifier::external_body]
fn print_value_pretty(v: &serde_json::Value) -> (r: String)
    ensures
        r@ == pretty_json(value_tree(*v)),
        is_keepable(value_tree(*v)) ==> parsed_json(r@) == Some(value_tree(*v)),
{
    serde_json::to_string_pretty(v).unwrap_or_default()
}

/// Reads a JSON text.
pub fn parse_json(s: &str) -> (r: Option<Json>)
    ensures
        r == parsed_json(s@),
        r matches Some(j) ==> is_ordered(j),
{
    match parse_value(s) {
        Some(v) => Some(tree_of(&v)),
        None => None,
    }
}

/// Writes a document on one line. It can be read again.
pub fn to_compact(j: &Json) -> (r: String)
    ensures
        r@ == compact_json(normal_json(*j)),
        is_keepable(*j) ==> parsed_json(r@) == Some(*j),
{
    print_value(&value_of(j))
}

/// Writes a document on several lines. It can be read again.
pub fn to_pretty(j: &Json) -> (r: String)
    ensures
        r@ == pretty_json(normal_json(*j)),
        is_keepable(*j) ==> parsed_json(r@) == Some(*j),
{
    print_value_pretty(&value_of(j))
}

// ---------------------------------------------------------------------------
// Members
// ---------------------------------------------------------------------------

/// The place of the first member with this name.
pub open spec fn member_place(m: Seq<(String, Json)>, name: Seq<char>) -> Option<int>
    decreases m.len(),
{
    if m.len() == 0 {
        None
    } else {
        match member_place(m.drop_last(), name) {
            Some(i) => Some(i),
            None => if m.last().0@ == name {
                Some(m.len() - 1)
            } else {
                None
            },
        }
    }
}

pub proof fn lemma_member_place(m: Seq<(String, Json)>, name: Seq<char>)
    ensures
        member_place(m, name) matches Some(i) ==> 0 <= i < m.len() && m[i].0@ == name && forall|
            j: int,
        |
            0 <= j < i ==> (#[trigger] m[j]).0@ != name,
        member_place(m, name) is None ==> forall|j: int|
            0 <= j < m.len() ==> (#[trigger] m[j]).0@ != name,
    decreases m.len(),
{
    if m.len() > 0 {
        lemma_member_place(m.drop_last(), name);
        assert forall|j: int| 0 <= j < m.len() - 1 implies m.drop_last()[j] == m[j] by {}
    }
}

/// The member of an object with this name; nothing where there is none or it is no object.
pub open spec fn member(j: Json, name: Seq<char>) -> Option<Json> {
    match j {
        Json::Object(m) => match member_place(m@, name) {
            Some(i) => Some(m@[i].1),
            None => None,
        },
        _ => None,
    }
}

/// Members each of which comes before the next are in order.
pub proof fn lemma_in_order(m: Seq<(String, Json)>)
    requires
        forall|i: int|
            0 <= i < m.len() - 1 ==> text::sorts_before((#[trigger] m[i]).0@, m[i + 1].0@),
    ensures
        in_order(m),
{
    assert forall|i: int, j: int| 0 <= i < j < m.len() implies text::sorts_before(
        (#[trigger] m[i]).0@,
        (#[trigger] m[j]).0@,
    ) by {
        lemma_in_order_between(m, i, j);
    }
}

proof fn lemma_in_order_between(m: Seq<(String, Json)>, i: int, j: int)
    requires
        0 <= i < j < m.len(),
        forall|k: int|
            0 <= k < m.len() - 1 ==> text::sorts_before((#[trigger] m[k]).0@, m[k + 1].0@),
    ensures
        text::sorts_before(m[i].0@, m[j].0@),
    decreases j - i,
{
    assert(text::sorts_before(m[i].0@, m[i + 1].0@));
    if i + 1 < j {
        lemma_in_order_between(m, i + 1, j);
        text::sorts_one_way(m[i + 1].0@, m[j].0@);
        text::sorts_through(m[i].0@, m[i + 1].0@, m[j].0@);
    }
}

/// A member of an object in order is found by its name.
pub proof fn lemma_member_in_order(m: Seq<(String, Json)>, i: int)
    requires
        in_order(m),
        0 <= i < m.len(),
    ensures
        member_place(m, m[i].0@) == Some(i),
{
    lemma_member_place(m, m[i].0@);
    match member_place(m, m[i].0@) {
        Some(k) => {
            if k < i {
                text::sorts_one_way(m[k].0@, m[i].0@);
            }
        },
        None => {},
    }
}

/// A whole member in the range of `i64`.
pub open spec fn member_whole(j: Json, name: Seq<char>) -> Option<int> {
    match member(j, name) {
        Some(Json::Number(n)) => number::read_signed(n@),
        _ => None,
    }
}

/// The string of a member that is a text.
pub open spec fn member_string(j: Json, name: Seq<char>) -> Option<String> {
    match member(j, name) {
        Some(Json::Text(s)) => Some(s),
        _ => None,
    }
}

/// A text, or a whole number.
pub open spec fn is_plain(j: Json) -> bool {
    match j {
        Json::Text(_) => true,
        Json::Number(n) => is_whole(n@),
        _ => false,
    }
}

/// An object of plain members in order can be written and read again without a change.
pub proof fn lemma_plain_object(m: Vec<(String, Json)>)
    requires
        in_order(m@),
        forall|i: int| 0 <= i < m@.len() ==> is_plain((#[trigger] m@[i]).1),
    ensures
        is_keepable(Json::Object(m)),
{
    assert forall|i: int| 0 <= i < m@.len() implies is_ordered((#[trigger] m@[i]).1)
        && has_whole_numbers(m@[i].1) && nests_within(m@[i].1, (MAX_DEPTH - 1) as nat) by {
        assert(is_plain(m@[i].1));
    }
}

/// A number of type `i64` as it is written is a whole one.
pub proof fn lemma_signed_is_whole(n: i64)
    ensures
        is_whole(number::signed_decimal(n as int)),
{
    if n >= 0 {
        let v = n as u64;
        assert(number::signed_decimal(n as int) == number::decimal(v as nat));
    } else {
        assert(number::signed_decimal(n as int) == number::signed_decimal(n as int));
    }
}

/// A member that is a text.
pub fn text_member(name: &str, s: &String) -> (r: (String, Json))
    ensures
        r.0@ == name@,
        r.1 == Json::Text(*s),
{
    (name.to_owned(), Json::Text(s.clone()))
}

/// A member that is a whole number.
pub fn whole_member(name: &str, n: i64) -> (r: (String, Json))
    ensures
        r.0@ == name@,
        r.1 matches Json::Number(t) && t@ == number::signed_decimal(n as int),
        is_plain(r.1),
{
    proof {
        lemma_signed_is_whole(n);
    }
    (name.to_owned(), Json::Number(number::signed_string(n)))
}

/// The text of a member that is a text.
pub open spec fn member_text(j: Json, name: Seq<char>) -> Option<Seq<char>> {
    match member(j, name) {
        Some(Json::Text(s)) => Some(s@),
        _ => None,
    }
}

/// The place of the first member with this name.
pub fn find_member(m: &Vec<(String, Json)>, name: &str) -> (r: Option<usize>)
    ensures
        match r {
            Some(i) => member_place(m@, name@) == Some(i as int) && i < m@.len(),
            None => member_place(m@, name@) is None,
        },
{
    let mut i: usize = 0;
    proof {
        lemma_member_place(m@, name@);
    }
    while i < m.len()
        invariant
            i <= m@.len(),
            forall|j: int| 0 <= j < i ==> (#[trigger] m@[j]).0@ != name@,
        decreases m@.len() - i,
    {
        if text::same(m[i].0.as_str(), name) {
            proof {
                lemma_member_place(m@, name@);
            }
            return Some(i);
        }
        i = i + 1;
    }
    None
}

impl Json {
    /// The member of an object with this name.
    pub fn get(&self, name: &str) -> (r: Option<&Json>)
        ensures
            match r {
                Some(x) => member(*self, name@) == Some(*x),
                None => member(*self, name@) is None,
            },
    {
        match self {
            Json::Object(m) => match find_member(m, name) {
                Some(i) => Some(&m[i].1),
                None => None,
            },
            _ => None,
        }
    }

    /// A whole member in the range of `i64`.
    pub fn get_whole(&self, name: &str) -> (r: Option<i64>)
        ensures
            match r {
                Some(n) => member_whole(*self, name@) == Some(n as int),
                None => member_whole(*self, name@) is None,
            },
    {
        match self.get(name) {
            Some(Json::Number(n)) => number::parse_signed(n.as_str()),
            _ => None,
        }
    }

    /// The text of a member that is a text.
    pub fn get_text(&self, name: &str) -> (r: Option<String>)
        ensures
            crate::address::optional_text(r) == member_text(*self, name@),
            r == member_string(*self, name@),
    {
        match self.get(name) {
            Some(Json::Text(s)) => Some(s.clone()),
            _ => None,
        }
    }
}

} // verus!

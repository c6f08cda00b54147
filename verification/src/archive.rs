//! The record-and-replay archive: how stored responses are named, what is kept of them, and what
//! a request is answered.

use vstd::prelude::*;
use vstd::std_specs::hash::*;
use vstd::string::*;
use vstd::utf8::*;

use std::collections::hash_map::DefaultHasher;
use std::hash::Hasher;

use crate::address;
use crate::json;
use crate::json::Json;
use crate::number;
use crate::text;

verus! {

/// Whether responses are stored as they come, or served as they were stored.
#[derive(Clone, Copy, Debug, PartialEq, Eq, Structural)]
pub enum Mode {
    Record,
    Replay,
}

/// A stored response.
pub struct Stored {
    pub status: u16,
    pub headers: Vec<(String, String)>,
    pub body: Vec<u8>,
}

/// What is kept beside a stored body.
pub struct Meta {
    pub method: String,
    pub url: String,
    pub status: u16,
    pub headers: Vec<(String, String)>,
}

/// The mode by its name.
pub open spec fn mode_named(s: Seq<char>) -> Option<Mode> {
    if s == "record"@ {
        Some(Mode::Record)
    } else if s == "replay"@ {
        Some(Mode::Replay)
    } else {
        None
    }
}

/// Reads the mode: `record` or `replay`.
pub fn parse_mode(s: &str) -> (r: Option<Mode>)
    ensures
        r == mode_named(s@),
{
    if text::same(s, "record") {
        Some(Mode::Record)
    } else if text::same(s, "replay") {
        Some(Mode::Replay)
    } else {
        None
    }
}

/// What is fed to the hasher for a request: the method and the address, each ended by a byte that
/// no text holds, with a zero byte between.
pub open spec fn key_writes(method: Seq<char>, url: Seq<char>) -> Seq<Seq<u8>> {
    seq![
        encode_utf8(method),
        seq![0xffu8],
        seq![0u8],
        encode_utf8(url),
        seq![0xffu8],
    ]
}

/// The name under which the response to a request is stored: sixteen hexadecimal digits that
/// depend on the method and the address alone.
pub open spec fn resource_key(method: Seq<char>, url: Seq<char>) -> Seq<char> {
    number::hex_padded(DefaultHasher::spec_finish(key_writes(method, url)) as nat, 16)
}

/// The name under which the response to a request is stored.
pub fn key(method: &str, url: &str) -> (r: String)
    ensures
        r@ == resource_key(method@, url@),
{
    let mut h: DefaultHasher = DefaultHasher::new();
    h.write(method.as_bytes());
    h.write(&[0xffu8]);
    h.write(&[0u8]);
    h.write(url.as_bytes());
    h.write(&[0xffu8]);
    assert(h@ =~~= key_writes(method@, url@));
    number::hex16(h.finish())
}

/// A key is a file name on every system: sixteen hexadecimal digits.
pub proof fn keys_are_file_names(method: Seq<char>, url: Seq<char>)
    ensures
        resource_key(method, url).len() == 16,
        forall|i: int|
            0 <= i < 16 ==> number::is_hex_digit(#[trigger] resource_key(method, url)[i]),
{
    number::lemma_hex_padded(DefaultHasher::spec_finish(key_writes(method, url)) as nat, 16);
}

/// The file that holds what is kept beside a stored body.
pub fn meta_name(key: &str) -> (r: String)
    ensures
        r@ == key@ + ".json"@,
{
    let mut out: String = key.to_owned();
    out.append(".json");
    out
}

/// The file that holds a stored body.
pub fn body_name(key: &str) -> (r: String)
    ensures
        r@ == key@ + ".body"@,
{
    let mut out: String = key.to_owned();
    out.append(".body");
    out
}

/// A header that says how the body travelled, which no longer holds of a stored body.
pub open spec fn is_transport_header(name: Seq<char>) -> bool {
    let n = text::lowered(name);
    ||| n == "content-encoding"@
    ||| n == "content-length"@
    ||| n == "transfer-encoding"@
    ||| n == "connection"@
}

/// The headers that are stored: those with a readable value that do not concern the transport.
pub open spec fn stored_headers(all: Seq<(Seq<char>, Option<Seq<char>>)>) -> Seq<
    (Seq<char>, Seq<char>),
>
    decreases all.len(),
{
    if all.len() == 0 {
        Seq::empty()
    } else {
        let rest = stored_headers(all.drop_last());
        match all.last().1 {
            Some(v) => if is_transport_header(all.last().0) {
                rest
            } else {
                rest.push((all.last().0, v))
            },
            None => rest,
        }
    }
}

/// No stored header concerns the transport.
pub proof fn stored_headers_hold_no_transport(all: Seq<(Seq<char>, Option<Seq<char>>)>)
    ensures
        forall|i: int|
            0 <= i < stored_headers(all).len() ==> !is_transport_header(
                (#[trigger] stored_headers(all)[i]).0,
            ),
    decreases all.len(),
{
    if all.len() > 0 {
        stored_headers_hold_no_transport(all.drop_last());
        let rest = stored_headers(all.drop_last());
        assert forall|i: int| 0 <= i < stored_headers(all).len() implies !is_transport_header(
            (#[trigger] stored_headers(all)[i]).0,
        ) by {
            if i < rest.len() {
                assert(stored_headers(all)[i] == rest[i]);
            }
        }
    }
}

fn transport_header(name: &str) -> (r: bool)
    ensures
        r == is_transport_header(name@),
{
    let lower: String = text::to_lower(name);
    let n: &str = lower.as_str();
    text::same(n, "content-encoding") || text::same(n, "content-length") || text::same(
        n,
        "transfer-encoding",
    ) || text::same(n, "connection")
}

/// Header names with their values, `None` where the value is not readable text.
pub open spec fn header_texts(v: Seq<(String, Option<String>)>) -> Seq<
    (Seq<char>, Option<Seq<char>>),
> {
    Seq::new(v.len(), |i: int| (v[i].0@, address::optional_text(v[i].1)))
}

/// The headers that are stored.
pub fn keep_headers(all: &Vec<(String, Option<String>)>) -> (r: Vec<(String, String)>)
    ensures
        address::pair_texts(r@) == stored_headers(header_texts(all@)),
{
    let ghost a = header_texts(all@);
    let mut out: Vec<(String, String)> = Vec::new();
    let mut i: usize = 0;
    assert(address::pair_texts(out@) =~= stored_headers(a.take(0)));
    while i < all.len()
        invariant
            i <= all@.len(),
            a == header_texts(all@),
            address::pair_texts(out@) == stored_headers(a.take(i as int)),
        decreases all@.len() - i,
    {
        let ghost before = address::pair_texts(out@);
        assert(a.take(i + 1).drop_last() =~= a.take(i as int));
        assert(a.take(i + 1).last() == a[i as int]);
        if !transport_header(all[i].0.as_str()) {
            match &all[i].1 {
                Some(v) => {
                    out.push((all[i].0.clone(), v.clone()));
                    assert(address::pair_texts(out@) =~= before.push((all@[i as int].0@, v@)));
                },
                None => {},
            }
        }
        i = i + 1;
    }
    assert(a.take(all@.len() as int) =~= a);
    out
}

/// A line of the archive's index: key, status, size of the body, method and address.
pub open spec fn index_text(
    key: Seq<char>,
    status: u16,
    size: nat,
    method: Seq<char>,
    url: Seq<char>,
) -> Seq<char> {
    key + "\t"@ + number::decimal(status as nat) + "\t"@ + number::decimal(size) + "\t"@ + method
        + "\t"@ + url
}

/// A line of the archive's index.
pub fn index_line(key: &str, status: u16, size: usize, method: &str, url: &str) -> (r: String)
    ensures
        r@ == index_text(key@, status, size as nat, method@, url@),
{
    let mut out: String = key.to_owned();
    out.append("\t");
    out.append(number::decimal_string(status as u64).as_str());
    out.append("\t");
    out.append(number::decimal_string(size as u64).as_str());
    out.append("\t");
    out.append(method);
    out.append("\t");
    out.append(url);
    out
}

/// A line of the list of requests that the archive could not answer.
pub fn miss_line(method: &str, url: &str) -> (r: String)
    ensures
        r@ == method@ + " "@ + url@,
{
    let mut out: String = method.to_owned();
    out.append(" ");
    out.append(url);
    out
}

/// What the archive does about a request.
#[derive(Clone, Copy, Debug, PartialEq, Eq, Structural)]
pub enum Step {
    /// Read the stored response.
    Read,
    /// Fetch the response, store it and hand it on.
    Fetch,
}

/// What the archive does about a request: when it replays it only ever reads, and when it records
/// it reads what is stored already.
pub open spec fn archive_step(mode: Mode, stored: bool) -> Step {
    if mode == Mode::Replay || stored {
        Step::Read
    } else {
        Step::Fetch
    }
}

/// Decides what the archive does about a request.
pub fn step(mode: Mode, stored: bool) -> (r: Step)
    ensures
        r == archive_step(mode, stored),
{
    match mode {
        Mode::Replay => Step::Read,
        Mode::Record => {
            if stored {
                Step::Read
            } else {
                Step::Fetch
            }
        },
    }
}

/// A replayed request is never fetched, whether its response is stored or not.
pub proof fn replay_stays_offline(stored: bool)
    ensures
        archive_step(Mode::Replay, stored) != Step::Fetch,
{
}

// ---------------------------------------------------------------------------
// The files of a stored response
// ---------------------------------------------------------------------------

/// A response as mathematical values: status, headers and body.
pub type Response = (u16, Seq<(Seq<char>, Seq<char>)>, Seq<u8>);

/// The response that is stored.
pub open spec fn response_of(s: Stored) -> Response {
    (s.status, address::pair_texts(s.headers@), s.body@)
}

/// A header as it is kept: a list of its name and its value.
pub open spec fn read_header(j: Json) -> Option<(Seq<char>, Seq<char>)> {
    match j {
        Json::List(a) => if a@.len() == 2 {
            match (a@[0], a@[1]) {
                (Json::Text(k), Json::Text(v)) => Some((k@, v@)),
                _ => None,
            }
        } else {
            None
        },
        _ => None,
    }
}

/// Each of these is a header.
pub open spec fn are_headers(a: Seq<Json>) -> bool {
    forall|i: int| 0 <= i < a.len() ==> read_header(#[trigger] a[i]) is Some
}

/// The headers in a list.
pub open spec fn headers_in(a: Seq<Json>) -> Seq<(Seq<char>, Seq<char>)> {
    Seq::new(a.len(), |i: int| read_header(a[i])->0)
}

/// What a document says of a stored response beside its body: the status and the headers. The
/// method and the address must be there too, and the status must fit.
pub open spec fn read_meta(doc: Json) -> Option<(u16, Seq<(Seq<char>, Seq<char>)>)> {
    match (
        json::member_string(doc, "method"@),
        json::member_string(doc, "url"@),
        json::member_whole(doc, "status"@),
        json::member(doc, "headers"@),
    ) {
        (Some(_), Some(_), Some(n), Some(Json::List(a))) => if 0 <= n <= 65535 && are_headers(a@) {
            Some((n as u16, headers_in(a@)))
        } else {
            None
        },
        _ => None,
    }
}

/// The response that is kept in two files: the text that stands beside the body, and the body. A
/// body that cannot be read counts as empty.
pub open spec fn kept_response(meta: Option<Seq<char>>, body: Option<Seq<u8>>) -> Option<Response> {
    match meta {
        None => None,
        Some(t) => match json::parsed_json(t) {
            None => None,
            Some(doc) => match read_meta(doc) {
                None => None,
                Some((status, headers)) => Some(
                    (
                        status,
                        headers,
                        match body {
                            Some(b) => b,
                            None => Seq::empty(),
                        },
                    ),
                ),
            },
        },
    }
}

/// The response to a request in an archive, by the texts and the bodies among its files.
pub open spec fn archived(
    texts: Map<Seq<char>, Seq<char>>,
    bodies: Map<Seq<char>, Seq<u8>>,
    method: Seq<char>,
    url: Seq<char>,
) -> Option<Response> {
    let key = resource_key(method, url);
    kept_response(
        if texts.contains_key(key + ".json"@) {
            Some(texts[key + ".json"@])
        } else {
            None
        },
        if bodies.contains_key(key + ".body"@) {
            Some(bodies[key + ".body"@])
        } else {
            None
        },
    )
}

fn read_one_header(j: &Json) -> (r: Option<(String, String)>)
    ensures
        match r {
            Some(h) => read_header(*j) == Some((h.0@, h.1@)),
            None => read_header(*j) is None,
        },
{
    match j {
        Json::List(a) => {
            if a.len() != 2 {
                return None;
            }
            match (&a[0], &a[1]) {
                (Json::Text(k), Json::Text(v)) => Some((k.clone(), v.clone())),
                _ => None,
            }
        },
        _ => None,
    }
}

fn read_headers(a: &Vec<Json>) -> (r: Option<Vec<(String, String)>>)
    ensures
        match r {
            Some(h) => are_headers(a@) && address::pair_texts(h@) == headers_in(a@),
            None => !are_headers(a@),
        },
{
    let mut out: Vec<(String, String)> = Vec::new();
    let mut i: usize = 0;
    while i < a.len()
        invariant
            i <= a@.len(),
            out@.len() == i,
            forall|j: int|
                0 <= j < i ==> read_header(#[trigger] a@[j]) == Some((out@[j].0@, out@[j].1@)),
        decreases a@.len() - i,
    {
        match read_one_header(&a[i]) {
            Some(h) => {
                out.push(h);
            },
            None => {
                assert(read_header(a@[i as int]) is None);
                return None;
            },
        }
        i = i + 1;
    }
    assert(address::pair_texts(out@) =~= headers_in(a@));
    Some(out)
}

/// Looks a response up, given what its two files hold (`None` where one cannot be read).
pub fn lookup(meta: Option<&str>, body: Option<Vec<u8>>) -> (r: Option<Stored>)
    ensures
        (match r {
            Some(s) => Some(response_of(s)),
            None => None,
        }) == kept_response(
            match meta {
                Some(t) => Some(t@),
                None => None,
            },
            match body {
                Some(b) => Some(b@),
                None => None,
            },
        ),
{
    let doc: Json = json::parse_json(meta?)?;
    let _method: String = doc.get_text("method")?;
    let _url: String = doc.get_text("url")?;
    let status: i64 = doc.get_whole("status")?;
    if status < 0 || status > 65535 {
        return None;
    }
    let headers: Vec<(String, String)> = match doc.get("headers") {
        Some(Json::List(a)) => read_headers(a)?,
        _ => {
            return None;
        },
    };
    let b: Vec<u8> = match body {
        Some(b) => b,
        None => Vec::new(),
    };
    Some(Stored { status: status as u16, headers, body: b })
}

fn write_headers(h: &Vec<(String, String)>) -> (r: Vec<Json>)
    ensures
        are_headers(r@),
        headers_in(r@) == address::pair_texts(h@),
        forall|i: int|
            0 <= i < r@.len() ==> json::is_ordered(#[trigger] r@[i]) && json::has_whole_numbers(
                r@[i],
            ) && json::nests_within(r@[i], 1),
{
    let mut out: Vec<Json> = Vec::new();
    let mut i: usize = 0;
    while i < h.len()
        invariant
            i <= h@.len(),
            out@.len() == i,
            forall|j: int|
                0 <= j < i ==> read_header(#[trigger] out@[j]) == Some((h@[j].0@, h@[j].1@)),
            forall|j: int|
                0 <= j < i ==> json::is_ordered(#[trigger] out@[j]) && json::has_whole_numbers(
                    out@[j],
                ) && json::nests_within(out@[j], 1),
        decreases h@.len() - i,
    {
        let pair: Vec<Json> = vec![Json::Text(h[i].0.clone()), Json::Text(h[i].1.clone())];
        assert forall|k: int| 0 <= k < pair@.len() implies json::is_ordered(#[trigger] pair@[k])
            && json::has_whole_numbers(pair@[k]) && json::nests_within(pair@[k], 0) by {
            assert(pair@[k] is Text);
        }
        out.push(Json::List(pair));
        i = i + 1;
    }
    assert(headers_in(out@) =~= address::pair_texts(h@));
    out
}

/// Writes what is kept beside a stored body.
pub fn meta_text(m: &Meta) -> (r: String)
    ensures
        forall|body: Option<Seq<u8>>| #[trigger]
            kept_response(Some(r@), body) == Some(
                (
                    m.status,
                    address::pair_texts(m.headers@),
                    match body {
                        Some(b) => b,
                        None => Seq::empty(),
                    },
                ),
            ),
{
    let list: Vec<Json> = write_headers(&m.headers);
    let v: Vec<(String, Json)> = vec![
        ("headers".to_owned(), Json::List(list)),
        json::text_member("method", &m.method),
        json::whole_member("status", m.status as i64),
        json::text_member("url", &m.url),
    ];
    proof {
        reveal_strlit("headers");
        reveal_strlit("method");
        reveal_strlit("status");
        reveal_strlit("url");
        text::lemma_sorts_at("headers"@, "method"@, 0);
        text::lemma_sorts_at("method"@, "status"@, 0);
        text::lemma_sorts_at("status"@, "url"@, 0);
        json::lemma_in_order(v@);
        json::lemma_member_in_order(v@, 0);
        json::lemma_member_in_order(v@, 1);
        json::lemma_member_in_order(v@, 2);
        json::lemma_member_in_order(v@, 3);
        number::lemma_read_signed_decimal(m.status as i64);
        lemma_nests_deeper(list@, 1, (json::MAX_DEPTH - 2) as nat);
        assert(json::is_plain(v@[1].1) && json::is_plain(v@[2].1) && json::is_plain(v@[3].1));
        assert(json::is_ordered(v@[0].1) && json::has_whole_numbers(v@[0].1));
        assert(json::nests_within(v@[0].1, (json::MAX_DEPTH - 1) as nat));
        assert forall|i: int| 0 <= i < v@.len() implies json::is_ordered((#[trigger] v@[i]).1)
            && json::has_whole_numbers(v@[i].1) && json::nests_within(
            v@[i].1,
            (json::MAX_DEPTH - 1) as nat,
        ) by {
            assert(i == 0 || i == 1 || i == 2 || i == 3);
        }
        assert(read_meta(Json::Object(v)) == Some((m.status, address::pair_texts(m.headers@))));
    }
    json::to_compact(&Json::Object(v))
}

/// What lies at most so deep lies at most deeper.
proof fn lemma_nests_deeper(a: Seq<Json>, d: nat, e: nat)
    requires
        d <= e,
        forall|i: int| 0 <= i < a.len() ==> json::nests_within(#[trigger] a[i], d),
    ensures
        forall|i: int| 0 <= i < a.len() ==> json::nests_within(#[trigger] a[i], e),
{
    assert forall|i: int| 0 <= i < a.len() implies json::nests_within(#[trigger] a[i], e) by {
        json::lemma_nests_within(a[i], d, e);
    }
}

/// What is stored of a fetched response.
pub struct Captured {
    pub stored: Stored,
    /// What is kept beside the body.
    pub meta: String,
    /// The line for the archive's index.
    pub line: String,
}

/// What is stored of a fetched response: its status, its headers as far as they are kept, and its
/// body; and a line for the index. Once its two files are written, a lookup of the request finds
/// the response byte for byte, whatever else there is in the archive.
pub fn capture(
    method: &str,
    url: &str,
    status: u16,
    all: &Vec<(String, Option<String>)>,
    body: Vec<u8>,
) -> (r: Captured)
    ensures
        r.stored.status == status,
        address::pair_texts(r.stored.headers@) == stored_headers(header_texts(all@)),
        r.stored.body == body,
        r.line@ == index_text(resource_key(method@, url@), status, body@.len(), method@, url@),
        kept_response(Some(r.meta@), Some(r.stored.body@)) == Some(response_of(r.stored)),
        forall|texts: Map<Seq<char>, Seq<char>>, bodies: Map<Seq<char>, Seq<u8>>|
            archived(
                #[trigger] texts.insert(resource_key(method@, url@) + ".json"@, r.meta@),
                #[trigger] bodies.insert(resource_key(method@, url@) + ".body"@, r.stored.body@),
                method@,
                url@,
            ) == Some(response_of(r.stored)),
        forall|i: int|
            0 <= i < r.stored.headers@.len() ==> !is_transport_header(
                (#[trigger] r.stored.headers@[i]).0@,
            ),
{
    let line: String = index_line(key(method, url).as_str(), status, body.len(), method, url);
    let headers: Vec<(String, String)> = keep_headers(all);
    let meta: Meta = Meta {
        method: method.to_owned(),
        url: url.to_owned(),
        status,
        headers: keep_headers(all),
    };
    let kept: String = meta_text(&meta);
    proof {
        stored_headers_hold_no_transport(header_texts(all@));
        assert forall|i: int| 0 <= i < headers@.len() implies !is_transport_header(
            (#[trigger] headers@[i]).0@,
        ) by {
            assert(address::pair_texts(headers@)[i].0 == headers@[i].0@);
        }
        assert(kept_response(Some(kept@), Some(body@)) == Some(
            (status, stored_headers(header_texts(all@)), body@),
        ));
    }
    Captured { stored: Stored { status, headers, body }, meta: kept, line }
}

/// The answer to an archived request.
pub struct Reply {
    pub status: u16,
    pub headers: Vec<(String, String)>,
    /// The body, where there is one to send.
    pub body: Option<Vec<u8>>,
    /// The request is to go on the list of those that could not be answered.
    pub missed: bool,
}

/// The status that stands for an archived request that has no answer.
pub const GATEWAY_TIMEOUT: u16 = 504;

/// A status that can be sent: from 100 to 999.
pub open spec fn is_status(n: u16) -> bool {
    100 <= n <= 999
}

/// Answers an archived request: with what is stored, its status set to 200 where it is none, or
/// with a gateway timeout, so that nothing goes to the network. A request that could not be
/// answered in replay is noted.
pub fn answer(mode: Mode, stored: Option<Stored>) -> (r: Reply)
    ensures
        match stored {
            Some(s) => {
                &&& r.status == if is_status(s.status) {
                    s.status
                } else {
                    200
                }
                &&& r.headers == s.headers
                &&& s.body@.len() > 0 ==> r.body == Some(s.body)
                &&& s.body@.len() == 0 ==> r.body is None
                &&& !r.missed
            },
            None => {
                &&& r.status == GATEWAY_TIMEOUT
                &&& r.headers@.len() == 0
                &&& r.body is None
                &&& r.missed == (mode == Mode::Replay)
            },
        },
{
    match stored {
        Some(s) => {
            let status: u16 = if 100 <= s.status && s.status <= 999 {
                s.status
            } else {
                200
            };
            let body: Option<Vec<u8>> = if s.body.len() > 0 {
                Some(s.body)
            } else {
                None
            };
            Reply { status, headers: s.headers, body, missed: false }
        },
        None => Reply {
            status: GATEWAY_TIMEOUT,
            headers: Vec::new(),
            body: None,
            missed: mode == Mode::Replay,
        },
    }
}

// ---------------------------------------------------------------------------
// Laws
// ---------------------------------------------------------------------------

/// A response that is being recorded is fetched once: where it is stored already it is read.
pub proof fn recording_fetches_once()
    ensures
        archive_step(Mode::Record, false) == Step::Fetch,
        archive_step(Mode::Record, true) == Step::Read,
        archive_step(Mode::Replay, true) == Step::Read,
        archive_step(Mode::Replay, false) == Step::Read,
        mode_named("record"@) == Some(Mode::Record),
        mode_named("replay"@) == Some(Mode::Replay),
{
    reveal_strlit("record");
    reveal_strlit("replay");
    assert("record"@[2] == 'c' && "replay"@[2] == 'p');
}

/// A header is stored as it is exactly if its value can be read and it does not say how the body
/// travelled, whatever the case of its name.
pub proof fn headers_are_stored(
    all: Seq<(Seq<char>, Option<Seq<char>>)>,
    name: Seq<char>,
    value: Seq<char>,
)
    ensures
        text::lowered(name) != "content-encoding"@ && text::lowered(name) != "content-length"@
            && text::lowered(name) != "transfer-encoding"@ && text::lowered(name) != "connection"@
            ==> stored_headers(all.push((name, Some(value)))) == stored_headers(all).push((name, value)),
        text::lowered(name) == "content-encoding"@ || text::lowered(name) == "content-length"@
            || text::lowered(name) == "transfer-encoding"@ || text::lowered(name) == "connection"@
            ==> stored_headers(all.push((name, Some(value)))) == stored_headers(all),
        stored_headers(all.push((name, None))) == stored_headers(all),
        stored_headers(Seq::empty()).len() == 0,
{
    assert(all.push((name, Some(value))).drop_last() =~= all);
    assert(all.push((name, None)).drop_last() =~= all);
}

/// A response is kept under its request's own name: what is written for one method and address is
/// not found under a name that differs.
pub proof fn responses_are_kept_by_request(
    texts: Map<Seq<char>, Seq<char>>,
    bodies: Map<Seq<char>, Seq<u8>>,
    method: Seq<char>,
    url: Seq<char>,
)
    ensures
        !texts.contains_key(resource_key(method, url) + ".json"@) ==> archived(
            texts,
            bodies,
            method,
            url,
        ) is None,
        archived(texts, bodies, method, url) matches Some(r) ==> (bodies.contains_key(
            resource_key(method, url) + ".body"@,
        ) ==> r.2 == bodies[resource_key(method, url) + ".body"@]),
{
}

} // verus!

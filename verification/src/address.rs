//! Web addresses: what the browser reads of a URL, and what an entry in the address bar means.

use vstd::prelude::*;
use vstd::string::*;

use crate::codec;
use crate::number;
use crate::text;

verus! {

/// The page that opens where nothing else is asked for.
pub const WELCOME_URL: &'static str = "gator://welcome";

/// What the browser reads of a URL.
#[derive(Debug)]
pub struct UrlParts {
    /// The whole address, in its normal form.
    pub text: String,
    pub scheme: String,
    pub username: String,
    pub password: Option<String>,
    pub host: Option<String>,
    /// The port, where the address gives one that is not the scheme's own.
    pub port: Option<u16>,
    pub path: String,
    pub query: Option<String>,
    /// The query's keys and values, decoded, in order.
    pub pairs: Vec<(String, String)>,
    pub fragment: Option<String>,
}

/// `UrlParts` as mathematical values.
#[verifier::ext_equal]
pub struct UrlView {
    pub text: Seq<char>,
    pub scheme: Seq<char>,
    pub username: Seq<char>,
    pub password: Option<Seq<char>>,
    pub host: Option<Seq<char>>,
    pub port: Option<u16>,
    pub path: Seq<char>,
    pub query: Option<Seq<char>>,
    pub pairs: Seq<(Seq<char>, Seq<char>)>,
    pub fragment: Option<Seq<char>>,
}

/// The text inside an optional string.
pub open spec fn optional_text(o: Option<String>) -> Option<Seq<char>> {
    match o {
        Some(s) => Some(s@),
        None => None,
    }
}

/// The texts inside a list of pairs.
pub open spec fn pair_texts(v: Seq<(String, String)>) -> Seq<(Seq<char>, Seq<char>)> {
    Seq::new(v.len(), |i: int| (v[i].0@, v[i].1@))
}

impl View for UrlParts {
    type V = UrlView;

    open spec fn view(&self) -> UrlView {
        UrlView {
            text: self.text@,
            scheme: self.scheme@,
            username: self.username@,
            password: optional_text(self.password),
            host: optional_text(self.host),
            port: self.port,
            path: self.path@,
            query: optional_text(self.query),
            pairs: pair_texts(self.pairs@),
            fragment: optional_text(self.fragment),
        }
    }
}

/// The parts inside an optional URL.
pub open spec fn optional_parts(o: Option<UrlParts>) -> Option<UrlView> {
    match o {
        Some(p) => Some(p@),
        None => None,
    }
}

// ---------------------------------------------------------------------------
// The URL parser
// ---------------------------------------------------------------------------

/// What `url::Url::parse` makes of a text.
pub uninterp spec fn parsed_url(raw: Seq<char>) -> Option<UrlView>;

/// Parses an absolute URL with `url::Url::parse` and hands out its parts as `as_str`, `scheme`,
/// `username`, `password`, `host_str`, `port`, `path`, `query`, `query_pairs` and `fragment` give
/// them. The result depends on the text alone. Where there is no query there are no pairs.
#[verifier::external_body]
pub(crate) fn parse_url(raw: &str) -> (r: Option<UrlParts>)
    ensures
        optional_parts(r) == parsed_url(raw@),
        r matches Some(p) ==> (p.query is None ==> p.pairs@.len() == 0),
{
    url::Url::parse(raw).ok().map(|u| UrlParts {
        text: u.as_str().to_string(),
        scheme: u.scheme().to_string(),
        username: u.username().to_string(),
        password: u.password().map(str::to_string),
        host: u.host_str().map(str::to_string),
        port: u.port(),
        path: u.path().to_string(),
        query: u.query().map(str::to_string),
        pairs: u.query_pairs().into_owned().collect(),
        fragment: u.fragment().map(str::to_string),
    })
}

/// Two addresses that differ at most in their query.
pub open spec fn same_but_query(a: UrlView, b: UrlView) -> bool {
    &&& a.scheme == b.scheme
    &&& a.username == b.username
    &&& a.password == b.password
    &&& a.host == b.host
    &&& a.port == b.port
    &&& a.path == b.path
    &&& a.fragment == b.fragment
}

/// What `url::Url::query_pairs_mut` makes of a URL whose pairs are cleared and then set.
pub uninterp spec fn url_with_pairs(raw: Seq<char>, pairs: Seq<(Seq<char>, Seq<char>)>) -> Option<
    (Seq<char>, Seq<(Seq<char>, Seq<char>)>),
>;

/// Parses a URL with `url::Url::parse`, replaces its query by the given pairs with
/// `url::Url::query_pairs_mut`, `clear` and `extend_pairs`, and hands out the address and the
/// pairs that `query_pairs` then reads. There is a result exactly where the text is a URL, and
/// the pairs read are the pairs written. If the result is parsed anew it has a query with these
/// pairs; that of a web address can be, and has all other parts as they were.
#[verifier::external_body]
fn set_pairs(raw: &str, pairs: &Vec<(String, String)>) -> (r: Option<
    (String, Vec<(String, String)>),
>)
    ensures
        r is Some <==> parsed_url(raw@) is Some,
        match r {
            Some(u) => url_with_pairs(raw@, pair_texts(pairs@)) == Some((u.0@, pair_texts(u.1@))),
            None => url_with_pairs(raw@, pair_texts(pairs@)) is None,
        },
        r matches Some(u) ==> pair_texts(u.1@) == pair_texts(pairs@),
        r matches Some(u) ==> (parsed_url(u.0@) matches Some(v) ==> v.pairs == pair_texts(pairs@)
            && v.query is Some),
        r matches Some(u) ==> (parsed_url(raw@) matches Some(w) ==> (is_web_scheme(w.scheme) ==> (
        parsed_url(u.0@) matches Some(v) && same_but_query(v, w)))),
{
    let mut url = url::Url::parse(raw).ok()?;
    url.query_pairs_mut().clear().extend_pairs(pairs);
    Some((url.to_string(), url.query_pairs().into_owned().collect()))
}

/// What `url::Url::set_query` makes of a URL whose query is taken off.
pub uninterp spec fn url_without_query(raw: Seq<char>) -> Option<Seq<char>>;

/// Parses a URL with `url::Url::parse` and takes its query off with `url::Url::set_query`. There
/// is a result exactly where the text is a URL. If the result is parsed anew it has no query; that
/// of a web address can be, and has all other parts as they were. (Of an address without a host the
/// path may lose spaces at its end.)
#[verifier::external_body]
fn take_query_off(raw: &str) -> (r: Option<String>)
    ensures
        optional_text(r) == url_without_query(raw@),
        r is Some <==> parsed_url(raw@) is Some,
        r matches Some(s) ==> (parsed_url(s@) matches Some(v) ==> v.query is None && v.pairs.len()
            == 0),
        r matches Some(s) ==> (parsed_url(raw@) matches Some(w) ==> (is_web_scheme(w.scheme) ==> (
        parsed_url(s@) matches Some(v) && same_but_query(v, w)))),
{
    let mut url = url::Url::parse(raw).ok()?;
    url.set_query(None);
    Some(url.to_string())
}

/// What `url::Url::parse_with_params` makes of a text and some pairs.
pub uninterp spec fn url_with_params(raw: Seq<char>, pairs: Seq<(Seq<char>, Seq<char>)>) -> Option<
    Seq<char>,
>;

/// Parses a URL and adds pairs to its query with `url::Url::parse_with_params`. There is a result
/// exactly where the text is a URL.
#[verifier::external_body]
pub(crate) fn parse_with_params(raw: &str, pairs: &Vec<(String, String)>) -> (r: Option<String>)
    ensures
        optional_text(r) == url_with_params(raw@, pair_texts(pairs@)),
        r is Some <==> parsed_url(raw@) is Some,
{
    url::Url::parse_with_params(raw, pairs).ok().map(|u| u.to_string())
}

// ---------------------------------------------------------------------------
// Origins and hosts
// ---------------------------------------------------------------------------

pub open spec fn is_web_scheme(scheme: Seq<char>) -> bool {
    scheme == "http"@ || scheme == "https"@
}

/// `scheme://host`, and `:port` where the port is not the scheme's own; for web addresses only.
pub open spec fn origin(u: UrlView) -> Option<Seq<char>> {
    if !is_web_scheme(u.scheme) {
        None
    } else {
        match u.host {
            None => None,
            Some(h) => match u.port {
                None => Some(u.scheme + "://"@ + h),
                Some(p) => Some(u.scheme + "://"@ + h + ":"@ + number::decimal(p as nat)),
            },
        }
    }
}

/// The origin of a text: that of the URL it is, if it is one.
pub open spec fn origin_of_text(raw: Seq<char>) -> Option<Seq<char>> {
    match parsed_url(raw) {
        Some(u) => origin(u),
        None => None,
    }
}

/// A host without any leading `www.`.
pub open spec fn bare_host(u: UrlView) -> Option<Seq<char>> {
    match u.host {
        Some(h) => Some(text::without_leading(h, "www."@)),
        None => None,
    }
}

/// Is this a scheme of the web?
pub fn web_scheme(scheme: &str) -> (r: bool)
    ensures
        r == is_web_scheme(scheme@),
{
    text::same(scheme, "http") || text::same(scheme, "https")
}

/// The origin of a parsed URL.
pub fn origin_of_parts(u: &UrlParts) -> (r: Option<String>)
    ensures
        optional_text(r) == origin(u@),
{
    if !web_scheme(u.scheme.as_str()) {
        return None;
    }
    match &u.host {
        None => None,
        Some(h) => {
            let mut out: String = u.scheme.clone();
            out.append("://");
            out.append(h.as_str());
            match u.port {
                None => {},
                Some(p) => {
                    out.append(":");
                    out.append(number::decimal_string(p as u64).as_str());
                },
            }
            Some(out)
        },
    }
}

/// The origin of an address, by which saved logins, highlights and permissions are found; `None`
/// for what is not a web address.
pub fn origin_of(url: &str) -> (r: Option<String>)
    ensures
        optional_text(r) == origin_of_text(url@),
{
    match parse_url(url) {
        Some(u) => origin_of_parts(&u),
        None => None,
    }
}

/// The host of a parsed URL without any leading `www.`.
pub fn host_of_parts(u: &UrlParts) -> (r: Option<String>)
    ensures
        optional_text(r) == bare_host(u@),
{
    match &u.host {
        Some(h) => {
            proof {
                reveal_strlit("www.");
            }
            Some(text::trim_start_matches(h.as_str(), "www."))
        },
        None => None,
    }
}

/// The host of an address without any leading `www.`.
pub open spec fn host_of_text(raw: Seq<char>) -> Option<Seq<char>> {
    match parsed_url(raw) {
        Some(u) => bare_host(u),
        None => None,
    }
}

/// The host of an address without any leading `www.`; `None` for what is no address or has none.
pub fn host_of(url: &str) -> (r: Option<String>)
    ensures
        optional_text(r) == host_of_text(url@),
{
    match parse_url(url) {
        Some(u) => host_of_parts(&u),
        None => None,
    }
}

/// The value of the first pair with this key.
pub open spec fn first_value(pairs: Seq<(Seq<char>, Seq<char>)>, key: Seq<char>) -> Option<
    Seq<char>,
>
    decreases pairs.len(),
{
    if pairs.len() == 0 {
        None
    } else if pairs[0].0 == key {
        Some(pairs[0].1)
    } else {
        first_value(pairs.skip(1), key)
    }
}

/// The value of the first pair with this key.
pub fn find_value(pairs: &Vec<(String, String)>, key: &str) -> (r: Option<String>)
    ensures
        optional_text(r) == first_value(pair_texts(pairs@), key@),
{
    let mut i: usize = 0;
    let ghost all = pair_texts(pairs@);
    assert(all.skip(0) =~= all);
    while i < pairs.len()
        invariant
            i <= pairs@.len(),
            all == pair_texts(pairs@),
            first_value(all, key@) == first_value(all.skip(i as int), key@),
        decreases pairs@.len() - i,
    {
        assert(all.skip(i as int)[0] == all[i as int]);
        if text::same(pairs[i].0.as_str(), key) {
            return Some(pairs[i].1.clone());
        }
        assert(all.skip(i as int).skip(1) =~= all.skip(i + 1));
        i = i + 1;
    }
    None
}

/// Some pair has this key and this value.
pub open spec fn has_pair(
    pairs: Seq<(Seq<char>, Seq<char>)>,
    key: Seq<char>,
    value: Seq<char>,
) -> bool {
    pairs.contains((key, value))
}

/// Does some pair have this key and this value?
pub fn contains_pair(pairs: &Vec<(String, String)>, key: &str, value: &str) -> (r: bool)
    ensures
        r == has_pair(pair_texts(pairs@), key@, value@),
{
    let mut i: usize = 0;
    let ghost all = pair_texts(pairs@);
    while i < pairs.len()
        invariant
            i <= pairs@.len(),
            all == pair_texts(pairs@),
            forall|j: int| 0 <= j < i ==> all[j] != (key@, value@),
        decreases pairs@.len() - i,
    {
        if text::same(pairs[i].0.as_str(), key) && text::same(pairs[i].1.as_str(), value) {
            assert(all[i as int] == (key@, value@));
            return true;
        }
        i = i + 1;
    }
    false
}

// ---------------------------------------------------------------------------
// Tracking parameters
// ---------------------------------------------------------------------------

/// A query key that carries a click or campaign identifier, whatever its case.
pub open spec fn is_tracking(key: Seq<char>) -> bool {
    let k = text::lowered(key);
    ||| "utm_"@.is_prefix_of(k)
    ||| k == "fbclid"@
    ||| k == "gclid"@
    ||| k == "gclsrc"@
    ||| k == "dclid"@
    ||| k == "wbraid"@
    ||| k == "gbraid"@
    ||| k == "msclkid"@
    ||| k == "yclid"@
    ||| k == "twclid"@
    ||| k == "ttclid"@
    ||| k == "igshid"@
    ||| k == "mc_eid"@
    ||| k == "mc_cid"@
    ||| k == "_hsenc"@
    ||| k == "_hsmi"@
    ||| k == "vero_id"@
    ||| k == "oly_anon_id"@
    ||| k == "oly_enc_id"@
    ||| k == "rb_clickid"@
    ||| k == "s_cid"@
    ||| k == "mkt_tok"@
    ||| k == "ml_subscriber"@
    ||| k == "ml_subscriber_hash"@
    ||| k == "spm"@
    ||| k == "scm"@
}

/// Is this query key a tracking parameter?
pub fn is_tracking_param(k: &str) -> (r: bool)
    ensures
        r == is_tracking(k@),
{
    let l: String = text::to_lower(k);
    let k: &str = l.as_str();
    text::starts_with(k, "utm_") || text::same(k, "fbclid") || text::same(k, "gclid") || text::same(
        k,
        "gclsrc",
    ) || text::same(k, "dclid") || text::same(k, "wbraid") || text::same(k, "gbraid")
        || text::same(k, "msclkid") || text::same(k, "yclid") || text::same(k, "twclid")
        || text::same(k, "ttclid") || text::same(k, "igshid") || text::same(k, "mc_eid")
        || text::same(k, "mc_cid") || text::same(k, "_hsenc") || text::same(k, "_hsmi")
        || text::same(k, "vero_id") || text::same(k, "oly_anon_id") || text::same(k, "oly_enc_id")
        || text::same(k, "rb_clickid") || text::same(k, "s_cid") || text::same(k, "mkt_tok")
        || text::same(k, "ml_subscriber") || text::same(k, "ml_subscriber_hash") || text::same(
        k,
        "spm",
    ) || text::same(k, "scm")
}

/// The pairs whose key is no tracking parameter, in order.
pub open spec fn untracked(pairs: Seq<(Seq<char>, Seq<char>)>) -> Seq<(Seq<char>, Seq<char>)>
    decreases pairs.len(),
{
    if pairs.len() == 0 {
        Seq::empty()
    } else if is_tracking(pairs.last().0) {
        untracked(pairs.drop_last())
    } else {
        untracked(pairs.drop_last()).push(pairs.last())
    }
}

/// None of the pairs left is a tracking parameter, each was there before, and what was no
/// tracking parameter is still there.
pub proof fn untracked_keeps_the_rest(pairs: Seq<(Seq<char>, Seq<char>)>)
    ensures
        forall|i: int| 0 <= i < untracked(pairs).len() ==> !is_tracking(#[trigger] untracked(pairs)[i].0),
        forall|i: int|
            0 <= i < untracked(pairs).len() ==> pairs.contains(#[trigger] untracked(pairs)[i]),
        forall|j: int|
            0 <= j < pairs.len() && !is_tracking((#[trigger] pairs[j]).0) ==> untracked(pairs).contains(
                pairs[j],
            ),
    decreases pairs.len(),
{
    if pairs.len() > 0 {
        let rest = pairs.drop_last();
        untracked_keeps_the_rest(rest);
        let n = untracked(rest).len() as int;
        assert forall|i: int| 0 <= i < untracked(pairs).len() implies !is_tracking(
            #[trigger] untracked(pairs)[i].0,
        ) && pairs.contains(untracked(pairs)[i]) by {
            if i < n {
                assert(untracked(pairs)[i] == untracked(rest)[i]);
                assert(rest.contains(untracked(rest)[i]));
                let j = choose|j: int| 0 <= j < rest.len() && rest[j] == untracked(rest)[i];
                assert(pairs[j] == untracked(rest)[i]);
            } else {
                assert(pairs[pairs.len() - 1] == untracked(pairs)[i]);
            }
        }
        assert forall|j: int|
            0 <= j < pairs.len() && !is_tracking((#[trigger] pairs[j]).0) implies untracked(
            pairs,
        ).contains(pairs[j]) by {
            if j < rest.len() {
                assert(rest[j] == pairs[j]);
                assert(untracked(rest).contains(rest[j]));
                let i = choose|i: int|
                    0 <= i < untracked(rest).len() && untracked(rest)[i] == rest[j];
                assert(untracked(pairs)[i] == pairs[j]);
            } else {
                assert(untracked(pairs)[n] == pairs[j]);
            }
        }
    }
}

/// Taking the tracking parameters off a second time changes nothing.
pub proof fn untracked_is_idempotent(pairs: Seq<(Seq<char>, Seq<char>)>)
    ensures
        untracked(untracked(pairs)) == untracked(pairs),
    decreases pairs.len(),
{
    if pairs.len() > 0 {
        untracked_is_idempotent(pairs.drop_last());
        if !is_tracking(pairs.last().0) {
            assert(untracked(pairs).drop_last() =~= untracked(pairs.drop_last()));
        }
    }
}

/// What is left is no longer than what was there, and as long only where nothing was taken off.
proof fn lemma_untracked_len(pairs: Seq<(Seq<char>, Seq<char>)>)
    ensures
        untracked(pairs).len() <= pairs.len(),
        untracked(pairs).len() == pairs.len() ==> untracked(pairs) == pairs,
    decreases pairs.len(),
{
    if pairs.len() > 0 {
        lemma_untracked_len(pairs.drop_last());
        if untracked(pairs).len() == pairs.len() {
            assert(untracked(pairs) =~= pairs);
        }
    } else {
        assert(untracked(pairs) =~= pairs);
    }
}

/// A copy of a list of pairs.
pub fn copy_pairs(pairs: &Vec<(String, String)>) -> (r: Vec<(String, String)>)
    ensures
        pair_texts(r@) == pair_texts(pairs@),
{
    let mut out: Vec<(String, String)> = Vec::new();
    let mut i: usize = 0;
    while i < pairs.len()
        invariant
            i <= pairs@.len(),
            out@.len() == i,
            forall|j: int|
                0 <= j < i ==> (#[trigger] out@[j]).0@ == pairs@[j].0@ && out@[j].1@ == pairs@[j].1@,
        decreases pairs@.len() - i,
    {
        out.push((pairs[i].0.clone(), pairs[i].1.clone()));
        i = i + 1;
    }
    assert(pair_texts(out@) =~= pair_texts(pairs@));
    out
}

/// The pairs whose key is no tracking parameter.
pub fn untracked_pairs(pairs: &Vec<(String, String)>) -> (r: Vec<(String, String)>)
    ensures
        pair_texts(r@) == untracked(pair_texts(pairs@)),
{
    let mut out: Vec<(String, String)> = Vec::new();
    let mut i: usize = 0;
    let ghost all = pair_texts(pairs@);
    assert(pair_texts(out@) =~= untracked(all.take(0)));
    while i < pairs.len()
        invariant
            i <= pairs@.len(),
            all == pair_texts(pairs@),
            pair_texts(out@) == untracked(all.take(i as int)),
        decreases pairs@.len() - i,
    {
        let ghost before = pair_texts(out@);
        assert(all.take(i + 1).drop_last() =~= all.take(i as int));
        assert(all.take(i + 1).last() == all[i as int]);
        if !is_tracking_param(pairs[i].0.as_str()) {
            out.push((pairs[i].0.clone(), pairs[i].1.clone()));
            assert(pair_texts(out@) =~= before.push(all[i as int]));
        }
        i = i + 1;
    }
    assert(all.take(pairs@.len() as int) =~= all);
    out
}

/// An address without its tracking parameters: with only the other pairs in its query, or with no
/// query where there are none. What is no URL, has no query, or has pairs of which none is a tracking
/// parameter, stays as it is.
pub open spec fn stripped(raw: Seq<char>) -> Seq<char> {
    match parsed_url(raw) {
        None => raw,
        Some(u) => if u.query is None || (u.pairs.len() > 0 && untracked(u.pairs) == u.pairs) {
            raw
        } else if untracked(u.pairs).len() == 0 {
            url_without_query(raw).unwrap()
        } else {
            url_with_pairs(raw, untracked(u.pairs)).unwrap().0
        },
    }
}

/// An address with the given pairs in place of its query, and the pairs that it then has. The
/// pairs it has are those that it was given.
pub fn address_with_pairs(raw: &str, pairs: &Vec<(String, String)>) -> (r: Option<
    (String, Vec<(String, String)>),
>)
    ensures
        r is Some <==> parsed_url(raw@) is Some,
        r matches Some(u) ==> url_with_pairs(raw@, pair_texts(pairs@)) == Some(
            (u.0@, pair_texts(pairs@)),
        ) && pair_texts(u.1@) == pair_texts(pairs@),
        r matches Some(u) ==> (parsed_url(u.0@) matches Some(v) ==> v.pairs == pair_texts(pairs@)
            && v.query is Some),
        r matches Some(u) ==> (parsed_url(raw@) matches Some(w) ==> (is_web_scheme(w.scheme) ==> (
        parsed_url(u.0@) matches Some(v) && same_but_query(v, w)))),
{
    set_pairs(raw, pairs)
}

/// Takes the tracking parameters off an address. What has none is left as it is written, so a
/// second time changes nothing; an address that is left with no pair has no query. A web address stays one: its other parts are as they were, and its
/// pairs are those that are no tracking parameters.
pub fn strip_tracking_params(raw: &str) -> (r: String)
    ensures
        r@ == stripped(raw@),
        stripped(r@) == r@,
        match parsed_url(raw@) {
            None => r@ == raw@,
            Some(u) => {
                &&& u.query is None ==> r@ == raw@
                &&& u.pairs.len() > 0 && untracked(u.pairs) == u.pairs ==> r@ == raw@
                &&& untracked(u.pairs) != u.pairs && untracked(u.pairs).len() > 0 ==> url_with_pairs(
                    raw@,
                    untracked(u.pairs),
                ) == Some((r@, untracked(u.pairs)))
                &&& u.query is Some && untracked(u.pairs).len() == 0 ==> url_without_query(raw@)
                    == Some(r@)
                &&& parsed_url(r@) matches Some(v) ==> (v.query is None <==> untracked(
                    u.pairs,
                ).len() == 0)
                &&& is_web_scheme(u.scheme) ==> (parsed_url(r@) matches Some(v) && same_but_query(
                    v,
                    u,
                ) && v.pairs == untracked(u.pairs))
            },
        },
{
    let url: UrlParts = match parse_url(raw) {
        None => {
            return raw.to_owned();
        },
        Some(u) => u,
    };
    let kept: Vec<(String, String)> = untracked_pairs(&url.pairs);
    proof {
        assert(kept@.len() == pair_texts(kept@).len());
        assert(url.pairs@.len() == pair_texts(url.pairs@).len());
        lemma_untracked_len(url@.pairs);
        untracked_is_idempotent(url@.pairs);
        if url.query is None {
            assert(untracked(url@.pairs) =~= url@.pairs);
        }
    }
    if url.query.is_none() || (kept.len() > 0 && kept.len() == url.pairs.len()) {
        return raw.to_owned();
    }
    if kept.len() == 0 {
        match take_query_off(raw) {
            Some(s) => {
                proof {
                    if let Some(v) = parsed_url(s@) {
                        assert(v.pairs =~= untracked(url@.pairs));
                    }
                }
                s
            },
            None => raw.to_owned(),
        }
    } else {
        match address_with_pairs(raw, &kept) {
            Some(u) => u.0,
            None => raw.to_owned(),
        }
    }
}

// ---------------------------------------------------------------------------
// The address bar
// ---------------------------------------------------------------------------

/// An entry that names a script, however it is indented, capitalised or spelled: it starts with the
/// word, or is an address with that scheme.
pub open spec fn is_script_entry(raw: Seq<char>) -> bool {
    ||| "javascript:"@.is_prefix_of(text::lowered(text::trimmed_start(raw)))
    ||| parsed_url(raw) matches Some(u) && u.scheme == "javascript"@
}

/// The address of a search: the template with the query in place of each `%s`.
pub open spec fn search_address(template: Seq<char>, query: Seq<char>) -> Seq<char> {
    text::replaced(template, "%s"@, codec::query_encoded(query))
}

/// What an entry in the address bar loads: an address as it is, a bare domain over https, or
/// else a search. Addresses lose their tracking parameters; a script is always searched for.
pub open spec fn entry_target(raw: Seq<char>, template: Seq<char>) -> Seq<char> {
    if text::has(raw, "://"@) && !is_script_entry(raw) {
        stripped(raw)
    } else if raw.contains('.') && !raw.contains(' ') && !is_script_entry(raw) {
        stripped("https://"@ + raw)
    } else {
        search_address(template, raw)
    }
}

/// A script typed into the address bar is never loaded: it is searched for.
pub proof fn script_entries_are_searched(raw: Seq<char>, template: Seq<char>)
    requires
        is_script_entry(raw),
    ensures
        entry_target(raw, template) == search_address(template, raw),
{
}

/// The address of a search for `query`.
pub fn search_url(template: &str, query: &str) -> (r: String)
    ensures
        r@ == search_address(template@, query@),
{
    proof {
        reveal_strlit("%s");
    }
    text::replace(template, "%s", codec::url_encode(query).as_str())
}

/// Does an entry name a script?
fn names_script(raw: &str) -> (r: bool)
    ensures
        r == is_script_entry(raw@),
{
    if text::starts_with(
        text::to_lower(text::trim_start(raw).as_str()).as_str(),
        "javascript:",
    ) {
        return true;
    }
    match parse_url(raw) {
        Some(u) => text::same(u.scheme.as_str(), "javascript"),
        None => false,
    }
}

/// Resolves an address bar entry to what is loaded.
pub fn omnibox_target(raw: &str, search_template: &str) -> (r: String)
    ensures
        r@ == entry_target(raw@, search_template@),
{
    let is_js: bool = names_script(raw);
    if text::contains(raw, "://") && !is_js {
        strip_tracking_params(raw)
    } else if text::contains_char(raw, '.') && !text::contains_char(raw, ' ') && !is_js {
        let mut full: String = "https://".to_owned();
        full.append(raw);
        strip_tracking_params(full.as_str())
    } else {
        search_url(search_template, raw)
    }
}

// ---------------------------------------------------------------------------
// Starting up
// ---------------------------------------------------------------------------

/// The first page: the address given on the command line if it is one, else the welcome page;
/// and whether something was given that is no address.
pub open spec fn first_page(arg: Option<Seq<char>>) -> (Seq<char>, bool) {
    match arg {
        None => (WELCOME_URL@, false),
        Some(a) => match parsed_url(a) {
            Some(u) => (u.text, false),
            None => (WELCOME_URL@, true),
        },
    }
}

/// Chooses the first page. The second result tells that the argument was no address.
pub fn content_url(arg: Option<&str>) -> (r: (String, bool))
    ensures
        (r.0@, r.1) == first_page(
            match arg {
                Some(a) => Some(a@),
                None => None,
            },
        ),
{
    match arg {
        None => (WELCOME_URL.to_owned(), false),
        Some(a) => match parse_url(a) {
            Some(u) => (u.text, false),
            None => (WELCOME_URL.to_owned(), true),
        },
    }
}

/// Was an address given on the command line? Then it takes the place of the saved session.
pub fn cli_url_given(arg: Option<&str>) -> (r: bool)
    ensures
        r == (arg matches Some(a) && parsed_url(a@) is Some),
{
    match arg {
        None => false,
        Some(a) => parse_url(a).is_some(),
    }
}

// ---------------------------------------------------------------------------
// Laws
// ---------------------------------------------------------------------------

/// An entry without `://` that holds a space is searched for, whatever else it holds.
pub proof fn entries_with_a_space_are_searched(raw: Seq<char>, template: Seq<char>)
    requires
        forall|i: int| !text::occurs_at(raw, "://"@, i),
        exists|i: int| 0 <= i < raw.len() && raw[i] == ' ',
    ensures
        entry_target(raw, template) == text::replaced(template, "%s"@, codec::query_encoded(raw)),
{
    let i = choose|i: int| 0 <= i < raw.len() && raw[i] == ' ';
    assert(raw.contains(raw[i]));
}

/// An entry without `://` and without a dot is searched for.
pub proof fn entries_without_a_dot_are_searched(raw: Seq<char>, template: Seq<char>)
    requires
        forall|i: int| !text::occurs_at(raw, "://"@, i),
        forall|i: int| 0 <= i < raw.len() ==> raw[i] != '.',
    ensures
        entry_target(raw, template) == text::replaced(template, "%s"@, codec::query_encoded(raw)),
{
}

/// An entry with a dot and no space, without `://`, that names no script is a domain: it is loaded
/// over https, without its tracking parameters.
pub proof fn bare_domains_load_over_https(raw: Seq<char>, template: Seq<char>)
    requires
        forall|i: int| !text::occurs_at(raw, "://"@, i),
        exists|i: int| 0 <= i < raw.len() && raw[i] == '.',
        forall|i: int| 0 <= i < raw.len() ==> raw[i] != ' ',
        !"javascript:"@.is_prefix_of(text::lowered(text::trimmed_start(raw))),
        parsed_url(raw) matches Some(u) ==> u.scheme != "javascript"@,
    ensures
        entry_target(raw, template) == stripped("https://"@ + raw),
{
    let i = choose|i: int| 0 <= i < raw.len() && raw[i] == '.';
    assert(raw.contains(raw[i]));
}

/// An entry with `://` that names no script is an address: it is loaded as it is, without its
/// tracking parameters.
pub proof fn addresses_load_as_they_are(raw: Seq<char>, template: Seq<char>, i: int)
    requires
        text::occurs_at(raw, "://"@, i),
        !"javascript:"@.is_prefix_of(text::lowered(text::trimmed_start(raw))),
        parsed_url(raw) matches Some(u) ==> u.scheme != "javascript"@,
    ensures
        entry_target(raw, template) == stripped(raw),
        parsed_url(raw) is None ==> entry_target(raw, template) == raw,
        parsed_url(raw) matches Some(u) ==> (u.query is None ==> entry_target(raw, template) == raw),
{
}

/// A script, however it is indented or capitalised, is searched for like any other words.
pub proof fn scripts_are_words(raw: Seq<char>, template: Seq<char>)
    requires
        "javascript:"@.is_prefix_of(text::lowered(text::trimmed_start(raw))) || (parsed_url(raw) matches Some(u)
            && u.scheme == "javascript"@),
    ensures
        entry_target(raw, template) == text::replaced(template, "%s"@, codec::query_encoded(raw)),
{
}

/// The origin of a web address is its scheme and its host, and its port where it is not the usual one;
/// nothing else has an origin.
pub proof fn origins_are_scheme_host_and_port(u: UrlView, h: Seq<char>, p: u16)
    ensures
        u.scheme == "https"@ && u.host == Some(h) && u.port is None ==> origin(u) == Some(
            "https"@ + "://"@ + h,
        ),
        u.scheme == "http"@ && u.host == Some(h) && u.port is None ==> origin(u) == Some(
            "http"@ + "://"@ + h,
        ),
        u.scheme == "https"@ && u.host == Some(h) && u.port == Some(p) ==> origin(u) == Some(
            "https"@ + "://"@ + h + ":"@ + number::decimal(p as nat),
        ),
        u.scheme == "http"@ && u.host == Some(h) && u.port == Some(p) ==> origin(u) == Some(
            "http"@ + "://"@ + h + ":"@ + number::decimal(p as nat),
        ),
        u.scheme != "http"@ && u.scheme != "https"@ ==> origin(u) is None,
        u.host is None ==> origin(u) is None,
{
}

/// A host is taken without the `www.` before it, and as it is where there is none.
pub proof fn hosts_lose_their_www(u: UrlView, h: Seq<char>)
    requires
        !"www."@.is_prefix_of(h),
    ensures
        u.host == Some(h) ==> bare_host(u) == Some(h),
        u.host == Some("www."@ + h) ==> bare_host(u) == Some(h),
        u.host is None ==> bare_host(u) is None,
{
    reveal_strlit("www.");
    let w = "www."@ + h;
    assert("www."@.is_prefix_of(w)) by {
        assert(w.subrange(0, 4) =~= "www."@);
    }
    assert(w.skip(4) =~= h);
    assert(text::without_leading(w, "www."@) == text::without_leading(h, "www."@));
}

/// Of several pairs with the same key the first counts, and pairs with other keys do not.
pub proof fn the_first_value_counts(pairs: Seq<(Seq<char>, Seq<char>)>, key: Seq<char>, i: int)
    ensures
        0 <= i < pairs.len() && pairs[i].0 == key && (forall|j: int|
            0 <= j < i ==> (#[trigger] pairs[j]).0 != key) ==> first_value(pairs, key) == Some(pairs[i].1),
        (forall|j: int| 0 <= j < pairs.len() ==> (#[trigger] pairs[j]).0 != key) ==> first_value(pairs, key)
            is None,
    decreases pairs.len(),
{
    if pairs.len() > 0 {
        let rest = pairs.skip(1);
        the_first_value_counts(rest, key, i - 1);
        if pairs[0].0 != key {
            assert forall|j: int| 0 <= j < rest.len() implies rest[j] == #[trigger] pairs[j + 1] by {}
            if 0 < i < pairs.len() && (forall|j: int| 0 <= j < i ==> (#[trigger] pairs[j]).0 != key) {
                assert forall|j: int| 0 <= j < i - 1 implies (#[trigger] rest[j]).0 != key by {
                    assert(rest[j] == pairs[j + 1]);
                }
            }
            if forall|j: int| 0 <= j < pairs.len() ==> (#[trigger] pairs[j]).0 != key {
                assert forall|j: int| 0 <= j < rest.len() implies (#[trigger] rest[j]).0 != key by {
                    assert(rest[j] == pairs[j + 1]);
                }
            }
        }
    }
}

/// The keys that carry a campaign or a click are known, in small letters or capitals; so is any that
/// starts like those of a campaign.
pub proof fn tracking_keys_are_known(key: Seq<char>, rest: Seq<char>)
    ensures
        text::lowered(key) == "utm_"@ + rest ==> is_tracking(key),
        text::lowered(key) == "fbclid"@ ==> is_tracking(key),
        text::lowered(key) == "gclid"@ ==> is_tracking(key),
        text::lowered(key) == "gclsrc"@ ==> is_tracking(key),
        text::lowered(key) == "dclid"@ ==> is_tracking(key),
        text::lowered(key) == "wbraid"@ ==> is_tracking(key),
        text::lowered(key) == "gbraid"@ ==> is_tracking(key),
        text::lowered(key) == "msclkid"@ ==> is_tracking(key),
        text::lowered(key) == "yclid"@ ==> is_tracking(key),
        text::lowered(key) == "twclid"@ ==> is_tracking(key),
        text::lowered(key) == "ttclid"@ ==> is_tracking(key),
        text::lowered(key) == "igshid"@ ==> is_tracking(key),
        text::lowered(key) == "mc_eid"@ ==> is_tracking(key),
        text::lowered(key) == "mc_cid"@ ==> is_tracking(key),
        text::lowered(key) == "_hsenc"@ ==> is_tracking(key),
        text::lowered(key) == "_hsmi"@ ==> is_tracking(key),
        text::lowered(key) == "vero_id"@ ==> is_tracking(key),
        text::lowered(key) == "oly_anon_id"@ ==> is_tracking(key),
        text::lowered(key) == "oly_enc_id"@ ==> is_tracking(key),
        text::lowered(key) == "rb_clickid"@ ==> is_tracking(key),
        text::lowered(key) == "s_cid"@ ==> is_tracking(key),
        text::lowered(key) == "mkt_tok"@ ==> is_tracking(key),
        text::lowered(key) == "ml_subscriber"@ ==> is_tracking(key),
        text::lowered(key) == "ml_subscriber_hash"@ ==> is_tracking(key),
        text::lowered(key) == "spm"@ ==> is_tracking(key),
        text::lowered(key) == "scm"@ ==> is_tracking(key),
{
    if text::lowered(key) == "utm_"@ + rest {
        assert("utm_"@.is_prefix_of("utm_"@ + rest)) by {
            assert(("utm_"@ + rest).subrange(0, "utm_"@.len() as int) =~= "utm_"@);
        }
    }
}

/// Every other key is an ordinary one. So a key of one or two letters, such as that of a search, carries
/// neither a campaign nor a click.
pub proof fn other_keys_are_ordinary(key: Seq<char>)
    ensures
        key.len() < 3 ==> !is_tracking(key),
        is_tracking(key) ==> {
            let k = text::lowered(key);
            "utm_"@.is_prefix_of(k) || k == "fbclid"@ || k == "gclid"@ || k == "gclsrc"@ || k == "dclid"@ || k == "wbraid"@ || k == "gbraid"@ || k == "msclkid"@ || k == "yclid"@ || k == "twclid"@ || k == "ttclid"@ || k == "igshid"@ || k == "mc_eid"@ || k == "mc_cid"@ || k == "_hsenc"@ || k == "_hsmi"@ || k == "vero_id"@ || k == "oly_anon_id"@ || k == "oly_enc_id"@ || k == "rb_clickid"@ || k == "s_cid"@ || k == "mkt_tok"@ || k == "ml_subscriber"@ || k == "ml_subscriber_hash"@ || k == "spm"@ || k == "scm"@
        },
{
    reveal_strlit("utm_");
    reveal_strlit("fbclid");
    reveal_strlit("gclid");
    reveal_strlit("gclsrc");
    reveal_strlit("dclid");
    reveal_strlit("wbraid");
    reveal_strlit("gbraid");
    reveal_strlit("msclkid");
    reveal_strlit("yclid");
    reveal_strlit("twclid");
    reveal_strlit("ttclid");
    reveal_strlit("igshid");
    reveal_strlit("mc_eid");
    reveal_strlit("mc_cid");
    reveal_strlit("_hsenc");
    reveal_strlit("_hsmi");
    reveal_strlit("vero_id");
    reveal_strlit("oly_anon_id");
    reveal_strlit("oly_enc_id");
    reveal_strlit("rb_clickid");
    reveal_strlit("s_cid");
    reveal_strlit("mkt_tok");
    reveal_strlit("ml_subscriber");
    reveal_strlit("ml_subscriber_hash");
    reveal_strlit("spm");
    reveal_strlit("scm");
    assert(text::lowered(key).len() == key.len());
}

/// What is left of a query is, in order, what carries no campaign or click.
pub proof fn the_rest_keeps_its_order(pairs: Seq<(Seq<char>, Seq<char>)>)
    ensures
        untracked(pairs) == pairs.filter(|p: (Seq<char>, Seq<char>)| !is_tracking(p.0)),
    decreases pairs.len(),
{
    reveal(Seq::filter);
    if pairs.len() > 0 {
        the_rest_keeps_its_order(pairs.drop_last());
    }
}

/// The address of a search has the query, encoded, in the place that its template leaves for it.
pub proof fn searches_fill_the_template(a: Seq<char>, b: Seq<char>, query: Seq<char>)
    requires
        !a.contains('%'),
        !b.contains('%'),
    ensures
        search_address(a + "%s"@ + b, query) == a + codec::query_encoded(query) + b,
{
    reveal_strlit("%s");
    let p = "%s"@;
    let s = a + p + b;
    let n = a.len() as int;
    let r = codec::query_encoded(query);
    assert(s.subrange(n, n + 2) =~= p);
    assert forall|k: int| 0 <= k < n implies !#[trigger] text::occurs_at(s, p, k) by {
        if text::occurs_at(s, p, k) {
            assert(s.subrange(k, k + 2)[0] == s[k] && s[k] == a[k]);
        }
    }
    text::each_copy_is_replaced(s, p, r, n);
    assert(s.take(n) =~= a);
    assert(s.skip(n + 2) =~= b);
    assert forall|k: int| !#[trigger] text::occurs_at(b, p, k) by {
        if text::occurs_at(b, p, k) {
            assert(b.subrange(k, k + 2)[0] == b[k]);
        }
    }
    text::each_copy_is_replaced(b, p, r, 0);
}

/// The browser opens with the address that it was given, and else with the welcome page; it says so
/// where what it was given is no address.
pub proof fn the_given_page_opens_first(a: Seq<char>)
    ensures
        first_page(None) == ("gator://welcome"@, false),
        parsed_url(a) matches Some(u) ==> first_page(Some(a)) == (u.text, false),
        parsed_url(a) is None ==> first_page(Some(a)) == ("gator://welcome"@, true),
{
}

} // verus!

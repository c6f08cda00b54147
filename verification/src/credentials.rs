//! Saved logins: filling them in, saving them, and warning of sites that look like one.

use vstd::prelude::*;
use vstd::string::*;

use crate::address;
use crate::codec;
use crate::distance;
use crate::json;
use crate::json::Json;
use crate::number;
use crate::text;

verus! {

/// A saved login.
#[derive(Debug)]
pub struct Credential {
    pub origin: String,
    pub username: String,
    pub password: String,
    /// When it last changed, in milliseconds since 1970.
    pub updated: i64,
}

/// `Credential` as mathematical values.
#[verifier::ext_equal]
pub struct CredentialView {
    pub origin: Seq<char>,
    pub username: Seq<char>,
    pub password: Seq<char>,
    pub updated: i64,
}

impl View for Credential {
    type V = CredentialView;

    open spec fn view(&self) -> CredentialView {
        CredentialView {
            origin: self.origin@,
            username: self.username@,
            password: self.password@,
            updated: self.updated,
        }
    }
}

/// The logins of a list.
pub open spec fn credential_views(v: Seq<Credential>) -> Seq<CredentialView> {
    Seq::new(v.len(), |i: int| v[i]@)
}

/// The place of the first login of an origin.
pub open spec fn first_for(v: Seq<CredentialView>, origin: Seq<char>) -> Option<int>
    decreases v.len(),
{
    if v.len() == 0 {
        None
    } else {
        match first_for(v.drop_last(), origin) {
            Some(i) => Some(i),
            None => if v.last().origin == origin {
                Some(v.len() - 1)
            } else {
                None
            },
        }
    }
}

proof fn lemma_first_for(v: Seq<CredentialView>, origin: Seq<char>)
    ensures
        first_for(v, origin) matches Some(i) ==> 0 <= i < v.len() && v[i].origin == origin
            && forall|j: int| 0 <= j < i ==> (#[trigger] v[j]).origin != origin,
        first_for(v, origin) is None ==> forall|j: int|
            0 <= j < v.len() ==> (#[trigger] v[j]).origin != origin,
    decreases v.len(),
{
    if v.len() > 0 {
        lemma_first_for(v.drop_last(), origin);
        assert forall|j: int| 0 <= j < v.len() - 1 implies v.drop_last()[j] == v[j] by {}
    }
}

/// The place of the first login of an origin.
pub fn find_for_origin(v: &Vec<Credential>, origin: &str) -> (r: Option<usize>)
    ensures
        match r {
            Some(i) => first_for(credential_views(v@), origin@) == Some(i as int) && i < v@.len(),
            None => first_for(credential_views(v@), origin@) is None,
        },
{
    let ghost all = credential_views(v@);
    proof {
        lemma_first_for(all, origin@);
    }
    let mut i: usize = 0;
    while i < v.len()
        invariant
            i <= v@.len(),
            all == credential_views(v@),
            forall|j: int| 0 <= j < i ==> (#[trigger] all[j]).origin != origin@,
        decreases v@.len() - i,
    {
        assert(all[i as int] == v@[i as int]@);
        if text::same(v[i].origin.as_str(), origin) {
            proof {
                lemma_first_for(all, origin@);
            }
            return Some(i);
        }
        i = i + 1;
    }
    None
}

// ---------------------------------------------------------------------------
// Unlocking
// ---------------------------------------------------------------------------

/// What the user is told of an attempt to unlock the store: how many logins it holds, or why it
/// stayed locked.
pub open spec fn unlock_message(result: Result<usize, Seq<char>>) -> Seq<char> {
    match result {
        Ok(n) => "Password store unlocked ("@ + number::decimal(n as nat) + " saved)."@,
        Err(e) => "Unlock failed: "@ + e,
    }
}

/// What follows an attempt to unlock the store: the message, and whether the passphrase goes to
/// the system's keyring. It does only if it was the right one and the user wants it kept.
pub fn unlock_passwords(result: Result<usize, String>, remember: bool) -> (r: (String, bool))
    ensures
        r.0@ == unlock_message(
            match result {
                Ok(n) => Ok(n),
                Err(e) => Err(e@),
            },
        ),
        r.1 == (result is Ok && remember),
{
    match result {
        Ok(n) => {
            let mut m: String = "Password store unlocked (".to_owned();
            m.append(number::decimal_string(n as u64).as_str());
            m.append(" saved).");
            (m, remember)
        },
        Err(e) => {
            let mut m: String = "Unlock failed: ".to_owned();
            m.append(e.as_str());
            (m, false)
        },
    }
}

// ---------------------------------------------------------------------------
// Filling in
// ---------------------------------------------------------------------------

/// The call of a script with a login.
pub open spec fn login_call(script: Seq<char>, c: CredentialView) -> Seq<char> {
    "("@ + script + ")("@ + codec::script_literal(c.username) + ", "@ + codec::script_literal(
        c.password,
    ) + ")"@
}

/// What is run in a page to fill in its login: nothing while the store is locked, on a page that is
/// no web page, or where no login of that very origin is saved.
pub open spec fn fill_script(
    script: Seq<char>,
    unlocked: bool,
    v: Seq<CredentialView>,
    url: Seq<char>,
) -> Option<Seq<char>> {
    if !unlocked {
        None
    } else {
        match address::origin_of_text(url) {
            Some(o) => match first_for(v, o) {
                Some(i) => Some(login_call(script, v[i])),
                None => None,
            },
            None => None,
        }
    }
}

/// What is run in a page to fill in its login.
pub fn autofill(script: &str, unlocked: bool, v: &Vec<Credential>, url: &str) -> (r: Option<String>)
    ensures
        address::optional_text(r) == fill_script(
            script@,
            unlocked,
            credential_views(v@),
            url@,
        ),
{
    if !unlocked {
        return None;
    }
    match address::origin_of(url) {
        Some(o) => match find_for_origin(v, o.as_str()) {
            Some(i) => {
                let mut out: String = "(".to_owned();
                out.append(script);
                out.append(")(");
                out.append(codec::js_string(v[i].username.as_str()).as_str());
                out.append(", ");
                out.append(codec::js_string(v[i].password.as_str()).as_str());
                out.append(")");
                assert(credential_views(v@)[i as int] == v@[i as int]@);
                Some(out)
            },
            None => None,
        },
        None => None,
    }
}

/// A login is filled in only on the origin that it was saved for, and never while the store is
/// locked.
pub proof fn logins_go_to_their_own_origin(
    script: Seq<char>,
    unlocked: bool,
    v: Seq<CredentialView>,
    url: Seq<char>,
)
    ensures
        fill_script(script, unlocked, v, url) matches Some(s) ==> unlocked && exists|i: int|
            0 <= i < v.len() && s == login_call(script, #[trigger] v[i]) && address::origin_of_text(
                url,
            ) == Some(v[i].origin),
{
    match address::origin_of_text(url) {
        Some(o) => {
            lemma_first_for(v, o);
            if let Some(i) = first_for(v, o) {
                assert(v[i].origin == o);
            }
        },
        None => {},
    }
}

// ---------------------------------------------------------------------------
// Saving
// ---------------------------------------------------------------------------

/// What comes of the wish to save a page's login.
#[derive(Debug)]
pub enum SaveStep {
    /// It cannot be saved; the user is told why.
    Tell(&'static str),
    /// Read the page's form; what it holds is saved for this origin.
    Read(String),
}

/// Decides what comes of the wish to save a page's login: it takes a web page and an unlocked
/// store.
pub fn save_login_active(url: &str, unlocked: bool) -> (r: SaveStep)
    ensures
        match address::origin_of_text(url@) {
            None => r matches SaveStep::Tell(m) && m@
                == "Logins can only be saved on http(s) pages."@,
            Some(o) => if unlocked {
                r matches SaveStep::Read(x) && x@ == o
            } else {
                r matches SaveStep::Tell(m) && m@
                    == "Unlock the password store first (Settings → Passwords)."@
            },
        },
{
    match address::origin_of(url) {
        None => SaveStep::Tell("Logins can only be saved on http(s) pages."),
        Some(o) => {
            if unlocked {
                SaveStep::Read(o)
            } else {
                SaveStep::Tell("Unlock the password store first (Settings → Passwords).")
            }
        },
    }
}

/// What comes of what a page's form holds.
#[derive(Debug)]
pub enum FormStep {
    Nothing,
    /// The user is told that nothing is filled in.
    Tell(&'static str),
    /// The login is saved, and the user is told.
    Save(Credential, String),
}

/// The text of a member, or nothing.
pub open spec fn text_or_empty(doc: Json, name: Seq<char>) -> Seq<char> {
    match json::member_text(doc, name) {
        Some(s) => s,
        None => Seq::empty(),
    }
}

/// What comes of what a page's form holds, once it is read as a document. Without a password
/// nothing is saved.
pub open spec fn is_form_step(
    doc: Option<Json>,
    origin: Seq<char>,
    now: i64,
    r: FormStep,
) -> bool {
    match doc {
        None => r is Nothing,
        Some(d) => if text_or_empty(d, "p"@).len() == 0 {
            r is Nothing
        } else {
            r matches FormStep::Save(c, m) && c@ == (CredentialView {
                origin,
                username: text_or_empty(d, "u"@),
                password: text_or_empty(d, "p"@),
                updated: now,
            }) && m@ == "Saved login for "@ + origin + "."@
        },
    }
}

fn member_or_empty(doc: &Json, name: &str) -> (r: String)
    ensures
        r@ == text_or_empty(*doc, name@),
{
    match doc.get_text(name) {
        Some(s) => s,
        None => {
            let s: String = String::new();
            assert(s@ =~= Seq::<char>::empty());
            s
        },
    }
}

/// Decides what comes of what a page's form holds, once it is read as a document.
pub fn save_form(doc: Option<Json>, origin: &str, now: i64) -> (r: FormStep)
    ensures
        is_form_step(doc, origin@, now, r),
{
    match doc {
        None => FormStep::Nothing,
        Some(d) => {
            let username: String = member_or_empty(&d, "u");
            let password: String = member_or_empty(&d, "p");
            if password.as_str().unicode_len() == 0 {
                return FormStep::Nothing;
            }
            let mut m: String = "Saved login for ".to_owned();
            m.append(origin);
            m.append(".");
            FormStep::Save(
                Credential { origin: origin.to_owned(), username, password, updated: now },
                m,
            )
        },
    }
}

/// Decides what comes of what a page says of its form.
pub fn read_form(reply: &str, origin: &str, now: i64) -> (r: FormStep)
    ensures
        reply@.len() == 0 ==> (r matches FormStep::Tell(m) && m@
            == "No filled password field on this page."@),
        reply@.len() > 0 ==> is_form_step(json::parsed_json(reply@), origin@, now, r),
{
    if reply.unicode_len() == 0 {
        return FormStep::Tell("No filled password field on this page.");
    }
    save_form(json::parse_json(reply), origin, now)
}

// ---------------------------------------------------------------------------
// Sites that look like one
// ---------------------------------------------------------------------------

/// A host that is easily taken for another: not the same, and within two edits.
pub open spec fn looks_like(a: Seq<char>, b: Seq<char>) -> bool {
    a != b && distance::edits(a, b) <= 2
}

/// The host of a saved origin.
pub open spec fn saved_host(origin: Seq<char>) -> Option<Seq<char>> {
    match address::parsed_url(origin) {
        Some(u) => u.host,
        None => None,
    }
}

/// The first saved host that a host is easily taken for.
pub open spec fn lookalike(v: Seq<CredentialView>, host: Seq<char>) -> Option<Seq<char>>
    decreases v.len(),
{
    if v.len() == 0 {
        None
    } else {
        match saved_host(v[0].origin) {
            Some(s) => if looks_like(s, host) {
                Some(s)
            } else {
                lookalike(v.skip(1), host)
            },
            None => lookalike(v.skip(1), host),
        }
    }
}

/// The warning before a secret goes to the wrong site.
pub open spec fn warning_text(saved: Seq<char>, host: Seq<char>) -> Seq<char> {
    "⚠ You have a saved login for \""@ + saved + "\" — this site (\""@ + host
        + "\") looks similar. Make sure it's the real one before entering your password."@
}

/// The warning, where one is due: the store is unlocked, nothing is saved for this very origin, and
/// a saved host looks like this one.
pub open spec fn firewall_warning(
    unlocked: bool,
    v: Seq<CredentialView>,
    origin: Seq<char>,
    host: Seq<char>,
) -> Option<Seq<char>> {
    if host.len() == 0 || !unlocked || first_for(v, origin) is Some {
        None
    } else {
        match lookalike(v, host) {
            Some(s) => Some(warning_text(s, host)),
            None => None,
        }
    }
}

fn find_lookalike(v: &Vec<Credential>, host: &str) -> (r: Option<String>)
    ensures
        address::optional_text(r) == lookalike(credential_views(v@), host@),
{
    let ghost all = credential_views(v@);
    let mut i: usize = 0;
    assert(all.skip(0) =~= all);
    while i < v.len()
        invariant
            i <= v@.len(),
            all == credential_views(v@),
            lookalike(all, host@) == lookalike(all.skip(i as int), host@),
        decreases v@.len() - i,
    {
        assert(all.skip(i as int)[0] == v@[i as int]@);
        assert(all.skip(i as int).skip(1) =~= all.skip(i + 1));
        match address::parse_url(v[i].origin.as_str()) {
            Some(u) => match u.host {
                Some(s) => {
                    if !text::same(s.as_str(), host) && distance::levenshtein(s.as_str(), host) <= 2 {
                        return Some(s);
                    }
                },
                None => {},
            },
            None => {},
        }
        i = i + 1;
    }
    None
}

/// The warning before a secret goes to the wrong site, where one is due.
pub fn credential_firewall_check(
    unlocked: bool,
    v: &Vec<Credential>,
    origin: &str,
    host: &str,
) -> (r: Option<String>)
    ensures
        address::optional_text(r) == firewall_warning(
            unlocked,
            credential_views(v@),
            origin@,
            host@,
        ),
{
    if host.unicode_len() == 0 || !unlocked {
        return None;
    }
    match find_for_origin(v, origin) {
        Some(_) => {
            return None;
        },
        None => {},
    }
    match find_lookalike(v, host) {
        Some(s) => {
            let mut m: String = "⚠ You have a saved login for \"".to_owned();
            m.append(s.as_str());
            m.append("\" — this site (\"");
            m.append(host);
            m.append(
                "\") looks similar. Make sure it's the real one before entering your password.",
            );
            Some(m)
        },
        None => None,
    }
}

proof fn lemma_lookalike(v: Seq<CredentialView>, host: Seq<char>)
    ensures
        lookalike(v, host) matches Some(s) ==> looks_like(s, host) && exists|i: int|
            0 <= i < v.len() && saved_host(#[trigger] v[i].origin) == Some(s),
        lookalike(v, host) is None ==> forall|i: int|
            0 <= i < v.len() ==> (saved_host(#[trigger] v[i].origin) matches Some(s) ==> !looks_like(
                s,
                host,
            )),
    decreases v.len(),
{
    if v.len() > 0 {
        let r = v.skip(1);
        lemma_lookalike(r, host);
        if let Some(s) = lookalike(r, host) {
            let i = choose|i: int|
                0 <= i < r.len() && saved_host(#[trigger] r[i].origin) == Some(s);
            assert(saved_host(v[i + 1].origin) == Some(s));
        }
        if let Some(s) = lookalike(v, host) {
            if saved_host(v[0].origin) == Some(s) && looks_like(s, host) {
                assert(saved_host(v[0].origin) == Some(s));
            }
        } else {
            assert forall|i: int| 0 <= i < v.len() implies (saved_host(
                #[trigger] v[i].origin,
            ) matches Some(s) ==> !looks_like(s, host)) by {
                if i > 0 {
                    assert(r[i - 1] == v[i]);
                    assert(saved_host(r[i - 1].origin) == saved_host(v[i].origin));
                }
            }
        }
    }
}

/// The firewall warns exactly where it should: of a host within two edits of a saved one, never of
/// a site that has a login of its own, and never of the saved host itself.
pub proof fn the_firewall_warns_of_lookalikes(
    v: Seq<CredentialView>,
    origin: Seq<char>,
    host: Seq<char>,
)
    requires
        host.len() > 0,
    ensures
        firewall_warning(true, v, origin, host) is Some <==> (first_for(v, origin) is None
            && exists|i: int|
            #![trigger v[i].origin]
            0 <= i < v.len() && saved_host(v[i].origin) is Some && looks_like(
                saved_host(v[i].origin)->0,
                host,
            )),
        firewall_warning(false, v, origin, host) is None,
        !looks_like(host, host),
{
    lemma_lookalike(v, host);
}

// ---------------------------------------------------------------------------
// Laws
// ---------------------------------------------------------------------------

/// The login that is filled in is the first of the page's origin, with its own user name and
/// password, in that order; where one is saved for the origin and the store is unlocked, one is
/// filled in.
pub proof fn the_saved_login_is_filled_in(
    script: Seq<char>,
    v: Seq<CredentialView>,
    url: Seq<char>,
    i: int,
)
    requires
        0 <= i < v.len(),
        address::origin_of_text(url) == Some(v[i].origin),
        forall|j: int| 0 <= j < i ==> (#[trigger] v[j]).origin != v[i].origin,
    ensures
        fill_script(script, true, v, url) == Some(
            "("@ + script + ")("@ + codec::script_literal(v[i].username) + ", "@
                + codec::script_literal(v[i].password) + ")"@,
        ),
{
    lemma_first_for(v, v[i].origin);
}

/// Nothing is filled in on a page of an origin that no login is saved for.
pub proof fn other_origins_get_no_login(script: Seq<char>, v: Seq<CredentialView>, url: Seq<char>)
    requires
        forall|i: int|
            0 <= i < v.len() ==> Some((#[trigger] v[i]).origin) != address::origin_of_text(url),
    ensures
        fill_script(script, true, v, url) is None,
        fill_script(script, false, v, url) is None,
{
    if let Some(o) = address::origin_of_text(url) {
        lemma_first_for(v, o);
    }
}

/// The user is warned of a site whose host differs from a saved one by one or two edits, where
/// nothing is saved for the site itself. A host that is saved, or that differs by more from every
/// saved one, brings no warning.
pub proof fn near_misses_are_warned_of(
    v: Seq<CredentialView>,
    origin: Seq<char>,
    host: Seq<char>,
)
    requires
        host.len() > 0,
        forall|i: int| 0 <= i < v.len() ==> (#[trigger] v[i]).origin != origin,
    ensures
        (exists|i: int|
            #![trigger v[i].origin]
            0 <= i < v.len() && (address::parsed_url(v[i].origin) matches Some(u) && (
            u.host matches Some(h) && h != host && distance::edits(h, host) <= 2)))
            <==> firewall_warning(true, v, origin, host) is Some,
{
    lemma_first_for(v, origin);
    the_firewall_warns_of_lookalikes(v, origin, host);
    if firewall_warning(true, v, origin, host) is Some {
        let i = choose|i: int|
            #![trigger v[i].origin]
            0 <= i < v.len() && saved_host(v[i].origin) is Some && looks_like(
                saved_host(v[i].origin)->0,
                host,
            );
        assert(0 <= i < v.len() && (address::parsed_url(v[i].origin) matches Some(u) && (
        u.host matches Some(h) && h != host && distance::edits(h, host) <= 2)));
    }
    if exists|i: int|
        #![trigger v[i].origin]
        0 <= i < v.len() && (address::parsed_url(v[i].origin) matches Some(u) && (
        u.host matches Some(h) && h != host && distance::edits(h, host) <= 2)) {
        let i = choose|i: int|
            #![trigger v[i].origin]
            0 <= i < v.len() && (address::parsed_url(v[i].origin) matches Some(u) && (
            u.host matches Some(h) && h != host && distance::edits(h, host) <= 2));
        assert(saved_host(v[i].origin) is Some && looks_like(saved_host(v[i].origin)->0, host));
    }
}

/// A site that has a login of its own is not warned of.
pub proof fn known_sites_are_not_warned_of(
    unlocked: bool,
    v: Seq<CredentialView>,
    host: Seq<char>,
    i: int,
)
    requires
        0 <= i < v.len(),
    ensures
        firewall_warning(unlocked, v, v[i].origin, host) is None,
{
    lemma_first_for(v, v[i].origin);
}

/// The warning names a saved host that the site's is close to, and the site's own.
pub proof fn the_warning_names_both_hosts(
    v: Seq<CredentialView>,
    origin: Seq<char>,
    host: Seq<char>,
    w: Seq<char>,
)
    requires
        firewall_warning(true, v, origin, host) == Some(w),
    ensures
        exists|s: Seq<char>| #[trigger]
            is_saved_near(v, host, s) && w == "⚠ You have a saved login for \""@ + s
                + "\" — this site (\""@ + host
                + "\") looks similar. Make sure it's the real one before entering your password."@,
{
    lemma_near(v, host);
    assert(is_saved_near(v, host, lookalike(v, host)->0));
}

/// A host that a login is saved for, and that another is within two edits of.
pub open spec fn is_saved_near(v: Seq<CredentialView>, host: Seq<char>, s: Seq<char>) -> bool {
    exists|i: int|
        #![trigger v[i].origin]
        0 <= i < v.len() && (address::parsed_url(v[i].origin) matches Some(u) && u.host == Some(s)) && s
            != host && distance::edits(s, host) <= 2
}

proof fn lemma_near(v: Seq<CredentialView>, host: Seq<char>)
    ensures
        lookalike(v, host) matches Some(s) ==> is_saved_near(v, host, s),
    decreases v.len(),
{
    if v.len() > 0 {
        let t = v.skip(1);
        lemma_near(t, host);
        if let Some(s) = lookalike(v, host) {
            if saved_host(v[0].origin) == Some(s) && looks_like(s, host) {
                assert(address::parsed_url(v[0].origin) matches Some(u) && u.host == Some(s));
                assert(is_saved_near(v, host, s));
            } else {
                let i = choose|i: int|
                    #![trigger t[i].origin]
                    0 <= i < t.len() && (address::parsed_url(t[i].origin) matches Some(u) && u.host
                        == Some(s)) && s != host && distance::edits(s, host) <= 2;
                assert(v[i + 1] == t[i]);
                assert(address::parsed_url(v[i + 1].origin) matches Some(u) && u.host == Some(s));
                assert(is_saved_near(v, host, s));
            }
        }
    }
}

/// A form with a password is saved for the page's origin, as it was filled in, at the time; one
/// without is not saved.
pub proof fn filled_forms_are_saved(d: Json, origin: Seq<char>, now: i64, r: FormStep)
    requires
        is_form_step(Some(d), origin, now, r),
    ensures
        json::member_text(d, "p"@) is None ==> r is Nothing,
        json::member_text(d, "p"@) matches Some(p) ==> {
            &&& p.len() == 0 ==> r is Nothing
            &&& p.len() > 0 ==> (r matches FormStep::Save(c, m) && c.origin@ == origin && c.password@
                == p && c.updated == now && (json::member_text(d, "u"@) matches Some(u)
                ==> c.username@ == u) && (json::member_text(d, "u"@) is None ==> c.username@.len()
                == 0))
        },
{
}

} // verus!

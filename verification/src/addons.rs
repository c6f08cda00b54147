//! Add-ons: what the user has consented to, what becomes of it when a script changes, and which
//! scripts run on a page.

use vstd::prelude::*;
use vstd::string::*;

use crate::codec;
use crate::dialogs;
use crate::dialogs::{Dialog, DialogQueue};
use crate::text;

verus! {

/// What an add-on may ask for.
#[derive(Clone, Copy, Debug, PartialEq, Eq, Structural)]
pub enum Permission {
    Storage,
    CrossOriginFetch,
    Notifications,
    TabControl,
    Clipboard,
}

/// A set of permissions.
#[derive(Clone, Copy, Debug, PartialEq, Eq, Structural)]
pub struct PermissionSet {
    pub storage: bool,
    pub cross_origin_fetch: bool,
    pub notifications: bool,
    pub tab_control: bool,
    pub clipboard: bool,
}

impl PermissionSet {
    /// Does the set hold this permission?
    pub open spec fn holds(self, p: Permission) -> bool {
        match p {
            Permission::Storage => self.storage,
            Permission::CrossOriginFetch => self.cross_origin_fetch,
            Permission::Notifications => self.notifications,
            Permission::TabControl => self.tab_control,
            Permission::Clipboard => self.clipboard,
        }
    }

    /// Every permission of this set is in the other.
    pub open spec fn within(self, other: PermissionSet) -> bool {
        forall|p: Permission| #[trigger] self.holds(p) ==> other.holds(p)
    }

    /// The set holds nothing.
    pub open spec fn bare(self) -> bool {
        forall|p: Permission| !#[trigger] self.holds(p)
    }

    /// The empty set.
    pub fn new() -> (r: PermissionSet)
        ensures
            r.bare(),
            r == nothing_granted(),
    {
        PermissionSet {
            storage: false,
            cross_origin_fetch: false,
            notifications: false,
            tab_control: false,
            clipboard: false,
        }
    }

    /// Does the set hold this permission?
    pub fn contains(&self, p: Permission) -> (r: bool)
        ensures
            r == self.holds(p),
    {
        match p {
            Permission::Storage => self.storage,
            Permission::CrossOriginFetch => self.cross_origin_fetch,
            Permission::Notifications => self.notifications,
            Permission::TabControl => self.tab_control,
            Permission::Clipboard => self.clipboard,
        }
    }

    /// Is the set empty?
    pub fn is_empty(&self) -> (r: bool)
        ensures
            r == self.bare(),
    {
        proof {
            if self.bare() {
                assert(!self.holds(Permission::Storage));
                assert(!self.holds(Permission::CrossOriginFetch));
                assert(!self.holds(Permission::Notifications));
                assert(!self.holds(Permission::TabControl));
                assert(!self.holds(Permission::Clipboard));
            }
        }
        !self.storage && !self.cross_origin_fetch && !self.notifications && !self.tab_control
            && !self.clipboard
    }

    /// Is every permission of this set in the other?
    pub fn is_subset(&self, other: &PermissionSet) -> (r: bool)
        ensures
            r == self.within(*other),
    {
        let r: bool = (!self.storage || other.storage) && (!self.cross_origin_fetch
            || other.cross_origin_fetch) && (!self.notifications || other.notifications) && (
        !self.tab_control || other.tab_control) && (!self.clipboard || other.clipboard);
        proof {
            if self.within(*other) {
                assert(self.holds(Permission::Storage) ==> other.holds(Permission::Storage));
                assert(self.holds(Permission::CrossOriginFetch) ==> other.holds(
                    Permission::CrossOriginFetch,
                ));
                assert(self.holds(Permission::Notifications) ==> other.holds(
                    Permission::Notifications,
                ));
                assert(self.holds(Permission::TabControl) ==> other.holds(
                    Permission::TabControl,
                ));
                assert(self.holds(Permission::Clipboard) ==> other.holds(Permission::Clipboard));
            }
        }
        r
    }

    /// The permissions that are in both sets.
    pub fn both(&self, other: &PermissionSet) -> (r: PermissionSet)
        ensures
            r == in_both(*self, *other),
    {
        PermissionSet {
            storage: self.storage && other.storage,
            cross_origin_fetch: self.cross_origin_fetch && other.cross_origin_fetch,
            notifications: self.notifications && other.notifications,
            tab_control: self.tab_control && other.tab_control,
            clipboard: self.clipboard && other.clipboard,
        }
    }
}

/// The empty set.
pub open spec fn nothing_granted() -> PermissionSet {
    PermissionSet {
        storage: false,
        cross_origin_fetch: false,
        notifications: false,
        tab_control: false,
        clipboard: false,
    }
}

/// The permissions that are in both sets.
pub open spec fn in_both(a: PermissionSet, b: PermissionSet) -> PermissionSet {
    PermissionSet {
        storage: a.storage && b.storage,
        cross_origin_fetch: a.cross_origin_fetch && b.cross_origin_fetch,
        notifications: a.notifications && b.notifications,
        tab_control: a.tab_control && b.tab_control,
        clipboard: a.clipboard && b.clipboard,
    }
}

/// Where an add-on runs: a pattern with its parts, or a glob.
#[derive(Debug)]
pub enum MatchPattern {
    Match { scheme: String, host: String, path: String, all_urls: bool },
    Glob(String),
}

/// A pattern as the user reads it.
pub open spec fn described(p: MatchPattern) -> Seq<char> {
    match p {
        MatchPattern::Match { scheme, host, path, all_urls } => if all_urls {
            "all sites"@
        } else {
            (if scheme@ == "*"@ {
                "http(s)"@
            } else {
                scheme@
            }) + "://"@ + host@ + path@
        },
        MatchPattern::Glob(g) => g@,
    }
}

/// The patterns of a list as the user reads them.
pub open spec fn descriptions(v: Seq<MatchPattern>) -> Seq<Seq<char>> {
    Seq::new(v.len(), |i: int| described(v[i]))
}

/// A pattern as the user reads it.
pub fn describe_match_pattern(p: &MatchPattern) -> (r: String)
    ensures
        r@ == described(*p),
{
    match p {
        MatchPattern::Match { scheme, host, path, all_urls } => {
            if *all_urls {
                "all sites".to_owned()
            } else {
                let mut out: String = if text::same(scheme.as_str(), "*") {
                    "http(s)".to_owned()
                } else {
                    scheme.clone()
                };
                out.append("://");
                out.append(host.as_str());
                out.append(path.as_str());
                out
            }
        },
        MatchPattern::Glob(g) => g.clone(),
    }
}

/// The patterns of a list as the user reads them.
pub fn describe_all(v: &Vec<MatchPattern>) -> (r: Vec<String>)
    ensures
        text::texts(r@) == descriptions(v@),
{
    let mut out: Vec<String> = Vec::new();
    let ghost all = descriptions(v@);
    let mut i: usize = 0;
    assert(text::texts(out@) =~= all.take(0));
    while i < v.len()
        invariant
            i <= v@.len(),
            all == descriptions(v@),
            text::texts(out@) == all.take(i as int),
        decreases v@.len() - i,
    {
        let ghost before = text::texts(out@);
        out.push(describe_match_pattern(&v[i]));
        assert(text::texts(out@) =~= before.push(all[i as int]));
        assert(all.take(i + 1) =~= before.push(all[i as int]));
        i = i + 1;
    }
    assert(all.take(v@.len() as int) =~= all);
    out
}

/// An installed add-on.
#[derive(Debug)]
pub struct Addon {
    pub id: String,
    pub name: String,
    pub version: String,
    pub enabled: bool,
    /// What its script asks for.
    pub requested: PermissionSet,
    /// What the user has granted.
    pub granted: PermissionSet,
    pub matches: Vec<MatchPattern>,
    /// The hosts that it may fetch from.
    pub connect: Vec<String>,
    /// Where its script is.
    pub path: String,
    /// A hash of its script, by which a change is noticed.
    pub content_hash: u64,
}

/// `Addon` as mathematical values.
#[verifier::ext_equal]
pub struct AddonView {
    pub id: Seq<char>,
    pub name: Seq<char>,
    pub version: Seq<char>,
    pub enabled: bool,
    pub requested: PermissionSet,
    pub granted: PermissionSet,
    pub matches: Seq<MatchPattern>,
    pub connect: Seq<Seq<char>>,
    pub path: Seq<char>,
    pub content_hash: u64,
}

impl View for Addon {
    type V = AddonView;

    open spec fn view(&self) -> AddonView {
        AddonView {
            id: self.id@,
            name: self.name@,
            version: self.version@,
            enabled: self.enabled,
            requested: self.requested,
            granted: self.granted,
            matches: self.matches@,
            connect: text::texts(self.connect@),
            path: self.path@,
            content_hash: self.content_hash,
        }
    }
}

/// The add-ons of a list.
pub open spec fn addon_views(v: Seq<Addon>) -> Seq<AddonView> {
    Seq::new(v.len(), |i: int| v[i]@)
}

/// A script that was found: its file, whether it says what it is, and the add-on that it makes,
/// of which neither the switch nor the grants count.
#[derive(Debug)]
pub struct Script {
    pub file_name: String,
    pub has_metadata: bool,
    pub addon: Addon,
}

/// `Script` as mathematical values.
#[verifier::ext_equal]
pub struct ScriptView {
    pub file_name: Seq<char>,
    pub has_metadata: bool,
    pub addon: AddonView,
}

impl View for Script {
    type V = ScriptView;

    open spec fn view(&self) -> ScriptView {
        ScriptView {
            file_name: self.file_name@,
            has_metadata: self.has_metadata,
            addon: self.addon@,
        }
    }
}

/// The scripts of a list.
pub open spec fn script_views(v: Seq<Script>) -> Seq<ScriptView> {
    Seq::new(v.len(), |i: int| v[i]@)
}

// ---------------------------------------------------------------------------
// Scripts and consent
// ---------------------------------------------------------------------------

/// A bare script, which is no `.user.js` file.
pub open spec fn is_bare(file_name: Seq<char>) -> bool {
    !".user.js"@.is_suffix_of(file_name)
}

/// A script that makes an add-on: it says what it is, or it is a bare one.
pub open spec fn is_usable(s: ScriptView) -> bool {
    s.has_metadata || is_bare(s.file_name)
}

/// A file in the scripts' directory is a script: its extension is `js`, and there is a name before
/// it.
pub open spec fn is_script(file_name: Seq<char>) -> bool {
    file_name.len() > 3 && ".js"@.is_suffix_of(file_name)
}

/// Places in a list of file names, by name.
pub open spec fn is_by_name(names: Seq<Seq<char>>, order: Seq<usize>) -> bool {
    forall|j: int, k: int|
        0 <= j < k < order.len() ==> !text::sorts_before(
            names[#[trigger] order[k] as int],
            names[#[trigger] order[j] as int],
        )
}

fn place_by_name(names: &Vec<String>, order: &mut Vec<usize>, i: usize)
    requires
        i < names@.len(),
        forall|j: int| 0 <= j < old(order)@.len() ==> #[trigger] old(order)@[j] < i,
        old(order)@.no_duplicates(),
        is_by_name(text::texts(names@), old(order)@),
    ensures
        forall|j: int| 0 <= j < final(order)@.len() ==> #[trigger] final(order)@[j] <= i,
        final(order)@.no_duplicates(),
        is_by_name(text::texts(names@), final(order)@),
        forall|x: usize| #[trigger]
            final(order)@.contains(x) <==> x == i || old(order)@.contains(x),
{
    let ghost n = text::texts(names@);
    let ghost before = order@;
    let mut at: usize = 0;
    while at < order.len() && !text::is_before(names[i].as_str(), names[order[at]].as_str())
        invariant
            order@ == before,
            n == text::texts(names@),
            i < names@.len(),
            at <= order@.len(),
            forall|j: int| 0 <= j < order@.len() ==> #[trigger] order@[j] < i,
            forall|j: int|
                0 <= j < at ==> !text::sorts_before(n[i as int], n[#[trigger] order@[j] as int]),
        decreases order@.len() - at,
    {
        at = at + 1;
    }
    order.insert(at, i);
    assert(order@ == before.insert(at as int, i));
    assert forall|j: int, k: int| 0 <= j < k < order@.len() implies !text::sorts_before(
        n[#[trigger] order@[k] as int],
        n[#[trigger] order@[j] as int],
    ) by {
        let x = n[i as int];
        if j == at {
            let y = n[before[at as int] as int];
            let z = n[before[k - 1] as int];
            if k - 1 > at {
                assert(!text::sorts_before(z, y));
            } else {
                text::sorts_one_way(y, y);
            }
            text::sorts_through(x, y, z);
            text::sorts_one_way(x, z);
        } else if k == at {
        } else {
            let j0 = if j < at {
                j
            } else {
                j - 1
            };
            let k0 = if k < at {
                k
            } else {
                k - 1
            };
            assert(order@[j] == before[j0] && order@[k] == before[k0]);
        }
    }
    assert forall|x: usize| #[trigger] order@.contains(x) <==> x == i || before.contains(x) by {
        if before.contains(x) {
            let j = choose|j: int| 0 <= j < before.len() && before[j] == x;
            assert(order@[if j < at {
                j
            } else {
                j + 1
            }] == x);
        }
        if x == i {
            assert(order@[at as int] == i);
        }
        if order@.contains(x) {
            let j = choose|j: int| 0 <= j < order@.len() && order@[j] == x;
            if j < at {
                assert(before[j] == x);
            } else if j > at {
                assert(before[j - 1] == x);
            }
        }
    }
}

/// The scripts among the files of their directory, as places in the list, by name: so add-ons are
/// always loaded in the same order.
pub fn scan_userscript_files(names: &Vec<String>) -> (r: Vec<usize>)
    ensures
        r@.no_duplicates(),
        forall|x: usize| #[trigger]
            r@.contains(x) <==> x < names@.len() && is_script(names@[x as int]@),
        is_by_name(text::texts(names@), r@),
{
    let mut order: Vec<usize> = Vec::new();
    let mut i: usize = 0;
    while i < names.len()
        invariant
            i <= names@.len(),
            order@.no_duplicates(),
            forall|j: int| 0 <= j < order@.len() ==> #[trigger] order@[j] < i,
            forall|x: usize| #[trigger]
                order@.contains(x) <==> x < i && is_script(names@[x as int]@),
            is_by_name(text::texts(names@), order@),
        decreases names@.len() - i,
    {
        if names[i].as_str().unicode_len() > 3 && text::ends_with(names[i].as_str(), ".js") {
            place_by_name(names, &mut order, i);
        }
        i = i + 1;
    }
    order
}

/// The add-on that a script makes, given what was known of it. A new one waits for consent,
/// unless it is a bare script without metadata, which is trusted. An unchanged one keeps what it had. A changed one
/// keeps the grants that it still asks for; if it asks for more than those, it starts anew, with
/// nothing granted and switched off.
pub open spec fn reconciled(before: Option<AddonView>, s: ScriptView) -> AddonView {
    match before {
        None => AddonView {
            enabled: is_bare(s.file_name) && !s.has_metadata,
            granted: nothing_granted(),
            ..s.addon
        },
        Some(p) => if p.content_hash == s.addon.content_hash {
            AddonView { enabled: p.enabled, granted: p.granted, ..s.addon }
        } else {
            let kept = in_both(p.granted, s.addon.requested);
            if s.addon.requested.within(kept) {
                AddonView { enabled: p.enabled, granted: kept, ..s.addon }
            } else {
                AddonView { enabled: false, granted: nothing_granted(), ..s.addon }
            }
        },
    }
}

/// No privilege creeps in. A new script runs only if it is a bare one without metadata, and with no
/// grants. A changed script keeps running only if it was, and asks for nothing that was not granted
/// already; it never holds a grant that it did not have, or that it does not ask for. Where it
/// asks for more, it neither runs nor holds any grant.
pub proof fn no_privilege_creep(before: AddonView, s: ScriptView)
    requires
        before.content_hash != s.addon.content_hash,
    ensures
        reconciled(None, s).granted.bare(),
        reconciled(None, s).enabled <==> is_bare(s.file_name) && !s.has_metadata,
        reconciled(Some(before), s).enabled ==> before.enabled && s.addon.requested.within(
            before.granted,
        ),
        reconciled(Some(before), s).granted.within(before.granted),
        reconciled(Some(before), s).granted.within(s.addon.requested),
        !s.addon.requested.within(before.granted) ==> !reconciled(Some(before), s).enabled
            && reconciled(Some(before), s).granted.bare(),
{
    let kept = in_both(before.granted, s.addon.requested);
    assert forall|p: Permission| #[trigger] kept.holds(p) implies before.granted.holds(p)
        && s.addon.requested.holds(p) by {}
    if s.addon.requested.within(kept) {
        assert forall|p: Permission| #[trigger]
            s.addon.requested.holds(p) implies before.granted.holds(p) by {
            assert(kept.holds(p));
        }
    }
}

/// An unchanged script keeps the user's decision, and looking again changes nothing.
pub proof fn consent_is_kept(before: Option<AddonView>, s: ScriptView)
    ensures
        reconciled(Some(reconciled(before, s)), s) == reconciled(before, s),
        before matches Some(p) ==> (p.content_hash == s.addon.content_hash ==> reconciled(
            before,
            s,
        ).enabled == p.enabled && reconciled(before, s).granted == p.granted),
{
}

/// Is this a bare script?
pub fn is_bare_script(file_name: &str) -> (r: bool)
    ensures
        r == is_bare(file_name@),
{
    !text::ends_with(file_name, ".user.js")
}

/// The add-on that a script makes, given what was known of it.
fn reconcile(
    before: Option<&Addon>,
    trusted: bool,
    addon: Addon,
    Ghost(s): Ghost<ScriptView>,
) -> (r: Addon)
    requires
        trusted == (is_bare(s.file_name) && !s.has_metadata),
        s.addon == addon@,
    ensures
        r@ == reconciled(
            match before {
                Some(p) => Some(p@),
                None => None,
            },
            s,
        ),
{
    let mut a: Addon = addon;
    match before {
        None => {
            a.enabled = trusted;
            a.granted = PermissionSet::new();
        },
        Some(p) => {
            if p.content_hash == a.content_hash {
                a.enabled = p.enabled;
                a.granted = p.granted;
            } else {
                let kept: PermissionSet = p.granted.both(&a.requested);
                if a.requested.is_subset(&kept) {
                    a.enabled = p.enabled;
                    a.granted = kept;
                } else {
                    a.enabled = false;
                    a.granted = PermissionSet::new();
                }
            }
        },
    }
    a
}

// ---------------------------------------------------------------------------
// The registry
// ---------------------------------------------------------------------------

/// The place of the add-on with this id: the first one.
pub open spec fn addon_place(e: Seq<AddonView>, id: Seq<char>) -> Option<int>
    decreases e.len(),
{
    if e.len() == 0 {
        None
    } else {
        match addon_place(e.drop_last(), id) {
            Some(i) => Some(i),
            None => if e.last().id == id {
                Some(e.len() - 1)
            } else {
                None
            },
        }
    }
}

proof fn lemma_addon_place(e: Seq<AddonView>, id: Seq<char>)
    ensures
        addon_place(e, id) matches Some(i) ==> 0 <= i < e.len() && e[i].id == id && forall|j: int|
            0 <= j < i ==> (#[trigger] e[j]).id != id,
        addon_place(e, id) is None ==> forall|j: int|
            0 <= j < e.len() ==> (#[trigger] e[j]).id != id,
    decreases e.len(),
{
    if e.len() > 0 {
        lemma_addon_place(e.drop_last(), id);
        assert forall|j: int| 0 <= j < e.len() - 1 implies e.drop_last()[j] == e[j] by {}
    }
}

/// The add-on with this id.
pub open spec fn addon_with(e: Seq<AddonView>, id: Seq<char>) -> Option<AddonView> {
    match addon_place(e, id) {
        Some(i) => Some(e[i]),
        None => None,
    }
}

/// The add-ons with one put in: in the place of the one with its id, or at the end.
pub open spec fn upserted(e: Seq<AddonView>, a: AddonView) -> Seq<AddonView> {
    match addon_place(e, a.id) {
        Some(i) => e.update(i, a),
        None => e.push(a),
    }
}

/// The add-ons after one look at the scripts that were found.
pub open spec fn after_scan(e: Seq<AddonView>, found: Seq<ScriptView>) -> Seq<AddonView>
    decreases found.len(),
{
    if found.len() == 0 {
        e
    } else {
        let rest = after_scan(e, found.drop_last());
        let s = found.last();
        if is_usable(s) {
            upserted(rest, reconciled(addon_with(rest, s.addon.id), s))
        } else {
            rest
        }
    }
}

/// Some usable script makes the add-on with this id.
pub open spec fn on_disk(found: Seq<ScriptView>, id: Seq<char>) -> bool {
    exists|i: int| 0 <= i < found.len() && is_usable(#[trigger] found[i]) && found[i].addon.id == id
}

/// The add-ons whose script is still there.
pub open spec fn still_there(e: Seq<AddonView>, found: Seq<ScriptView>) -> Seq<AddonView>
    decreases e.len(),
{
    if e.len() == 0 {
        Seq::empty()
    } else if on_disk(found, e.last().id) {
        still_there(e.drop_last(), found).push(e.last())
    } else {
        still_there(e.drop_last(), found)
    }
}

/// The add-ons, given those that were known and the scripts that are there now.
pub open spec fn loaded(known: Seq<AddonView>, found: Seq<ScriptView>) -> Seq<AddonView> {
    still_there(after_scan(known, found), found)
}

/// Every add-on has a script that is still there.
pub proof fn loaded_addons_are_on_disk(known: Seq<AddonView>, found: Seq<ScriptView>)
    ensures
        forall|i: int|
            0 <= i < loaded(known, found).len() ==> on_disk(
                found,
                (#[trigger] loaded(known, found)[i]).id,
            ),
{
    lemma_still_there(after_scan(known, found), found);
}

proof fn lemma_still_there(e: Seq<AddonView>, found: Seq<ScriptView>)
    ensures
        forall|i: int|
            0 <= i < still_there(e, found).len() ==> on_disk(
                found,
                (#[trigger] still_there(e, found)[i]).id,
            ),
    decreases e.len(),
{
    if e.len() > 0 {
        let r = still_there(e.drop_last(), found);
        lemma_still_there(e.drop_last(), found);
        assert forall|i: int| 0 <= i < still_there(e, found).len() implies on_disk(
            found,
            (#[trigger] still_there(e, found)[i]).id,
        ) by {
            if i < r.len() {
                assert(still_there(e, found)[i] == r[i]);
            }
        }
    }
}

/// The add-ons with one switched on or off. One that is switched on is granted what it asks for;
/// one that is switched off keeps its grants.
pub open spec fn with_consent(e: Seq<AddonView>, id: Seq<char>, on: bool) -> Seq<AddonView> {
    match addon_place(e, id) {
        Some(i) => e.update(
            i,
            AddonView {
                enabled: on,
                granted: if on {
                    e[i].requested
                } else {
                    e[i].granted
                },
                ..e[i]
            },
        ),
        None => e,
    }
}

/// The add-ons without those of this id.
pub open spec fn without_addon(e: Seq<AddonView>, id: Seq<char>) -> Seq<AddonView>
    decreases e.len(),
{
    if e.len() == 0 {
        Seq::empty()
    } else if e.last().id == id {
        without_addon(e.drop_last(), id)
    } else {
        without_addon(e.drop_last(), id).push(e.last())
    }
}

/// An add-on that waits for the user's decision.
pub open spec fn is_pending(a: AddonView) -> bool {
    !a.enabled && a.granted.bare()
}

/// The ids of the add-ons that run on a page: those that are switched on and whose patterns
/// accept its address.
pub open spec fn running(e: Seq<AddonView>, accepts: Seq<bool>) -> Seq<Seq<char>>
    decreases e.len(),
{
    if e.len() == 0 {
        Seq::empty()
    } else {
        let rest = running(e.drop_last(), accepts);
        let i = e.len() - 1;
        if e.last().enabled && i < accepts.len() && accepts[i] {
            rest.push(e.last().id)
        } else {
            rest
        }
    }
}

/// What each permission is called, for the user.
#[derive(Debug)]
pub struct PermissionTexts {
    pub storage: String,
    pub cross_origin_fetch: String,
    pub notifications: String,
    pub tab_control: String,
    pub clipboard: String,
}

/// One text where the mark is set, and none where it is not.
pub open spec fn listed(on: bool, s: Seq<char>) -> Seq<Seq<char>> {
    if on {
        seq![s]
    } else {
        Seq::empty()
    }
}

/// What the permissions of a set are called.
pub open spec fn permission_lines(p: PermissionSet, t: PermissionTexts) -> Seq<Seq<char>> {
    listed(p.storage, t.storage@) + listed(p.cross_origin_fetch, t.cross_origin_fetch@) + listed(
        p.notifications,
        t.notifications@,
    ) + listed(p.tab_control, t.tab_control@) + listed(p.clipboard, t.clipboard@)
}

fn add_listed(out: &mut Vec<String>, on: bool, s: &str)
    ensures
        text::texts(final(out)@) == text::texts(old(out)@) + listed(on, s@),
{
    let ghost before = text::texts(out@);
    if on {
        out.push(s.to_owned());
    }
    assert(text::texts(out@) =~= before + listed(on, s@));
}

/// What the permissions of a set are called.
pub fn name_permissions(p: PermissionSet, t: &PermissionTexts) -> (r: Vec<String>)
    ensures
        text::texts(r@) == permission_lines(p, *t),
{
    let mut out: Vec<String> = Vec::new();
    assert(text::texts(out@) =~= Seq::<Seq<char>>::empty());
    add_listed(&mut out, p.storage, t.storage.as_str());
    assert(text::texts(out@) =~= listed(p.storage, t.storage@));
    add_listed(&mut out, p.cross_origin_fetch, t.cross_origin_fetch.as_str());
    add_listed(&mut out, p.notifications, t.notifications.as_str());
    add_listed(&mut out, p.tab_control, t.tab_control.as_str());
    add_listed(&mut out, p.clipboard, t.clipboard.as_str());
    out
}

/// The dialog that asks for consent to an add-on.
pub open spec fn is_consent_for(d: Dialog, a: AddonView, t: PermissionTexts) -> bool {
    d matches Dialog::AddonConsent { addon_id, name, version, sites, perms } && addon_id@ == a.id
        && name@ == a.name && version@ == a.version && text::texts(sites@) == descriptions(a.matches)
        && text::texts(perms@) == permission_lines(a.requested, t)
}

/// The add-ons that wait for the user's decision, in order.
pub open spec fn pending(e: Seq<AddonView>) -> Seq<AddonView>
    decreases e.len(),
{
    if e.len() == 0 {
        Seq::empty()
    } else if is_pending(e.last()) {
        pending(e.drop_last()).push(e.last())
    } else {
        pending(e.drop_last())
    }
}

/// The installed add-ons.
#[derive(Debug)]
pub struct Registry {
    pub addons: Vec<Addon>,
}

impl View for Registry {
    type V = Seq<AddonView>;

    open spec fn view(&self) -> Seq<AddonView> {
        addon_views(self.addons@)
    }
}

impl Registry {
    /// No add-ons.
    pub fn new() -> (r: Registry)
        ensures
            r@ == Seq::<AddonView>::empty(),
    {
        let r: Registry = Registry { addons: Vec::new() };
        assert(r@ =~= Seq::<AddonView>::empty());
        r
    }

    /// The place of the add-on with this id.
    pub fn position(&self, id: &str) -> (r: Option<usize>)
        ensures
            match r {
                Some(i) => addon_place(self@, id@) == Some(i as int) && i < self.addons@.len(),
                None => addon_place(self@, id@) is None,
            },
    {
        let ghost e = self@;
        proof {
            lemma_addon_place(e, id@);
        }
        let mut i: usize = 0;
        while i < self.addons.len()
            invariant
                i <= self.addons@.len(),
                e == addon_views(self.addons@),
                forall|j: int| 0 <= j < i ==> (#[trigger] e[j]).id != id@,
            decreases self.addons@.len() - i,
        {
            assert(e[i as int] == self.addons@[i as int]@);
            if text::same(self.addons[i].id.as_str(), id) {
                proof {
                    lemma_addon_place(e, id@);
                }
                return Some(i);
            }
            i = i + 1;
        }
        None
    }

    /// Puts an add-on in the place of the one with its id, or at the end.
    pub fn upsert(&mut self, a: Addon)
        ensures
            final(self)@ == upserted(old(self)@, a@),
    {
        let ghost before = self@;
        let ghost v = a@;
        match self.position(a.id.as_str()) {
            Some(i) => {
                self.addons.set(i, a);
                assert(self@ =~= before.update(i as int, v));
            },
            None => {
                self.addons.push(a);
                assert(self@ =~= before.push(v));
            },
        }
    }

    fn take_in(&mut self, s: Script)
        ensures
            final(self)@ == if is_usable(s@) {
                upserted(
                    old(self)@,
                    reconciled(addon_with(old(self)@, s@.addon.id), s@),
                )
            } else {
                old(self)@
            },
    {
        let bare: bool = is_bare_script(s.file_name.as_str());
        if !s.has_metadata && !bare {
            return;
        }
        let trusted: bool = bare && !s.has_metadata;
        let ghost v = s@;
        let at: Option<usize> = self.position(s.addon.id.as_str());
        let a: Addon = match at {
            Some(i) => reconcile(Some(&self.addons[i]), trusted, s.addon, Ghost(v)),
            None => reconcile(None, trusted, s.addon, Ghost(v)),
        };
        self.upsert(a);
    }

    fn drop_missing(&mut self, usable: &Vec<String>, Ghost(found): Ghost<Seq<ScriptView>>)
        requires
            forall|id: Seq<char>| #[trigger]
                text::texts(usable@).contains(id) == on_disk(found, id),
        ensures
            final(self)@ == still_there(old(self)@, found),
    {
        let ghost all = self@;
        let mut i: usize = 0;
        let ghost mut n: int = 0;
        assert(all.skip(0) =~= all);
        assert(self@.take(0) =~= still_there(all.take(0), found));
        while i < self.addons.len()
            invariant
                forall|id: Seq<char>| #[trigger]
                    text::texts(usable@).contains(id) == on_disk(found, id),
                i <= self.addons@.len(),
                0 <= n <= all.len(),
                self@.take(i as int) == still_there(all.take(n), found),
                self@.skip(i as int) == all.skip(n),
            decreases self.addons@.len() - i,
        {
            let ghost before = self@;
            assert(before.skip(i as int)[0] == before[i as int]);
            assert(before.skip(i as int).len() == all.skip(n).len());
            assert(all.skip(n)[0] == all[n]);
            assert(all.take(n + 1).drop_last() =~= all.take(n));
            assert(before[i as int] == self.addons@[i as int]@);
            if text::is_one_of(self.addons[i].id.as_str(), usable) {
                assert(before.take(i + 1) =~= before.take(i as int).push(all[n]));
                assert(before.skip(i + 1) =~= before.skip(i as int).skip(1));
                i = i + 1;
            } else {
                self.addons.remove(i);
                assert(self@ =~= before.remove(i as int));
                assert(self@.take(i as int) =~= before.take(i as int));
                assert(self@.skip(i as int) =~= before.skip(i as int).skip(1));
            }
            assert(all.skip(n + 1) =~= all.skip(n).skip(1));
            proof {
                n = n + 1;
            }
        }
        assert(all.skip(n).len() == 0);
        assert(all.take(n) =~= all);
        assert(self@.take(i as int) =~= self@);
    }

    /// Looks at the scripts that were found: each makes its add-on, given what was known of it,
    /// and add-ons whose script is gone leave.
    pub fn load_addons(&mut self, found: Vec<Script>)
        ensures
            final(self)@ == loaded(old(self)@, script_views(found@)),
    {
        let ghost known = self@;
        let ghost all = script_views(found@);
        let mut usable: Vec<String> = Vec::new();
        let mut i: usize = 0;
        while i < found.len()
            invariant
                i <= found@.len(),
                all == script_views(found@),
                forall|id: Seq<char>| #[trigger]
                    text::texts(usable@).contains(id) == on_disk(all.take(i as int), id),
            decreases found@.len() - i,
        {
            let ghost before = text::texts(usable@);
            let ghost now = all.take(i as int);
            let ghost next = all.take(i + 1);
            assert(next =~= now.push(all[i as int]));
            let s: &Script = &found[i];
            if s.has_metadata || is_bare_script(s.file_name.as_str()) {
                usable.push(s.addon.id.clone());
                assert(text::texts(usable@) =~= before.push(all[i as int].addon.id));
            }
            proof {
                assert forall|id: Seq<char>| #[trigger]
                    text::texts(usable@).contains(id) == on_disk(next, id) by {
                    lemma_on_disk_push(now, all[i as int], id);
                    let u = text::texts(usable@);
                    if is_usable(all[i as int]) {
                        let x = all[i as int].addon.id;
                        if u.contains(id) {
                            let k = choose|k: int| 0 <= k < u.len() && u[k] == id;
                            if k < before.len() {
                                assert(before[k] == id);
                                assert(before.contains(id));
                            }
                        }
                        if before.contains(id) {
                            let k = choose|k: int| 0 <= k < before.len() && before[k] == id;
                            assert(u[k] == id);
                        }
                        if id == x {
                            assert(u[before.len() as int] == id);
                        }
                    } else {
                        assert(u == before);
                    }
                }
            }
            i = i + 1;
        }
        assert(all.take(found@.len() as int) =~= all);
        self.take_in_all(found);
        self.drop_missing(&usable, Ghost(all));
    }

    fn take_in_all(&mut self, found: Vec<Script>)
        ensures
            final(self)@ == after_scan(old(self)@, script_views(found@)),
        decreases found@.len(),
    {
        let mut rest: Vec<Script> = found;
        let ghost all = script_views(rest@);
        match rest.pop() {
            Some(s) => {
                assert(all.drop_last() =~= script_views(rest@));
                assert(all.last() == s@);
                self.take_in_all(rest);
                self.take_in(s);
            },
            None => {},
        }
    }

    /// Switches an add-on on or off. One that is switched on is granted what it asks for.
    pub fn set_addon_consent(&mut self, id: &str, enable: bool)
        ensures
            final(self)@ == with_consent(old(self)@, id@, enable),
    {
        let ghost before = self@;
        match self.position(id) {
            Some(i) => {
                self.addons[i].enabled = enable;
                if enable {
                    self.addons[i].granted = self.addons[i].requested;
                }
                assert(self@ =~= with_consent(before, id@, enable));
            },
            None => {},
        }
    }

    /// Forgets an add-on.
    pub fn remove_addon(&mut self, id: &str)
        ensures
            final(self)@ == without_addon(old(self)@, id@),
    {
        let ghost all = self@;
        let mut i: usize = 0;
        let ghost mut n: int = 0;
        assert(all.skip(0) =~= all);
        assert(self@.take(0) =~= without_addon(all.take(0), id@));
        while i < self.addons.len()
            invariant
                i <= self.addons@.len(),
                0 <= n <= all.len(),
                self@.take(i as int) == without_addon(all.take(n), id@),
                self@.skip(i as int) == all.skip(n),
            decreases self.addons@.len() - i,
        {
            let ghost before = self@;
            assert(before.skip(i as int)[0] == before[i as int]);
            assert(before.skip(i as int).len() == all.skip(n).len());
            assert(all.skip(n)[0] == all[n]);
            assert(all.take(n + 1).drop_last() =~= all.take(n));
            assert(before[i as int] == self.addons@[i as int]@);
            if text::same(self.addons[i].id.as_str(), id) {
                self.addons.remove(i);
                assert(self@ =~= before.remove(i as int));
                assert(self@.take(i as int) =~= before.take(i as int));
                assert(self@.skip(i as int) =~= before.skip(i as int).skip(1));
            } else {
                assert(before.take(i + 1) =~= before.take(i as int).push(all[n]));
                assert(before.skip(i + 1) =~= before.skip(i as int).skip(1));
                i = i + 1;
            }
            assert(all.skip(n + 1) =~= all.skip(n).skip(1));
            proof {
                n = n + 1;
            }
        }
        assert(all.skip(n).len() == 0);
        assert(all.take(n) =~= all);
        assert(self@.take(i as int) =~= self@);
    }

    /// The ids of the add-ons that run on a page, given which of them accept its address.
    pub fn enabled_matching(&self, accepts: &Vec<bool>) -> (r: Vec<String>)
        ensures
            text::texts(r@) == running(self@, accepts@),
    {
        let ghost e = self@;
        let mut out: Vec<String> = Vec::new();
        let mut i: usize = 0;
        assert(text::texts(out@) =~= running(e.take(0), accepts@));
        while i < self.addons.len()
            invariant
                i <= self.addons@.len(),
                e == addon_views(self.addons@),
                text::texts(out@) == running(e.take(i as int), accepts@),
            decreases self.addons@.len() - i,
        {
            let ghost before = text::texts(out@);
            assert(e.take(i + 1).drop_last() =~= e.take(i as int));
            assert(e.take(i + 1).last() == self.addons@[i as int]@);
            if self.addons[i].enabled && i < accepts.len() && accepts[i] {
                out.push(self.addons[i].id.clone());
                assert(text::texts(out@) =~= before.push(e[i as int].id));
            }
            i = i + 1;
        }
        assert(e.take(self.addons@.len() as int) =~= e);
        out
    }

    /// Asks the user about every add-on that waits for a decision, as far as there is room.
    pub fn prompt_pending_consents(&self, t: &PermissionTexts, queue: &mut DialogQueue)
        ensures
            asked(old(queue).items@, final(queue).items@, pending(self@), *t),
    {
        let ghost e = self@;
        let ghost start = queue.items@;
        let mut i: usize = 0;
        assert(start.take(start.len() as int) =~= start);
        while i < self.addons.len()
            invariant
                i <= self.addons@.len(),
                e == addon_views(self.addons@),
                asked(start, queue.items@, pending(e.take(i as int)), *t),
            decreases self.addons@.len() - i,
        {
            let a: &Addon = &self.addons[i];
            assert(e.take(i + 1).drop_last() =~= e.take(i as int));
            assert(e.take(i + 1).last() == a@);
            let ghost p = pending(e.take(i as int));
            if !a.enabled && a.granted.is_empty() {
                let ghost before = queue.items@;
                let d: Dialog = Dialog::AddonConsent {
                    addon_id: a.id.clone(),
                    name: a.name.clone(),
                    version: a.version.clone(),
                    sites: describe_all(&a.matches),
                    perms: name_permissions(a.requested, t),
                };
                assert(is_consent_for(d, a@, *t));
                let added: bool = queue.push_dialog(d);
                proof {
                    assert forall|k: int|
                        start.len() <= k < queue.items@.len() implies is_consent_for(
                        #[trigger] queue.items@[k],
                        p.push(a@)[k - start.len()],
                        *t,
                    ) by {
                        if k < before.len() {
                            assert(is_consent_for(before[k], p[k - start.len()], *t));
                        }
                    }
                    assert(queue.items@.take(start.len() as int) =~= before.take(
                        start.len() as int,
                    ));
                }
            }
            i = i + 1;
        }
        assert(e.take(self.addons@.len() as int) =~= e);
    }
}

/// The dialogs after those for the waiting add-ons were added, in order, up to the limit.
pub open spec fn asked(
    before: Seq<Dialog>,
    after: Seq<Dialog>,
    waiting: Seq<AddonView>,
    t: PermissionTexts,
) -> bool {
    let room = if before.len() < dialogs::MAX_DIALOGS {
        dialogs::MAX_DIALOGS - before.len()
    } else {
        0
    };
    &&& after.len() == before.len() + if waiting.len() < room {
        waiting.len() as int
    } else {
        room
    }
    &&& after.take(before.len() as int) == before
    &&& forall|k: int|
        before.len() <= k < after.len() ==> is_consent_for(
            #[trigger] after[k],
            waiting[k - before.len()],
            t,
        )
}

proof fn lemma_on_disk_push(now: Seq<ScriptView>, s: ScriptView, id: Seq<char>)
    ensures
        on_disk(now.push(s), id) == (on_disk(now, id) || (is_usable(s) && s.addon.id == id)),
{
    let next = now.push(s);
    if on_disk(now, id) {
        let k = choose|k: int|
            0 <= k < now.len() && is_usable(#[trigger] now[k]) && now[k].addon.id == id;
        assert(next[k] == now[k]);
        assert(is_usable(next[k]));
    }
    if is_usable(s) && s.addon.id == id {
        assert(next[now.len() as int] == s);
        assert(is_usable(next[now.len() as int]));
    }
    if on_disk(next, id) {
        let k = choose|k: int|
            0 <= k < next.len() && is_usable(#[trigger] next[k]) && next[k].addon.id == id;
        if k < now.len() {
            assert(now[k] == next[k]);
            assert(is_usable(now[k]));
        }
    }
}

// ---------------------------------------------------------------------------
// The list in the toolbar
// ---------------------------------------------------------------------------

/// A row of the list of add-ons in the toolbar: its switch, and whether it runs on this page.
#[derive(Debug)]
pub struct PopoverRow {
    pub id: String,
    pub label: String,
    pub enabled: bool,
    pub active: bool,
}

/// `PopoverRow` as mathematical values.
#[verifier::ext_equal]
pub struct RowView {
    pub id: Seq<char>,
    pub label: Seq<char>,
    pub enabled: bool,
    pub active: bool,
}

impl View for PopoverRow {
    type V = RowView;

    open spec fn view(&self) -> RowView {
        RowView {
            id: self.id@,
            label: self.label@,
            enabled: self.enabled,
            active: self.active,
        }
    }
}

/// The rows of the list of add-ons, one for each, names cut short.
pub open spec fn toolbar_rows(e: Seq<AddonView>, accepts: Seq<bool>) -> Seq<RowView> {
    Seq::new(
        e.len(),
        |i: int|
            RowView {
                id: e[i].id,
                label: codec::shortened(e[i].name, 28),
                enabled: e[i].enabled,
                active: running(e, accepts).contains(e[i].id),
            },
    )
}

/// What the switch of a row says.
pub fn switch_label(enabled: bool) -> (r: &'static str)
    ensures
        r@ == if enabled {
            "On"@
        } else {
            "Off"@
        },
{
    if enabled {
        "On"
    } else {
        "Off"
    }
}

impl Registry {
    /// The rows of the list of add-ons, given which of them accept the page's address.
    pub fn popover_rows(&self, accepts: &Vec<bool>) -> (r: Vec<PopoverRow>)
        ensures
            Seq::new(r@.len(), |i: int| r@[i]@) == toolbar_rows(self@, accepts@),
    {
        let active: Vec<String> = self.enabled_matching(accepts);
        let ghost all = toolbar_rows(self@, accepts@);
        let mut out: Vec<PopoverRow> = Vec::new();
        let mut i: usize = 0;
        while i < self.addons.len()
            invariant
                i <= self.addons@.len(),
                text::texts(active@) == running(self@, accepts@),
                all == toolbar_rows(self@, accepts@),
                out@.len() == i,
                forall|j: int| 0 <= j < i ==> (#[trigger] out@[j])@ == all[j],
            decreases self.addons@.len() - i,
        {
            let a: &Addon = &self.addons[i];
            assert(self@[i as int] == a@);
            out.push(
                PopoverRow {
                    id: a.id.clone(),
                    label: codec::truncate_ellipsis(a.name.as_str(), 28),
                    enabled: a.enabled,
                    active: text::is_one_of(a.id.as_str(), &active),
                },
            );
            assert(out@[i as int]@ == all[i as int]);
            i = i + 1;
        }
        assert(Seq::new(out@.len(), |i: int| out@[i]@) =~= all);
        out
    }
}

// ---------------------------------------------------------------------------
// Scripts in a tab
// ---------------------------------------------------------------------------

/// The members of one list that are in another.
pub open spec fn among(a: Seq<Seq<char>>, b: Seq<Seq<char>>, present: bool) -> Seq<Seq<char>>
    decreases a.len(),
{
    if a.len() == 0 {
        Seq::empty()
    } else if b.contains(a.last()) == present {
        among(a.drop_last(), b, present).push(a.last())
    } else {
        among(a.drop_last(), b, present)
    }
}

/// What is to change of the scripts in a tab.
#[derive(Debug)]
pub struct Injection {
    /// In the tab, and still to run there.
    pub keep: Vec<String>,
    /// In the tab, and no longer to run there.
    pub remove: Vec<String>,
    /// Not in the tab yet.
    pub insert: Vec<String>,
}

fn pick(a: &Vec<String>, b: &Vec<String>, present: bool) -> (r: Vec<String>)
    ensures
        text::texts(r@) == among(text::texts(a@), text::texts(b@), present),
{
    let ghost all = text::texts(a@);
    let mut out: Vec<String> = Vec::new();
    let mut i: usize = 0;
    assert(text::texts(out@) =~= among(all.take(0), text::texts(b@), present));
    while i < a.len()
        invariant
            i <= a@.len(),
            all == text::texts(a@),
            text::texts(out@) == among(all.take(i as int), text::texts(b@), present),
        decreases a@.len() - i,
    {
        let ghost before = text::texts(out@);
        assert(all.take(i + 1).drop_last() =~= all.take(i as int));
        assert(all.take(i + 1).last() == all[i as int]);
        if text::is_one_of(a[i].as_str(), b) == present {
            out.push(a[i].clone());
            assert(text::texts(out@) =~= before.push(all[i as int]));
        }
        i = i + 1;
    }
    assert(all.take(a@.len() as int) =~= all);
    out
}

/// Plans what is to change of the scripts in a tab that goes to a page: those that do not run
/// there leave, and those that do and are not in the tab are put in.
pub fn inject_userscripts(already: &Vec<String>, matching: &Vec<String>) -> (r: Injection)
    ensures
        text::texts(r.keep@) == among(text::texts(already@), text::texts(matching@), true),
        text::texts(r.remove@) == among(text::texts(already@), text::texts(matching@), false),
        text::texts(r.insert@) == among(text::texts(matching@), text::texts(already@), false),
{
    Injection {
        keep: pick(already, matching, true),
        remove: pick(already, matching, false),
        insert: pick(matching, already, false),
    }
}

proof fn lemma_among(a: Seq<Seq<char>>, b: Seq<Seq<char>>, present: bool, x: Seq<char>)
    ensures
        among(a, b, present).contains(x) == (a.contains(x) && b.contains(x) == present),
    decreases a.len(),
{
    if a.len() > 0 {
        let r = a.drop_last();
        lemma_among(r, b, present, x);
        let s = among(r, b, present);
        assert(a.contains(x) == (r.contains(x) || a.last() == x)) by {
            if r.contains(x) {
                let k = choose|k: int| 0 <= k < r.len() && r[k] == x;
                assert(a[k] == x);
            }
            if a.contains(x) && a.last() != x {
                let k = choose|k: int| 0 <= k < a.len() && a[k] == x;
                assert(r[k] == x);
            }
        }
        let t = s.push(a.last());
        assert(t.contains(x) == (s.contains(x) || a.last() == x)) by {
            if s.contains(x) {
                let k = choose|k: int| 0 <= k < s.len() && s[k] == x;
                assert(t[k] == x);
            }
            if a.last() == x {
                assert(t[s.len() as int] == x);
            }
            if t.contains(x) && a.last() != x {
                let k = choose|k: int| 0 <= k < t.len() && t[k] == x;
                assert(s[k] == x);
            }
        }
    }
}

/// Once the plan is carried out, the scripts in the tab are exactly those that run on the page:
/// none from another site lingers, none is put in twice, and none that is removed stays.
pub proof fn a_tab_runs_what_matches(
    already: Seq<Seq<char>>,
    matching: Seq<Seq<char>>,
    x: Seq<char>,
)
    ensures
        (among(already, matching, true) + among(matching, already, false)).contains(x)
            == matching.contains(x),
        among(already, matching, true).contains(x) ==> !among(matching, already, false).contains(x),
        among(already, matching, false).contains(x) ==> !matching.contains(x),
{
    lemma_among(already, matching, true, x);
    lemma_among(matching, already, false, x);
    lemma_among(already, matching, false, x);
    let a = among(already, matching, true);
    let b = among(matching, already, false);
    let s = a + b;
    if a.contains(x) {
        let k = choose|k: int| 0 <= k < a.len() && a[k] == x;
        assert(s[k] == x);
    }
    if b.contains(x) {
        let k = choose|k: int| 0 <= k < b.len() && b[k] == x;
        assert(s[a.len() + k] == x);
    }
    if s.contains(x) {
        let k = choose|k: int| 0 <= k < s.len() && s[k] == x;
        if k < a.len() {
            assert(a[k] == x);
        } else {
            assert(b[k - a.len()] == x);
        }
    }
}

// ---------------------------------------------------------------------------
// Laws
// ---------------------------------------------------------------------------

/// A switch does what it says. The first add-on of that id is on afterwards exactly if it was
/// switched on; then it is granted what it asks for, and otherwise its grants stay. Nothing else of
/// it changes, and no other add-on does.
pub proof fn a_switch_is_obeyed(e: Seq<AddonView>, id: Seq<char>, on: bool, i: int)
    requires
        0 <= i < e.len(),
        e[i].id == id,
        forall|j: int| 0 <= j < i ==> (#[trigger] e[j]).id != id,
    ensures
        with_consent(e, id, on).len() == e.len(),
        with_consent(e, id, on)[i].enabled == on,
        on ==> with_consent(e, id, on)[i].granted == e[i].requested,
        !on ==> with_consent(e, id, on)[i].granted == e[i].granted,
        with_consent(e, id, on)[i] == (AddonView {
            enabled: with_consent(e, id, on)[i].enabled,
            granted: with_consent(e, id, on)[i].granted,
            ..e[i]
        }),
        forall|j: int|
            0 <= j < e.len() && j != i ==> with_consent(e, id, on)[j] == #[trigger] e[j],
{
    lemma_addon_place(e, id);
}

/// A switch for an add-on that is not installed changes nothing.
pub proof fn an_unknown_switch_changes_nothing(e: Seq<AddonView>, id: Seq<char>, on: bool)
    requires
        forall|j: int| 0 <= j < e.len() ==> (#[trigger] e[j]).id != id,
    ensures
        with_consent(e, id, on) == e,
{
    lemma_addon_place(e, id);
}

/// What runs on a page: an id is among those that run exactly if some add-on of that id is on and
/// its patterns accept the page.
pub proof fn what_is_on_and_matches_runs(e: Seq<AddonView>, accepts: Seq<bool>, id: Seq<char>)
    ensures
        running(e, accepts).contains(id) <==> exists|i: int|
            0 <= i < e.len() && (#[trigger] e[i]).id == id && e[i].enabled && i < accepts.len()
                && accepts[i],
    decreases e.len(),
{
    if e.len() > 0 {
        let d = e.drop_last();
        let rest = running(d, accepts);
        let n = e.len() - 1;
        what_is_on_and_matches_runs(d, accepts, id);
        if rest.contains(id) {
            let i = choose|i: int|
                0 <= i < d.len() && (#[trigger] d[i]).id == id && d[i].enabled && i < accepts.len()
                    && accepts[i];
            assert(e[i] == d[i]);
            let k = choose|k: int| 0 <= k < rest.len() && rest[k] == id;
            assert(running(e, accepts)[k] == id);
        }
        if e[n].id == id && e[n].enabled && n < accepts.len() && accepts[n] {
            assert(running(e, accepts)[rest.len() as int] == id);
        }
        if running(e, accepts).contains(id) && !rest.contains(id) {
            let k = choose|k: int| 0 <= k < running(e, accepts).len() && running(e, accepts)[k] == id;
            assert(k == rest.len()) by {
                if k < rest.len() {
                    assert(rest[k] == id);
                }
            }
            assert(e[n].id == id);
        }
        if exists|i: int|
            0 <= i < e.len() && (#[trigger] e[i]).id == id && e[i].enabled && i < accepts.len()
                && accepts[i] {
            let i = choose|i: int|
                0 <= i < e.len() && (#[trigger] e[i]).id == id && e[i].enabled && i < accepts.len()
                    && accepts[i];
            if i < n {
                assert(d[i].id == id);
            }
        }
    }
}

/// A script that was switched off runs on no page, whatever its patterns accept.
pub proof fn what_is_switched_off_runs_nowhere(
    e: Seq<AddonView>,
    id: Seq<char>,
    accepts: Seq<bool>,
)
    requires
        forall|i: int, j: int|
            0 <= i < j < e.len() ==> !((#[trigger] e[i]).id == id && (#[trigger] e[j]).id == id),
    ensures
        !running(with_consent(e, id, false), accepts).contains(id),
{
    let r = with_consent(e, id, false);
    lemma_addon_place(e, id);
    what_is_on_and_matches_runs(r, accepts, id);
    assert forall|i: int| 0 <= i < r.len() && (#[trigger] r[i]).id == id implies !r[i].enabled by {
        assert(e[i].id == id);
        let p = addon_place(e, id).unwrap();
        if p < i {
            assert(e[p].id == id);
        }
    }
}

/// A script that was switched on runs on each page that its patterns accept.
pub proof fn what_is_switched_on_runs(
    e: Seq<AddonView>,
    id: Seq<char>,
    accepts: Seq<bool>,
    i: int,
)
    requires
        0 <= i < e.len(),
        e[i].id == id,
        forall|j: int| 0 <= j < i ==> (#[trigger] e[j]).id != id,
        i < accepts.len(),
        accepts[i],
    ensures
        running(with_consent(e, id, true), accepts).contains(id),
{
    a_switch_is_obeyed(e, id, true, i);
    what_is_on_and_matches_runs(with_consent(e, id, true), accepts, id);
    assert(with_consent(e, id, true)[i].id == id);
}

/// A removed add-on is gone, and all others stay in their order.
pub proof fn removed_addons_are_gone(e: Seq<AddonView>, id: Seq<char>)
    ensures
        without_addon(e, id) == e.filter(|a: AddonView| a.id != id),
    decreases e.len(),
{
    reveal(Seq::filter);
    if e.len() > 0 {
        removed_addons_are_gone(e.drop_last(), id);
    }
}

/// The user is asked about every add-on that is off and holds no grant, and about no other.
pub proof fn the_undecided_are_asked_about(e: Seq<AddonView>)
    ensures
        pending(e) == e.filter(
            |a: AddonView|
                !a.enabled && forall|p: Permission| !#[trigger] a.granted.holds(p),
        ),
    decreases e.len(),
{
    reveal(Seq::filter);
    if e.len() > 0 {
        the_undecided_are_asked_about(e.drop_last());
        assert(is_pending(e.last()) == (!e.last().enabled && forall|p: Permission|
            !#[trigger] e.last().granted.holds(p)));
    }
}

/// An add-on that is put in is there afterwards; one of its id gives up its place to it, and no
/// other changes.
pub proof fn an_addon_takes_its_place(e: Seq<AddonView>, a: AddonView)
    ensures
        forall|i: int|
            0 <= i < e.len() && (#[trigger] e[i]).id == a.id && (forall|j: int|
                0 <= j < i ==> (#[trigger] e[j]).id != a.id) ==> upserted(e, a).len() == e.len()
                && upserted(e, a)[i] == a && forall|j: int|
                0 <= j < e.len() && j != i ==> #[trigger] upserted(e, a)[j] == e[j],
        (forall|j: int| 0 <= j < e.len() ==> (#[trigger] e[j]).id != a.id) ==> upserted(e, a) == e.push(
            a,
        ),
{
    lemma_addon_place(e, a.id);
}

/// A script that is not known yet arrives as it describes itself, with nothing granted; it is off until
/// the user agrees, unless it is a plain script that asks for nothing.
pub proof fn new_scripts_wait_for_consent(s: ScriptView)
    ensures
        !reconciled(None, s).granted.storage && !reconciled(None, s).granted.cross_origin_fetch
            && !reconciled(None, s).granted.notifications && !reconciled(None, s).granted.tab_control
            && !reconciled(None, s).granted.clipboard,
        s.has_metadata ==> !reconciled(None, s).enabled,
        ".user.js"@.is_suffix_of(s.file_name) ==> !reconciled(None, s).enabled,
        !s.has_metadata && !".user.js"@.is_suffix_of(s.file_name) ==> reconciled(None, s).enabled,
        reconciled(None, s).id == s.addon.id,
        reconciled(None, s).name == s.addon.name,
        reconciled(None, s).version == s.addon.version,
        reconciled(None, s).matches == s.addon.matches,
        reconciled(None, s).connect == s.addon.connect,
        reconciled(None, s).requested == s.addon.requested,
{
}

/// A script that changed and asks for no more than it was granted stays on or off as it was, with what
/// it still asks for; everything else about it is as it now describes itself.
pub proof fn modest_changes_keep_consent(before: AddonView, s: ScriptView)
    requires
        s.addon.requested.within(before.granted),
        before.content_hash != s.addon.content_hash,
    ensures
        reconciled(Some(before), s).enabled == before.enabled,
        forall|p: Permission| #[trigger]
            reconciled(Some(before), s).granted.holds(p) <==> s.addon.requested.holds(p),
        reconciled(Some(before), s).matches == s.addon.matches,
        reconciled(Some(before), s).version == s.addon.version,
        reconciled(Some(before), s).content_hash == s.addon.content_hash,
{
    let kept = in_both(before.granted, s.addon.requested);
    assert forall|p: Permission| #[trigger] s.addon.requested.holds(p) implies kept.holds(p) by {
        assert(before.granted.holds(p));
    }
    assert forall|p: Permission| #[trigger] kept.holds(p) implies s.addon.requested.holds(p) by {}
}

/// What is loaded is what is still on disk, in order.
pub proof fn what_left_the_disk_is_dropped(e: Seq<AddonView>, found: Seq<ScriptView>)
    ensures
        still_there(e, found) == e.filter(|a: AddonView| on_disk(found, a.id)),
    decreases e.len(),
{
    reveal(Seq::filter);
    if e.len() > 0 {
        what_left_the_disk_is_dropped(e.drop_last(), found);
    }
}

/// Each script found takes the place of the one it replaces, or comes last; one that is no add-on is
/// passed over.
pub proof fn found_scripts_are_taken_in(e: Seq<AddonView>, found: Seq<ScriptView>, s: ScriptView)
    ensures
        after_scan(e, Seq::empty()) == e,
        !s.has_metadata && ".user.js"@.is_suffix_of(s.file_name) ==> after_scan(e, found.push(s))
            == after_scan(e, found),
        (s.has_metadata || !".user.js"@.is_suffix_of(s.file_name)) && (forall|i: int|
            0 <= i < after_scan(e, found).len() ==> (#[trigger] after_scan(e, found)[i]).id != s.addon.id)
            ==> after_scan(e, found.push(s)) == after_scan(e, found).push(reconciled(None, s)),
        forall|i: int|
            (s.has_metadata || !".user.js"@.is_suffix_of(s.file_name)) && 0 <= i < after_scan(e, found).len()
                && (#[trigger] after_scan(e, found)[i]).id == s.addon.id && (forall|j: int|
                0 <= j < i ==> (#[trigger] after_scan(e, found)[j]).id != s.addon.id) ==> after_scan(
                e,
                found.push(s),
            ) == after_scan(e, found).update(i, reconciled(Some(after_scan(e, found)[i]), s)),
{
    assert(found.push(s).drop_last() =~= found);
    lemma_addon_place(after_scan(e, found), s.addon.id);
}

/// What an add-on asks for is listed by name: each permission that it wants, in a fixed order, and no
/// other.
pub proof fn wanted_permissions_are_named(p: PermissionSet, t: PermissionTexts)
    ensures
        p.storage ==> permission_lines(p, t).contains(t.storage@),
        p.cross_origin_fetch ==> permission_lines(p, t).contains(t.cross_origin_fetch@),
        p.notifications ==> permission_lines(p, t).contains(t.notifications@),
        p.tab_control ==> permission_lines(p, t).contains(t.tab_control@),
        p.clipboard ==> permission_lines(p, t).contains(t.clipboard@),
        forall|x: Seq<char>| #[trigger]
            permission_lines(p, t).contains(x) ==> (p.storage && x == t.storage@) || (p.cross_origin_fetch
                && x == t.cross_origin_fetch@) || (p.notifications && x == t.notifications@) || (
            p.tab_control && x == t.tab_control@) || (p.clipboard && x == t.clipboard@),
        p.storage && p.cross_origin_fetch && p.notifications && p.tab_control && p.clipboard
            ==> permission_lines(p, t) == seq![
            t.storage@,
            t.cross_origin_fetch@,
            t.notifications@,
            t.tab_control@,
            t.clipboard@,
        ],
{
    let l = permission_lines(p, t);
    let a: int = if p.storage { 1 } else { 0 };
    let b: int = if p.cross_origin_fetch { a + 1 } else { a };
    let c: int = if p.notifications { b + 1 } else { b };
    let d: int = if p.tab_control { c + 1 } else { c };
    let e: int = if p.clipboard { d + 1 } else { d };
    assert(l.len() == e);
    assert(p.storage ==> l[0] == t.storage@);
    assert(p.cross_origin_fetch ==> l[a] == t.cross_origin_fetch@);
    assert(p.notifications ==> l[b] == t.notifications@);
    assert(p.tab_control ==> l[c] == t.tab_control@);
    assert(p.clipboard ==> l[d] == t.clipboard@);
}

/// Each add-on that waits is asked about in its turn, behind the dialogs that are there, until there are
/// thirty-two; the dialogs that are there stay.
pub proof fn the_waiting_are_asked_about_in_turn(
    before: Seq<Dialog>,
    after: Seq<Dialog>,
    waiting: Seq<AddonView>,
    t: PermissionTexts,
    k: int,
)
    requires
        asked(before, after, waiting, t),
        0 <= k < waiting.len(),
    ensures
        before.len() + k < 32 ==> before.len() + k < after.len() && is_consent_for(
            after[before.len() + k],
            waiting[k],
            t,
        ),
        before.len() + waiting.len() <= 32 ==> after.len() == before.len() + waiting.len(),
        before.len() >= 32 ==> after == before,
        before.len() < 32 ==> after.len() <= 32,
        before.is_prefix_of(after),
{
    assert(before =~= after.take(before.len() as int));
    if before.len() + k < 32 {
        let n = before.len() + k;
        assert(is_consent_for(after[n], waiting[n - before.len()], t));
    }
}

} // verus!

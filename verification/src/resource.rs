//! Requests: which ones the browser answers itself, with what, and where pages may go.

use vstd::prelude::*;
use vstd::string::*;

use crate::address;
use crate::address::{UrlParts, UrlView};
use crate::archive::Mode;
use crate::codec;
use crate::number;
use crate::preferences;
use crate::preferences::{ChangeView, SettingsApply};
use crate::reports;
use crate::text;

verus! {

/// The status of a request that a rule stopped.
pub const NO_CONTENT: u16 = 204;

/// The status of a request that the browser answers itself.
pub const OK: u16 = 200;

/// What a link to the page of add-ons asks for.
#[derive(Debug)]
pub enum AddonCommand {
    Nothing,
    Enable(String),
    Disable(String),
    Remove(String),
}

/// `AddonCommand` as mathematical values.
#[verifier::ext_equal]
pub enum CommandView {
    Nothing,
    Enable(Seq<char>),
    Disable(Seq<char>),
    Remove(Seq<char>),
}

impl View for AddonCommand {
    type V = CommandView;

    open spec fn view(&self) -> CommandView {
        match self {
            AddonCommand::Nothing => CommandView::Nothing,
            AddonCommand::Enable(s) => CommandView::Enable(s@),
            AddonCommand::Disable(s) => CommandView::Disable(s@),
            AddonCommand::Remove(s) => CommandView::Remove(s@),
        }
    }
}

/// A font of the browser's own.
#[derive(Clone, Copy, Debug, PartialEq, Eq, Structural)]
pub enum FontFile {
    Outfit,
    JetBrainsMono,
    SpaceGrotesk,
}

/// What stands at an internal address.
#[derive(Debug)]
pub enum Page {
    Welcome,
    Why,
    Export,
    /// Everything the browser keeps, as a file to download.
    ExportFile,
    History,
    About,
    Downloads,
    /// The saved passwords, after the one of this number is removed.
    Passwords(Option<usize>),
    Extensions(AddonCommand),
    Settings(SettingsApply),
    /// The page that takes the place of a crashed one: its address and why it crashed.
    Crash(String, String),
    Font(FontFile),
    /// The cached icon of a host.
    Favicon(String),
    /// There is no such page.
    Unknown(String),
}

/// `Page` as mathematical values.
#[verifier::ext_equal]
pub enum InternalPage {
    Welcome,
    Why,
    Export,
    ExportFile,
    History,
    About,
    Downloads,
    Passwords(Option<usize>),
    Extensions(CommandView),
    Settings(ChangeView),
    Crash(Seq<char>, Seq<char>),
    Font(FontFile),
    Favicon(Seq<char>),
    Unknown(Seq<char>),
}

impl View for Page {
    type V = InternalPage;

    open spec fn view(&self) -> InternalPage {
        match self {
            Page::Welcome => InternalPage::Welcome,
            Page::Why => InternalPage::Why,
            Page::Export => InternalPage::Export,
            Page::ExportFile => InternalPage::ExportFile,
            Page::History => InternalPage::History,
            Page::About => InternalPage::About,
            Page::Downloads => InternalPage::Downloads,
            Page::Passwords(n) => InternalPage::Passwords(*n),
            Page::Extensions(c) => InternalPage::Extensions(c@),
            Page::Settings(c) => InternalPage::Settings(c@),
            Page::Crash(u, r) => InternalPage::Crash(u@, r@),
            Page::Font(f) => InternalPage::Font(*f),
            Page::Favicon(h) => InternalPage::Favicon(h@),
            Page::Unknown(h) => InternalPage::Unknown(h@),
        }
    }
}

/// Where a request goes.
#[derive(Debug)]
pub enum Route {
    /// To the bridge through which add-ons reach the browser, with the path and the pairs of the
    /// address.
    Bridge(String, Vec<(String, String)>),
    /// To the credential firewall: a field that takes a secret has the focus, on this origin and
    /// host.
    Firewall(String, String),
    /// To the archive.
    Archive(Mode),
    /// To the network, unless a rule stops it.
    Network,
    /// To a page of the browser's own.
    Internal(Page),
}

/// `Route` as mathematical values.
#[verifier::ext_equal]
pub enum RouteView {
    Bridge(Seq<char>, Seq<(Seq<char>, Seq<char>)>),
    Firewall(Seq<char>, Seq<char>),
    Archive(Mode),
    Network,
    Internal(InternalPage),
}

impl View for Route {
    type V = RouteView;

    open spec fn view(&self) -> RouteView {
        match self {
            Route::Bridge(path, pairs) => RouteView::Bridge(path@, address::pair_texts(pairs@)),
            Route::Firewall(o, h) => RouteView::Firewall(o@, h@),
            Route::Archive(m) => RouteView::Archive(*m),
            Route::Network => RouteView::Network,
            Route::Internal(p) => RouteView::Internal(p@),
        }
    }
}

// ---------------------------------------------------------------------------
// The values of a query
// ---------------------------------------------------------------------------

/// The value of the last pair with this key.
pub open spec fn last_value(pairs: Seq<(Seq<char>, Seq<char>)>, key: Seq<char>) -> Option<
    Seq<char>,
>
    decreases pairs.len(),
{
    if pairs.len() == 0 {
        None
    } else if pairs.last().0 == key {
        Some(pairs.last().1)
    } else {
        last_value(pairs.drop_last(), key)
    }
}

/// The value of the last pair with this key.
pub fn find_last_value(pairs: &Vec<(String, String)>, key: &str) -> (r: Option<String>)
    ensures
        address::optional_text(r) == last_value(address::pair_texts(pairs@), key@),
{
    let ghost all = address::pair_texts(pairs@);
    let mut out: Option<String> = None;
    let mut i: usize = 0;
    while i < pairs.len()
        invariant
            i <= pairs@.len(),
            all == address::pair_texts(pairs@),
            address::optional_text(out) == last_value(all.take(i as int), key@),
        decreases pairs@.len() - i,
    {
        assert(all.take(i + 1).drop_last() =~= all.take(i as int));
        assert(all.take(i + 1).last() == all[i as int]);
        if text::same(pairs[i].0.as_str(), key) {
            out = Some(pairs[i].1.clone());
        }
        i = i + 1;
    }
    assert(all.take(pairs@.len() as int) =~= all);
    out
}

/// A text, or nothing where there is none.
pub open spec fn or_empty(o: Option<Seq<char>>) -> Seq<char> {
    match o {
        Some(s) => s,
        None => Seq::empty(),
    }
}

fn or_blank(o: Option<String>) -> (r: String)
    ensures
        r@ == or_empty(address::optional_text(o)),
{
    match o {
        Some(s) => s,
        None => {
            let s: String = String::new();
            assert(s@ =~= Seq::<char>::empty());
            s
        },
    }
}

/// What a link to the page of add-ons asks for; to switch one on comes before switching one off,
/// and that before removing one.
pub open spec fn command_of(pairs: Seq<(Seq<char>, Seq<char>)>) -> CommandView {
    match last_value(pairs, "enable"@) {
        Some(id) => CommandView::Enable(id),
        None => match last_value(pairs, "disable"@) {
            Some(id) => CommandView::Disable(id),
            None => match last_value(pairs, "remove"@) {
                Some(id) => CommandView::Remove(id),
                None => CommandView::Nothing,
            },
        },
    }
}

/// What a link to the page of add-ons asks for.
pub fn read_command(pairs: &Vec<(String, String)>) -> (r: AddonCommand)
    ensures
        r@ == command_of(address::pair_texts(pairs@)),
{
    match find_last_value(pairs, "enable") {
        Some(id) => AddonCommand::Enable(id),
        None => match find_last_value(pairs, "disable") {
            Some(id) => AddonCommand::Disable(id),
            None => match find_last_value(pairs, "remove") {
                Some(id) => AddonCommand::Remove(id),
                None => AddonCommand::Nothing,
            },
        },
    }
}

/// The number of the password that a link asks to remove.
pub open spec fn removal_of(pairs: Seq<(Seq<char>, Seq<char>)>) -> Option<usize> {
    match last_value(pairs, "remove"@) {
        Some(v) => match number::read_unsigned(v, usize::MAX as nat) {
            Some(n) => Some(n as usize),
            None => None,
        },
        None => None,
    }
}

fn read_removal(pairs: &Vec<(String, String)>) -> (r: Option<usize>)
    ensures
        r == removal_of(address::pair_texts(pairs@)),
{
    match find_last_value(pairs, "remove") {
        Some(v) => match number::parse_unsigned(v.as_str(), usize::MAX as u64) {
            Some(n) => Some(n as usize),
            None => None,
        },
        None => None,
    }
}

// ---------------------------------------------------------------------------
// Internal pages
// ---------------------------------------------------------------------------

/// The path without the slashes that it starts with.
pub open spec fn name_in_path(path: Seq<char>) -> Seq<char> {
    text::without_leading(path, "/"@)
}

/// The font of this name.
pub open spec fn font_named(name: Seq<char>) -> FontFile {
    if name == "outfit"@ {
        FontFile::Outfit
    } else if name == "mono"@ {
        FontFile::JetBrainsMono
    } else {
        FontFile::SpaceGrotesk
    }
}

/// The host of an internal address; without one it is the welcome page.
pub open spec fn page_host(u: UrlView) -> Seq<char> {
    match u.host {
        Some(h) => h,
        None => "welcome"@,
    }
}

/// What stands at an internal address.
pub open spec fn page_at(u: UrlView) -> InternalPage {
    let h = page_host(u);
    if h == "welcome"@ || h == "newtab"@ || h == "home"@ {
        InternalPage::Welcome
    } else if h == "why"@ {
        InternalPage::Why
    } else if h == "export"@ {
        if address::has_pair(u.pairs, "get"@, "all"@) {
            InternalPage::ExportFile
        } else {
            InternalPage::Export
        }
    } else if h == "history"@ {
        InternalPage::History
    } else if h == "about"@ {
        InternalPage::About
    } else if h == "downloads"@ {
        InternalPage::Downloads
    } else if h == "passwords"@ {
        InternalPage::Passwords(removal_of(u.pairs))
    } else if h == "extensions"@ || h == "addons"@ {
        InternalPage::Extensions(command_of(u.pairs))
    } else if h == "settings"@ {
        InternalPage::Settings(preferences::change_of(u.pairs))
    } else if h == "crash"@ {
        InternalPage::Crash(
            or_empty(last_value(u.pairs, "url"@)),
            or_empty(last_value(u.pairs, "reason"@)),
        )
    } else if h == "font"@ {
        InternalPage::Font(font_named(name_in_path(u.path)))
    } else if h == "favicon"@ {
        InternalPage::Favicon(name_in_path(u.path))
    } else {
        InternalPage::Unknown(h)
    }
}

fn path_name(path: &str) -> (r: String)
    ensures
        r@ == name_in_path(path@),
{
    proof {
        reveal_strlit("/");
    }
    text::trim_start_matches(path, "/")
}

/// What stands at an internal address.
pub fn internal_page(u: &UrlParts) -> (r: Page)
    ensures
        r@ == page_at(u@),
{
    let host: String = match &u.host {
        Some(h) => h.clone(),
        None => "welcome".to_owned(),
    };
    let h: &str = host.as_str();
    if text::same(h, "welcome") || text::same(h, "newtab") || text::same(h, "home") {
        Page::Welcome
    } else if text::same(h, "why") {
        Page::Why
    } else if text::same(h, "export") {
        if address::contains_pair(&u.pairs, "get", "all") {
            Page::ExportFile
        } else {
            Page::Export
        }
    } else if text::same(h, "history") {
        Page::History
    } else if text::same(h, "about") {
        Page::About
    } else if text::same(h, "downloads") {
        Page::Downloads
    } else if text::same(h, "passwords") {
        Page::Passwords(read_removal(&u.pairs))
    } else if text::same(h, "extensions") || text::same(h, "addons") {
        Page::Extensions(read_command(&u.pairs))
    } else if text::same(h, "settings") {
        Page::Settings(preferences::read_change(&u.pairs))
    } else if text::same(h, "crash") {
        Page::Crash(
            or_blank(find_last_value(&u.pairs, "url")),
            or_blank(find_last_value(&u.pairs, "reason")),
        )
    } else if text::same(h, "font") {
        let name: String = path_name(u.path.as_str());
        if text::same(name.as_str(), "outfit") {
            Page::Font(FontFile::Outfit)
        } else if text::same(name.as_str(), "mono") {
            Page::Font(FontFile::JetBrainsMono)
        } else {
            Page::Font(FontFile::SpaceGrotesk)
        }
    } else if text::same(h, "favicon") {
        Page::Favicon(path_name(u.path.as_str()))
    } else {
        Page::Unknown(host)
    }
}

/// The kind of content that an internal page is sent as.
pub open spec fn content_kind(p: InternalPage) -> Seq<char> {
    match p {
        InternalPage::ExportFile => "application/json; charset=utf-8"@,
        InternalPage::Font(f) => "font/ttf"@,
        InternalPage::Favicon(h) => "image/png"@,
        _ => "text/html; charset=utf-8"@,
    }
}

impl Page {
    /// The kind of content that this page is sent as.
    pub fn content_type(&self) -> (r: &'static str)
        ensures
            r@ == content_kind(self@),
    {
        match self {
            Page::ExportFile => "application/json; charset=utf-8",
            Page::Font(_) => "font/ttf",
            Page::Favicon(_) => "image/png",
            _ => "text/html; charset=utf-8",
        }
    }

    /// How a browser is told to keep this page as a file, where it is one to download.
    pub fn disposition(&self) -> (r: Option<&'static str>)
        ensures
            match r {
                Some(d) => self@ == InternalPage::ExportFile && d@
                    == "attachment; filename=\"navgator-export.json\""@,
                None => self@ != InternalPage::ExportFile,
            },
    {
        match self {
            Page::ExportFile => Some("attachment; filename=\"navgator-export.json\""),
            _ => None,
        }
    }
}

/// The page that says that there is no such page.
pub open spec fn unknown_page_text(host: Seq<char>) -> Seq<char> {
    "<!doctype html><meta charset=\"utf-8\"><body style=\"font-family:system-ui;background:#0e1014;color:#e8eaed;padding:48px\"><h1>gator://"@
        + codec::html(host)
        + "</h1><p>No such internal page. Try <a style=\"color:#5b8cff\" href=\"gator://welcome\">gator://welcome</a>.</p>"@
}

/// The page that says that there is no such page.
pub fn unknown_page(host: &str) -> (r: String)
    ensures
        r@ == unknown_page_text(host@),
{
    let mut out: String = "<!doctype html><meta charset=\"utf-8\"><body style=\"font-family:system-ui;background:#0e1014;color:#e8eaed;padding:48px\"><h1>gator://".to_owned();
    out.append(codec::html_escape(host).as_str());
    out.append(
        "</h1><p>No such internal page. Try <a style=\"color:#5b8cff\" href=\"gator://welcome\">gator://welcome</a>.</p>",
    );
    out
}

// ---------------------------------------------------------------------------
// Routing
// ---------------------------------------------------------------------------

/// Where a request goes. The bridge and the firewall come first, then the archive, which takes
/// every web request where there is one.
pub open spec fn routed(u: UrlView, archive: Option<Mode>) -> RouteView {
    if u.scheme == "navgator"@ && u.host == Some("gm"@) {
        RouteView::Bridge(u.path, u.pairs)
    } else if u.scheme == "navgator"@ && u.host == Some("credfw"@) {
        RouteView::Firewall(
            or_empty(last_value(u.pairs, "o"@)),
            or_empty(last_value(u.pairs, "h"@)),
        )
    } else if archive is Some && address::is_web_scheme(u.scheme) {
        RouteView::Archive(archive->0)
    } else if u.scheme == "gator"@ {
        RouteView::Internal(page_at(u))
    } else {
        RouteView::Network
    }
}

fn has_host(u: &UrlParts, name: &str) -> (r: bool)
    ensures
        r == (u@.host == Some(name@)),
{
    match &u.host {
        Some(h) => text::same(h.as_str(), name),
        None => false,
    }
}

/// Decides where a request goes, given the parts of its address.
pub fn route_parts(u: &UrlParts, archive: Option<Mode>) -> (r: Route)
    ensures
        r@ == routed(u@, archive),
{
    if text::same(u.scheme.as_str(), "navgator") {
        if has_host(u, "gm") {
            return Route::Bridge(u.path.clone(), address::copy_pairs(&u.pairs));
        }
        if has_host(u, "credfw") {
            return Route::Firewall(
                or_blank(find_last_value(&u.pairs, "o")),
                or_blank(find_last_value(&u.pairs, "h")),
            );
        }
    }
    match archive {
        Some(m) => {
            if address::web_scheme(u.scheme.as_str()) {
                return Route::Archive(m);
            }
        },
        None => {},
    }
    if text::same(u.scheme.as_str(), "gator") {
        Route::Internal(internal_page(u))
    } else {
        Route::Network
    }
}

/// Decides where a request goes; nothing where the address cannot be read.
pub fn load_web_resource(url: &str, archive: Option<Mode>) -> (r: Option<Route>)
    ensures
        match address::parsed_url(url@) {
            Some(u) => r matches Some(x) && x@ == routed(u, archive),
            None => r is None,
        },
{
    match address::parse_url(url) {
        Some(u) => Some(route_parts(&u, archive)),
        None => None,
    }
}

/// Where there is an archive, no web request goes to the network.
pub proof fn archived_requests_stay_off_the_network(u: UrlView, m: Mode)
    requires
        address::is_web_scheme(u.scheme),
    ensures
        routed(u, Some(m)) == RouteView::Archive(m),
{
    reveal_strlit("http");
    reveal_strlit("https");
    reveal_strlit("navgator");
    assert("navgator"@.len() != "http"@.len());
    assert("navgator"@.len() != "https"@.len());
}

/// A request for an internal address is answered by the browser itself, archive or not.
pub proof fn internal_requests_stay_inside(u: UrlView, archive: Option<Mode>)
    requires
        u.scheme == "gator"@,
    ensures
        routed(u, archive) == RouteView::Internal(page_at(u)),
{
    reveal_strlit("http");
    reveal_strlit("https");
    reveal_strlit("navgator");
    reveal_strlit("gator");
    assert("gator"@.len() != "navgator"@.len());
    assert("gator"@.len() != "http"@.len());
    assert("gator"@[0] != "https"@[0]);
}

// ---------------------------------------------------------------------------
// Navigation
// ---------------------------------------------------------------------------

/// What becomes of a navigation that a page asks for.
#[derive(Debug)]
pub enum Navigation {
    /// Refused.
    Deny,
    /// Refused; the address bar takes the focus.
    FocusOmnibox,
    /// Refused; this address is opened in the active tab.
    Open(String),
    /// Allowed, once the add-ons for this address are in place.
    AllowWithAddons(String),
    Allow,
}

/// `Navigation` as mathematical values.
#[verifier::ext_equal]
pub enum NavigationView {
    Deny,
    FocusOmnibox,
    Open(Seq<char>),
    AllowWithAddons(Seq<char>),
    Allow,
}

impl View for Navigation {
    type V = NavigationView;

    open spec fn view(&self) -> NavigationView {
        match self {
            Navigation::Deny => NavigationView::Deny,
            Navigation::FocusOmnibox => NavigationView::FocusOmnibox,
            Navigation::Open(s) => NavigationView::Open(s@),
            Navigation::AllowWithAddons(s) => NavigationView::AllowWithAddons(s@),
            Navigation::Allow => NavigationView::Allow,
        }
    }
}

/// The address that an entry in the address bar opens, in its normal form; none where the entry
/// is empty or makes no address.
pub open spec fn entry_address(raw: Seq<char>, template: Seq<char>) -> Option<Seq<char>> {
    if raw.len() == 0 {
        None
    } else {
        match address::parsed_url(address::entry_target(raw, template)) {
            Some(u) => Some(u.text),
            None => None,
        }
    }
}

/// The address that an entry in the address bar opens.
pub fn navigate_from_omnibox(raw: &str, search_template: &str) -> (r: Option<String>)
    ensures
        address::optional_text(r) == entry_address(raw@, search_template@),
{
    if raw.unicode_len() == 0 {
        return None;
    }
    let target: String = address::omnibox_target(raw, search_template);
    match address::parse_url(target.as_str()) {
        Some(u) => Some(u.text),
        None => None,
    }
}

/// What becomes of a navigation to `u` that a page at `from` asks for. The address bar's own
/// address searches or takes the focus; no web page reaches another internal page.
pub open spec fn navigation_of(
    u: UrlView,
    from: Option<Seq<char>>,
    template: Seq<char>,
) -> NavigationView {
    if u.scheme == "gator"@ && u.host == Some("omnibar"@) {
        match address::first_value(u.pairs, "q"@) {
            Some(q) => if text::trimmed(q).len() == 0 {
                NavigationView::FocusOmnibox
            } else {
                match entry_address(
                    address::entry_target(text::trimmed(q), template),
                    template,
                ) {
                    Some(a) => NavigationView::Open(a),
                    None => NavigationView::Deny,
                }
            },
            None => NavigationView::FocusOmnibox,
        }
    } else if u.scheme == "gator"@ && from is Some && reports::is_web_address(from->0) {
        NavigationView::Deny
    } else if address::is_web_scheme(u.scheme) {
        NavigationView::AllowWithAddons(u.text)
    } else {
        NavigationView::Allow
    }
}

/// Decides a navigation, given the parts of the address that is asked for.
pub fn navigate_parts(u: &UrlParts, from: Option<&str>, search_template: &str) -> (r: Navigation)
    ensures
        r@ == navigation_of(
            u@,
            match from {
                Some(f) => Some(f@),
                None => None,
            },
            search_template@,
        ),
{
    let internal: bool = text::same(u.scheme.as_str(), "gator");
    if internal && has_host(u, "omnibar") {
        return match address::find_value(&u.pairs, "q") {
            Some(q) => {
                let entry: String = text::trim(q.as_str());
                if entry.as_str().unicode_len() == 0 {
                    Navigation::FocusOmnibox
                } else {
                    let target: String = address::omnibox_target(entry.as_str(), search_template);
                    match navigate_from_omnibox(target.as_str(), search_template) {
                        Some(a) => Navigation::Open(a),
                        None => Navigation::Deny,
                    }
                }
            },
            None => Navigation::FocusOmnibox,
        };
    }
    if internal {
        match from {
            Some(f) => {
                if reports::web_address(f) {
                    return Navigation::Deny;
                }
            },
            None => {},
        }
    }
    if address::web_scheme(u.scheme.as_str()) {
        Navigation::AllowWithAddons(u.text.clone())
    } else {
        Navigation::Allow
    }
}

/// Decides a navigation that a page asks for; nothing where the address cannot be read.
pub fn request_navigation(url: &str, from: Option<&str>, search_template: &str) -> (r: Option<
    Navigation,
>)
    ensures
        match address::parsed_url(url@) {
            Some(u) => r matches Some(n) && n@ == navigation_of(
                u,
                match from {
                    Some(f) => Some(f@),
                    None => None,
                },
                search_template@,
            ),
            None => r is None,
        },
{
    match address::parse_url(url) {
        Some(u) => Some(navigate_parts(&u, from, search_template)),
        None => None,
    }
}

/// A web page never reaches an internal page by navigating, so none of their links can be
/// followed on its behalf.
pub proof fn web_pages_reach_no_internal_page(u: UrlView, from: Seq<char>, template: Seq<char>)
    requires
        u.scheme == "gator"@,
        reports::is_web_address(from),
    ensures
        !(navigation_of(u, Some(from), template) is Allow),
        !(navigation_of(u, Some(from), template) is AllowWithAddons),
{
}

// ---------------------------------------------------------------------------
// Laws
// ---------------------------------------------------------------------------

/// The value of a key is that of the last pair that has it.
pub proof fn the_last_value_counts(
    pairs: Seq<(Seq<char>, Seq<char>)>,
    key: Seq<char>,
    value: Seq<char>,
    other: Seq<char>,
)
    requires
        other != key,
    ensures
        last_value(pairs.push((key, value)), key) == Some(value),
        last_value(pairs.push((other, value)), key) == last_value(pairs, key),
        last_value(Seq::empty(), key) is None,
{
    assert(pairs.push((key, value)).drop_last() =~= pairs);
    assert(pairs.push((other, value)).drop_last() =~= pairs);
}

/// A link to the page of add-ons that names one command does that one, to the add-on that it names.
pub proof fn links_do_what_they_name(id: Seq<char>)
    ensures
        command_of(seq![("enable"@, id)]) == CommandView::Enable(id),
        command_of(seq![("disable"@, id)]) == CommandView::Disable(id),
        command_of(seq![("remove"@, id)]) == CommandView::Remove(id),
        command_of(Seq::empty()) == CommandView::Nothing,
{
    reveal_strlit("enable");
    reveal_strlit("disable");
    reveal_strlit("remove");
    let e: Seq<(Seq<char>, Seq<char>)> = Seq::empty();
    assert("enable"@[0] == 'e' && "disable"@[0] == 'd' && "remove"@[0] == 'r');
    the_last_value_counts(e, "enable"@, id, "disable"@);
    the_last_value_counts(e, "disable"@, id, "enable"@);
    the_last_value_counts(e, "remove"@, id, "enable"@);
    the_last_value_counts(e, "enable"@, id, "remove"@);
    the_last_value_counts(e, "disable"@, id, "remove"@);
    the_last_value_counts(e, "remove"@, id, "disable"@);
    assert(seq![("enable"@, id)] =~= e.push(("enable"@, id)));
    assert(seq![("disable"@, id)] =~= e.push(("disable"@, id)));
    assert(seq![("remove"@, id)] =~= e.push(("remove"@, id)));
    assert(last_value(e.push(("remove"@, id)), "enable"@) is None);
    assert(last_value(e.push(("remove"@, id)), "disable"@) is None);
    assert(last_value(e.push(("disable"@, id)), "enable"@) is None);
}

/// Each internal address has its page, and an unknown one says so.
pub proof fn internal_pages_have_their_addresses(u: UrlView)
    ensures
        u.host == Some("welcome"@) || u.host == Some("newtab"@) || u.host == Some("home"@) || u.host is None
            ==> page_at(u) == InternalPage::Welcome,
        u.host == Some("history"@) ==> page_at(u) == InternalPage::History,
        u.host == Some("downloads"@) ==> page_at(u) == InternalPage::Downloads,
        u.host == Some("about"@) ==> page_at(u) == InternalPage::About,
        u.host == Some("why"@) ==> page_at(u) == InternalPage::Why,
        u.host == Some("settings"@) ==> page_at(u) == InternalPage::Settings(
            preferences::change_of(u.pairs),
        ),
        u.host == Some("extensions"@) || u.host == Some("addons"@) ==> page_at(u)
            == InternalPage::Extensions(command_of(u.pairs)),
        u.host == Some("passwords"@) ==> page_at(u) == InternalPage::Passwords(removal_of(u.pairs)),
        u.host == Some("export"@) ==> (page_at(u) == InternalPage::ExportFile <==> u.pairs.contains(
            ("get"@, "all"@),
        )),
        u.host == Some("crash"@) ==> (page_at(u) matches InternalPage::Crash(a, r) && (last_value(
            u.pairs,
            "url"@,
        ) matches Some(x) ==> a == x) && (last_value(u.pairs, "reason"@) matches Some(y) ==> r == y)),
{
    reveal_strlit("welcome");
    reveal_strlit("newtab");
    reveal_strlit("home");
    reveal_strlit("history");
    reveal_strlit("downloads");
    reveal_strlit("about");
    reveal_strlit("why");
    reveal_strlit("settings");
    reveal_strlit("extensions");
    reveal_strlit("addons");
    reveal_strlit("passwords");
    reveal_strlit("export");
    reveal_strlit("crash");
    assert("welcome"@.len() == 7 && "newtab"@.len() == 6 && "home"@.len() == 4);
    assert("history"@.len() == 7 && "history"@[0] == 'h' && "welcome"@[0] == 'w');
    assert("downloads"@.len() == 9 && "downloads"@[0] == 'd' && "passwords"@[0] == 'p');
    assert("about"@.len() == 5 && "about"@[0] == 'a' && "crash"@[0] == 'c');
    assert("why"@.len() == 3 && "settings"@.len() == 8 && "extensions"@.len() == 10);
    assert("addons"@.len() == 6 && "addons"@[0] == 'a' && "newtab"@[0] == 'n' && "export"@[0] == 'e');
}

/// The bridge, the firewall and the internal pages each have their own addresses; a web request goes
/// to the network where there is no archive.
pub proof fn requests_find_their_way(u: UrlView)
    ensures
        u.scheme == "http"@ || u.scheme == "https"@ ==> routed(u, None) == RouteView::Network,
        u.scheme == "navgator"@ && u.host == Some("gm"@) ==> routed(u, None) == RouteView::Bridge(
            u.path,
            u.pairs,
        ),
        u.scheme == "navgator"@ && u.host == Some("credfw"@) ==> (routed(
            u,
            None,
        ) matches RouteView::Firewall(o, h) && (last_value(u.pairs, "o"@) matches Some(x) ==> o == x)
            && (last_value(u.pairs, "h"@) matches Some(y) ==> h == y)),
{
    reveal_strlit("http");
    reveal_strlit("https");
    reveal_strlit("navgator");
    reveal_strlit("gator");
    reveal_strlit("gm");
    reveal_strlit("credfw");
    assert("http"@.len() == 4 && "https"@.len() == 5 && "gator"@.len() == 5 && "navgator"@.len() == 8);
    assert("https"@[0] == 'h' && "gator"@[0] == 'g');
    assert("gm"@.len() == 2 && "credfw"@.len() == 6);
}

/// A navigation to a web page is allowed, with the add-ons of that very address, wherever it comes
/// from.
pub proof fn web_navigation_is_allowed(u: UrlView, from: Option<Seq<char>>, template: Seq<char>)
    requires
        u.scheme == "http"@ || u.scheme == "https"@,
    ensures
        navigation_of(u, from, template) == NavigationView::AllowWithAddons(u.text),
{
    reveal_strlit("http");
    reveal_strlit("https");
    reveal_strlit("gator");
    assert("http"@.len() == 4 && "https"@.len() == 5 && "gator"@.len() == 5);
    assert("https"@[0] == 'h' && "gator"@[0] == 'g');
}

/// An internal page is reached from an internal page, and from the address bar, where no page asks.
pub proof fn internal_pages_link_to_each_other(u: UrlView, from: Seq<char>, template: Seq<char>)
    requires
        u.scheme == "gator"@,
        u.host != Some("omnibar"@),
    ensures
        navigation_of(u, None, template) == NavigationView::Allow,
        !"http://"@.is_prefix_of(from) && !"https://"@.is_prefix_of(from) ==> navigation_of(
            u,
            Some(from),
            template,
        ) == NavigationView::Allow,
        "http://"@.is_prefix_of(from) || "https://"@.is_prefix_of(from) ==> navigation_of(
            u,
            Some(from),
            template,
        ) == NavigationView::Deny,
{
    reveal_strlit("http");
    reveal_strlit("https");
    reveal_strlit("gator");
    assert("http"@.len() == 4 && "https"@.len() == 5 && "gator"@.len() == 5);
    assert("https"@[0] == 'h' && "gator"@[0] == 'g');
}

/// An entry opens what it resolves to, in its normal form; an empty one opens nothing.
pub proof fn entries_open_their_target(raw: Seq<char>, template: Seq<char>)
    ensures
        entry_address(Seq::empty(), template) is None,
        raw.len() > 0 ==> (address::parsed_url(address::entry_target(raw, template)) matches Some(u)
            ==> entry_address(raw, template) == Some(u.text)),
        raw.len() > 0 && address::parsed_url(address::entry_target(raw, template)) is None
            ==> entry_address(raw, template) is None,
{
}

/// Each font has its own file, by its name; any other name stands for the one that the pages use most.
pub proof fn fonts_have_their_files(name: Seq<char>)
    ensures
        font_named("outfit"@) == FontFile::Outfit,
        font_named("mono"@) == FontFile::JetBrainsMono,
        name != "outfit"@ && name != "mono"@ ==> font_named(name) == FontFile::SpaceGrotesk,
{
    reveal_strlit("outfit");
    reveal_strlit("mono");
    assert("outfit"@[0] == 'o' && "mono"@[0] == 'm');
}

} // verus!

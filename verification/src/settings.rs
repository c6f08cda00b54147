//! The user's settings: how they are kept in a file, and how they change.

use vstd::prelude::*;
use vstd::string::*;

use crate::address;
use crate::codec;
use crate::codec::Rgb;
use crate::number;
use crate::text;

verus! {

/// Which parts of the new-tab page are shown.
#[derive(Clone, Copy, Debug, PartialEq, Eq, Structural)]
pub struct Modules {
    pub clock: bool,
    pub search: bool,
    pub sites: bool,
    pub notes: bool,
    pub feed: bool,
}

/// The look of the browser: each choice by the key it is kept under.
pub struct Theme {
    pub base: String,
    pub accent: String,
    pub density: String,
    pub font: String,
    pub tab_pos: String,
    pub wallpaper: String,
    pub tab_fit: String,
    /// Corner radius, at most 30.
    pub radius: u8,
    /// Translucency, at most 60.
    pub glass: u8,
    /// Greatest width of a tab, from 120 to 340.
    pub tab_max_w: u16,
}

/// `Theme` as mathematical values.
pub struct ThemeView {
    pub base: Seq<char>,
    pub accent: Seq<char>,
    pub density: Seq<char>,
    pub font: Seq<char>,
    pub tab_pos: Seq<char>,
    pub wallpaper: Seq<char>,
    pub tab_fit: Seq<char>,
    pub radius: u8,
    pub glass: u8,
    pub tab_max_w: u16,
}

impl View for Theme {
    type V = ThemeView;

    open spec fn view(&self) -> ThemeView {
        ThemeView {
            base: self.base@,
            accent: self.accent@,
            density: self.density@,
            font: self.font@,
            tab_pos: self.tab_pos@,
            wallpaper: self.wallpaper@,
            tab_fit: self.tab_fit@,
            radius: self.radius,
            glass: self.glass,
            tab_max_w: self.tab_max_w,
        }
    }
}

/// The keys that each choice of the look can have, and the colours that the looks come to.
pub struct Catalog {
    pub bases: Vec<String>,
    pub accents: Vec<String>,
    pub densities: Vec<String>,
    pub fonts: Vec<String>,
    pub wallpapers: Vec<String>,
    /// The tabs are in a row at the top, or in a column at the left.
    pub top: String,
    pub left: String,
    /// The tabs fill the row, or are as wide as their titles.
    pub fill: String,
    pub fit: String,
    /// The bases that are light.
    pub light_bases: Vec<String>,
    /// The accent colour of a look, by its base and its accent.
    pub colours: Vec<(String, String, Rgb)>,
    /// The accent colour of every other look.
    pub other_colour: Rgb,
}

/// `Catalog` as mathematical values.
pub struct CatalogView {
    pub bases: Seq<Seq<char>>,
    pub accents: Seq<Seq<char>>,
    pub densities: Seq<Seq<char>>,
    pub fonts: Seq<Seq<char>>,
    pub wallpapers: Seq<Seq<char>>,
    pub top: Seq<char>,
    pub left: Seq<char>,
    pub fill: Seq<char>,
    pub fit: Seq<char>,
    pub light_bases: Seq<Seq<char>>,
    pub colours: Seq<(Seq<char>, Seq<char>, Rgb)>,
    pub other_colour: Rgb,
}

/// The colours of looks as mathematical values.
pub open spec fn colour_views(v: Seq<(String, String, Rgb)>) -> Seq<(Seq<char>, Seq<char>, Rgb)> {
    Seq::new(v.len(), |i: int| (v[i].0@, v[i].1@, v[i].2))
}

impl View for Catalog {
    type V = CatalogView;

    open spec fn view(&self) -> CatalogView {
        CatalogView {
            bases: text::texts(self.bases@),
            accents: text::texts(self.accents@),
            densities: text::texts(self.densities@),
            fonts: text::texts(self.fonts@),
            wallpapers: text::texts(self.wallpapers@),
            top: self.top@,
            left: self.left@,
            fill: self.fill@,
            fit: self.fit@,
            light_bases: text::texts(self.light_bases@),
            colours: colour_views(self.colours@),
            other_colour: self.other_colour,
        }
    }
}

/// The user's settings.
pub struct Settings {
    /// The search address, with `%s` where the query goes.
    pub search: String,
    /// The accent colour, `#rrggbb`.
    pub accent: String,
    pub dark: bool,
    pub sync_api_key: String,
    pub sync_bookmarks: bool,
    pub sync_history: bool,
    pub sync_passwords: bool,
    /// Keep the passphrase in the system's keyring.
    pub remember_passphrase: bool,
    pub block_ads: bool,
    /// Darken web pages that have no dark look of their own.
    pub force_dark: bool,
    /// The new-tab page's picture, by its address; empty for none.
    pub wallpaper: String,
    pub theme: Theme,
    pub modules: Modules,
    /// The user has chosen the theme's base; until then it follows the system.
    pub theme_base_explicit: bool,
}

/// `Settings` as mathematical values.
#[verifier::ext_equal]
pub struct SettingsView {
    pub search: Seq<char>,
    pub accent: Seq<char>,
    pub dark: bool,
    pub sync_api_key: Seq<char>,
    pub sync_bookmarks: bool,
    pub sync_history: bool,
    pub sync_passwords: bool,
    pub remember_passphrase: bool,
    pub block_ads: bool,
    pub force_dark: bool,
    pub wallpaper: Seq<char>,
    pub theme: ThemeView,
    pub modules: Modules,
    pub theme_base_explicit: bool,
}

impl View for Settings {
    type V = SettingsView;

    open spec fn view(&self) -> SettingsView {
        SettingsView {
            search: self.search@,
            accent: self.accent@,
            dark: self.dark,
            sync_api_key: self.sync_api_key@,
            sync_bookmarks: self.sync_bookmarks,
            sync_history: self.sync_history,
            sync_passwords: self.sync_passwords,
            remember_passphrase: self.remember_passphrase,
            block_ads: self.block_ads,
            force_dark: self.force_dark,
            wallpaper: self.wallpaper@,
            theme: self.theme@,
            modules: self.modules,
            theme_base_explicit: self.theme_base_explicit,
        }
    }
}

/// The settings before anything is changed, with the given look.
pub open spec fn defaults(theme: ThemeView, modules: Modules) -> SettingsView {
    SettingsView {
        search: "https://duckduckgo.com/?q=%s"@,
        accent: "#5b8cff"@,
        dark: true,
        sync_api_key: Seq::empty(),
        sync_bookmarks: false,
        sync_history: false,
        sync_passwords: false,
        remember_passphrase: false,
        block_ads: true,
        force_dark: false,
        wallpaper: Seq::empty(),
        theme,
        modules,
        theme_base_explicit: false,
    }
}

// ---------------------------------------------------------------------------
// The colours of a look
// ---------------------------------------------------------------------------

/// The colour under a base and an accent, the first where there are several.
pub open spec fn colour_under(
    v: Seq<(Seq<char>, Seq<char>, Rgb)>,
    base: Seq<char>,
    accent: Seq<char>,
) -> Option<Rgb>
    decreases v.len(),
{
    if v.len() == 0 {
        None
    } else {
        match colour_under(v.drop_last(), base, accent) {
            Some(c) => Some(c),
            None => if v.last().0 == base && v.last().1 == accent {
                Some(v.last().2)
            } else {
                None
            },
        }
    }
}

/// The accent colour of a look.
pub open spec fn accent_of(c: CatalogView, t: ThemeView) -> Rgb {
    match colour_under(c.colours, t.base, t.accent) {
        Some(x) => x,
        None => c.other_colour,
    }
}

/// Is this base light?
pub open spec fn is_light(c: CatalogView, base: Seq<char>) -> bool {
    c.light_bases.contains(base)
}

/// The settings with the colours of the browser's own pages taken from the look.
pub open spec fn in_look(s: SettingsView, c: CatalogView) -> SettingsView {
    SettingsView {
        accent: codec::colour_text(accent_of(c, s.theme)),
        dark: !is_light(c, s.theme.base),
        ..s
    }
}

/// The browser's own pages are dark exactly where other pages are told that dark is preferred.
pub proof fn pages_follow_the_look(s: SettingsView, c: CatalogView)
    ensures
        in_look(s, c).dark == !is_light(c, in_look(s, c).theme.base),
{
}

impl Catalog {
    /// The accent colour of a look.
    pub fn accent_of(&self, t: &Theme) -> (r: Rgb)
        ensures
            r == accent_of(self@, t@),
    {
        let ghost all = colour_views(self.colours@);
        let mut i: usize = 0;
        while i < self.colours.len()
            invariant
                i <= self.colours@.len(),
                all == colour_views(self.colours@),
                colour_under(all.take(i as int), t.base@, t.accent@) is None,
            decreases self.colours@.len() - i,
        {
            assert(all.take(i + 1).drop_last() =~= all.take(i as int));
            assert(all.take(i + 1).last() == all[i as int]);
            if text::same(self.colours[i].0.as_str(), t.base.as_str()) && text::same(
                self.colours[i].1.as_str(),
                t.accent.as_str(),
            ) {
                proof {
                    lemma_first_colour(all, i + 1, t.base@, t.accent@);
                }
                return self.colours[i].2;
            }
            i = i + 1;
        }
        assert(all.take(self.colours@.len() as int) =~= all);
        self.other_colour
    }

    /// Is this base light?
    pub fn is_light(&self, base: &str) -> (r: bool)
        ensures
            r == is_light(self@, base@),
    {
        text::is_one_of(base, &self.light_bases)
    }
}

/// Are pages told that a dark look is preferred? They follow the look of the browser, so that a page
/// with a dark look of its own shows it where the browser is dark.
pub fn page_color_scheme(s: &Settings, c: &Catalog) -> (dark: bool)
    ensures
        dark == !is_light(c@, s@.theme.base),
{
    !c.is_light(s.theme.base.as_str())
}

proof fn lemma_first_colour(
    v: Seq<(Seq<char>, Seq<char>, Rgb)>,
    n: int,
    base: Seq<char>,
    accent: Seq<char>,
)
    requires
        0 <= n <= v.len(),
        colour_under(v.take(n), base, accent) is Some,
    ensures
        colour_under(v, base, accent) == colour_under(v.take(n), base, accent),
    decreases v.len() - n,
{
    if n < v.len() {
        assert(v.take(n + 1).drop_last() =~= v.take(n));
        lemma_first_colour(v, n + 1, base, accent);
    } else {
        assert(v.take(n) =~= v);
    }
}

impl Settings {
    /// Lets the colours of the browser's own pages follow the look.
    pub fn sync_legacy_theme(&mut self, c: &Catalog)
        ensures
            final(self)@ == in_look(old(self)@, c@),
            codec::is_css_hex(final(self).accent@),
    {
        let accent: Rgb = c.accent_of(&self.theme);
        self.accent = codec::color_hex(accent);
        self.dark = !c.is_light(self.theme.base.as_str());
        proof {
            codec::colour_round_trip(accent);
        }
    }
}

// ---------------------------------------------------------------------------
// The settings file
// ---------------------------------------------------------------------------

pub open spec fn at_most(n: nat, max: nat) -> nat {
    if n > max {
        max
    } else {
        n
    }
}

pub open spec fn within(n: nat, lo: nat, hi: nat) -> nat {
    if n < lo {
        lo
    } else if n > hi {
        hi
    } else {
        n
    }
}

/// The look with one key of the settings file read. A value that is none of the catalog's keys,
/// or no number, changes nothing; numbers are kept within their bounds.
#[verifier::opaque]
pub open spec fn with_theme_key(
    t: ThemeView,
    c: CatalogView,
    k: Seq<char>,
    v: Seq<char>,
) -> ThemeView {
    if k == "th_base"@ && c.bases.contains(v) {
        ThemeView { base: v, ..t }
    } else if k == "th_accent"@ && c.accents.contains(v) {
        ThemeView { accent: v, ..t }
    } else if k == "th_density"@ && c.densities.contains(v) {
        ThemeView { density: v, ..t }
    } else if k == "th_font"@ && c.fonts.contains(v) {
        ThemeView { font: v, ..t }
    } else if k == "th_tabpos"@ && (v == c.top || v == c.left) {
        ThemeView { tab_pos: v, ..t }
    } else if k == "th_wallpaper"@ && c.wallpapers.contains(v) {
        ThemeView { wallpaper: v, ..t }
    } else if k == "th_tabfit"@ && (v == c.fill || v == c.fit) {
        ThemeView { tab_fit: v, ..t }
    } else if k == "th_radius"@ {
        match number::read_unsigned(v, 255) {
            Some(n) => ThemeView { radius: at_most(n, 30) as u8, ..t },
            None => t,
        }
    } else if k == "th_glass"@ {
        match number::read_unsigned(v, 255) {
            Some(n) => ThemeView { glass: at_most(n, 60) as u8, ..t },
            None => t,
        }
    } else if k == "th_tabmaxw"@ {
        match number::read_unsigned(v, 65535) {
            Some(n) => ThemeView { tab_max_w: within(n, 120, 340) as u16, ..t },
            None => t,
        }
    } else {
        t
    }
}

/// The modules with one key of the settings file read.
#[verifier::opaque]
pub open spec fn with_module_key(m: Modules, k: Seq<char>, v: Seq<char>) -> Modules {
    let on = v == "true"@;
    if k == "mod_clock"@ {
        Modules { clock: on, ..m }
    } else if k == "mod_search"@ {
        Modules { search: on, ..m }
    } else if k == "mod_sites"@ {
        Modules { sites: on, ..m }
    } else if k == "mod_notes"@ {
        Modules { notes: on, ..m }
    } else if k == "mod_feed"@ {
        Modules { feed: on, ..m }
    } else {
        m
    }
}

/// The settings with one key of the settings file read. A colour that is none is not taken, and
/// an unknown key changes nothing.
#[verifier::opaque]
pub open spec fn with_key(
    s: SettingsView,
    c: CatalogView,
    k: Seq<char>,
    v: Seq<char>,
) -> SettingsView {
    let on = v == "true"@;
    if k == "search"@ {
        SettingsView { search: v, ..s }
    } else if k == "accent"@ {
        if codec::is_css_hex(v) {
            SettingsView { accent: v, ..s }
        } else {
            s
        }
    } else if k == "dark"@ {
        SettingsView { dark: on, ..s }
    } else if k == "sync_api_key"@ {
        SettingsView { sync_api_key: v, ..s }
    } else if k == "sync_bookmarks"@ {
        SettingsView { sync_bookmarks: on, ..s }
    } else if k == "sync_history"@ {
        SettingsView { sync_history: on, ..s }
    } else if k == "sync_passwords"@ {
        SettingsView { sync_passwords: on, ..s }
    } else if k == "remember_passphrase"@ {
        SettingsView { remember_passphrase: on, ..s }
    } else if k == "block_ads"@ {
        SettingsView { block_ads: on, ..s }
    } else if k == "force_dark"@ {
        SettingsView { force_dark: on, ..s }
    } else if k == "wallpaper"@ {
        SettingsView { wallpaper: v, ..s }
    } else if k == "th_base_explicit"@ {
        SettingsView { theme_base_explicit: on, ..s }
    } else {
        SettingsView {
            theme: with_theme_key(s.theme, c, k, v),
            modules: with_module_key(s.modules, k, v),
            ..s
        }
    }
}

/// A line `key=value` split at its first `=`, both sides trimmed.
pub open spec fn key_value(line: Seq<char>) -> Option<(Seq<char>, Seq<char>)> {
    let i = text::upto(line, '=') as int;
    if i == line.len() {
        None
    } else {
        Some((text::trimmed(line.take(i)), text::trimmed(line.skip(i + 1))))
    }
}

/// The settings with one line of the settings file read.
pub open spec fn with_line(s: SettingsView, c: CatalogView, line: Seq<char>) -> SettingsView {
    match key_value(line) {
        None => s,
        Some((k, v)) => with_key(s, c, k, v),
    }
}

/// The settings with some lines of the settings file read, the first one first.
pub open spec fn with_lines(
    s: SettingsView,
    c: CatalogView,
    lines: Seq<Seq<char>>,
) -> SettingsView
    decreases lines.len(),
{
    if lines.len() == 0 {
        s
    } else {
        with_line(with_lines(s, c, lines.drop_last()), c, lines.last())
    }
}

/// The settings that a settings file holds, beside those of the given look. Whatever the file says
/// of them, the page colours are those of the look.
pub open spec fn read_settings(
    file: Seq<char>,
    c: CatalogView,
    theme: ThemeView,
    modules: Modules,
) -> SettingsView {
    in_look(with_lines(defaults(theme, modules), c, text::lines_of(file)), c)
}

#[verifier::opaque]
pub open spec fn truth(b: bool) -> Seq<char> {
    if b {
        "true"@
    } else {
        "false"@
    }
}

/// The keys and values of the first plain settings, in the order of the file.
pub open spec fn general_entries(s: SettingsView) -> Seq<(Seq<char>, Seq<char>)> {
    seq![
        ("search"@, s.search),
        ("accent"@, s.accent),
        ("dark"@, truth(s.dark)),
        ("sync_api_key"@, s.sync_api_key),
        ("sync_bookmarks"@, truth(s.sync_bookmarks)),
        ("sync_history"@, truth(s.sync_history)),
    ]
}

/// The keys and values of the other plain settings.
pub open spec fn guard_entries(s: SettingsView) -> Seq<(Seq<char>, Seq<char>)> {
    seq![
        ("sync_passwords"@, truth(s.sync_passwords)),
        ("remember_passphrase"@, truth(s.remember_passphrase)),
        ("block_ads"@, truth(s.block_ads)),
        ("force_dark"@, truth(s.force_dark)),
        ("wallpaper"@, s.wallpaper),
    ]
}

/// The keys and values of the look's choices.
pub open spec fn choice_entries(s: SettingsView) -> Seq<(Seq<char>, Seq<char>)> {
    seq![
        ("th_base"@, s.theme.base),
        ("th_accent"@, s.theme.accent),
        ("th_density"@, s.theme.density),
        ("th_font"@, s.theme.font),
        ("th_tabpos"@, s.theme.tab_pos),
        ("th_wallpaper"@, s.theme.wallpaper),
        ("th_tabfit"@, s.theme.tab_fit),
    ]
}

/// The keys and values of the look's measures.
pub open spec fn measure_entries(s: SettingsView) -> Seq<(Seq<char>, Seq<char>)> {
    seq![
        ("th_radius"@, number::decimal(s.theme.radius as nat)),
        ("th_glass"@, number::decimal(s.theme.glass as nat)),
        ("th_tabmaxw"@, number::decimal(s.theme.tab_max_w as nat)),
        ("th_base_explicit"@, truth(s.theme_base_explicit)),
    ]
}

/// The keys and values of the new-tab page's parts.
pub open spec fn module_entries(s: SettingsView) -> Seq<(Seq<char>, Seq<char>)> {
    seq![
        ("mod_clock"@, truth(s.modules.clock)),
        ("mod_search"@, truth(s.modules.search)),
        ("mod_sites"@, truth(s.modules.sites)),
        ("mod_notes"@, truth(s.modules.notes)),
        ("mod_feed"@, truth(s.modules.feed)),
    ]
}

/// The keys and values of the settings file, in order.
pub open spec fn entries(s: SettingsView) -> Seq<(Seq<char>, Seq<char>)> {
    general_entries(s) + guard_entries(s) + choice_entries(s) + measure_entries(s) + module_entries(s)
}

/// Keys and values as lines `key=value`.
pub open spec fn entry_lines(e: Seq<(Seq<char>, Seq<char>)>) -> Seq<char>
    decreases e.len(),
{
    if e.len() == 0 {
        Seq::empty()
    } else {
        entry_lines(e.drop_last()) + e.last().0 + seq!['='] + e.last().1 + seq!['\n']
    }
}

/// The settings file.
pub open spec fn settings_text(s: SettingsView) -> Seq<char> {
    entry_lines(entries(s))
}

fn is_true(v: &str) -> (r: bool)
    ensures
        r == (v@ == "true"@),
{
    text::same(v, "true")
}

/// Splits a line `key=value` at its first `=` and trims both sides.
pub fn split_key_value(line: &str) -> (r: Option<(String, String)>)
    ensures
        match key_value(line@) {
            None => r is None,
            Some((k, v)) => r matches Some(p) && p.0@ == k && p.1@ == v,
        },
{
    let v: Vec<char> = text::chars_of(line);
    assert(v@.skip(0) =~= v@);
    let i: usize = text::find_from(&v, 0, '=');
    if i == v.len() {
        return None;
    }
    let k: String = text::string_between(&v, 0, i);
    let w: String = text::string_between(&v, i + 1, v.len());
    assert(k@ =~= line@.take(i as int));
    assert(w@ =~= line@.skip(i + 1));
    Some((text::trim(k.as_str()), text::trim(w.as_str())))
}

impl Theme {
    /// Reads one key of the settings file.
    fn read_key(&mut self, c: &Catalog, k: &str, v: &str)
        ensures
            final(self)@ == with_theme_key(old(self)@, c@, k@, v@),
    {
        reveal(with_theme_key);
        if text::same(k, "th_base") && text::is_one_of(v, &c.bases) {
            self.base = v.to_owned();
        } else if text::same(k, "th_accent") && text::is_one_of(v, &c.accents) {
            self.accent = v.to_owned();
        } else if text::same(k, "th_density") && text::is_one_of(v, &c.densities) {
            self.density = v.to_owned();
        } else if text::same(k, "th_font") && text::is_one_of(v, &c.fonts) {
            self.font = v.to_owned();
        } else if text::same(k, "th_tabpos") && (text::same(v, c.top.as_str()) || text::same(
            v,
            c.left.as_str(),
        )) {
            self.tab_pos = v.to_owned();
        } else if text::same(k, "th_wallpaper") && text::is_one_of(v, &c.wallpapers) {
            self.wallpaper = v.to_owned();
        } else if text::same(k, "th_tabfit") && (text::same(v, c.fill.as_str()) || text::same(
            v,
            c.fit.as_str(),
        )) {
            self.tab_fit = v.to_owned();
        } else if text::same(k, "th_radius") {
            match number::parse_unsigned(v, 255) {
                Some(n) => {
                    self.radius = if n > 30 {
                        30
                    } else {
                        n as u8
                    };
                },
                None => {},
            }
        } else if text::same(k, "th_glass") {
            match number::parse_unsigned(v, 255) {
                Some(n) => {
                    self.glass = if n > 60 {
                        60
                    } else {
                        n as u8
                    };
                },
                None => {},
            }
        } else if text::same(k, "th_tabmaxw") {
            match number::parse_unsigned(v, 65535) {
                Some(n) => {
                    self.tab_max_w = if n < 120 {
                        120
                    } else if n > 340 {
                        340
                    } else {
                        n as u16
                    };
                },
                None => {},
            }
        }
    }
}

impl Modules {
    /// Reads one key of the settings file.
    fn read_key(&mut self, k: &str, v: &str)
        ensures
            *final(self) == with_module_key(*old(self), k@, v@),
    {
        reveal(with_module_key);
        let on: bool = is_true(v);
        if text::same(k, "mod_clock") {
            self.clock = on;
        } else if text::same(k, "mod_search") {
            self.search = on;
        } else if text::same(k, "mod_sites") {
            self.sites = on;
        } else if text::same(k, "mod_notes") {
            self.notes = on;
        } else if text::same(k, "mod_feed") {
            self.feed = on;
        }
    }
}

impl Settings {
    /// The settings before anything is changed, with the given look.
    pub fn with_look(theme: Theme, modules: Modules) -> (r: Settings)
        ensures
            r@ == defaults(theme@, modules),
    {
        let r: Settings = Settings {
            search: "https://duckduckgo.com/?q=%s".to_owned(),
            accent: "#5b8cff".to_owned(),
            dark: true,
            sync_api_key: String::new(),
            sync_bookmarks: false,
            sync_history: false,
            sync_passwords: false,
            remember_passphrase: false,
            block_ads: true,
            force_dark: false,
            wallpaper: String::new(),
            theme,
            modules,
            theme_base_explicit: false,
        };
        assert(r.sync_api_key@ =~= Seq::<char>::empty());
        assert(r.wallpaper@ =~= Seq::<char>::empty());
        r
    }

    /// Reads one key of the settings file.
    fn read_key(&mut self, c: &Catalog, k: &str, v: &str)
        ensures
            final(self)@ == with_key(old(self)@, c@, k@, v@),
    {
        reveal(with_key);
        let on: bool = is_true(v);
        if text::same(k, "search") {
            self.search = v.to_owned();
        } else if text::same(k, "accent") {
            if codec::is_hex_color(v) {
                self.accent = v.to_owned();
            }
        } else if text::same(k, "dark") {
            self.dark = on;
        } else if text::same(k, "sync_api_key") {
            self.sync_api_key = v.to_owned();
        } else if text::same(k, "sync_bookmarks") {
            self.sync_bookmarks = on;
        } else if text::same(k, "sync_history") {
            self.sync_history = on;
        } else if text::same(k, "sync_passwords") {
            self.sync_passwords = on;
        } else if text::same(k, "remember_passphrase") {
            self.remember_passphrase = on;
        } else if text::same(k, "block_ads") {
            self.block_ads = on;
        } else if text::same(k, "force_dark") {
            self.force_dark = on;
        } else if text::same(k, "wallpaper") {
            self.wallpaper = v.to_owned();
        } else if text::same(k, "th_base_explicit") {
            self.theme_base_explicit = on;
        } else {
            self.theme.read_key(c, k, v);
            self.modules.read_key(k, v);
        }
    }
}

/// Reads a settings file. Without one, and for every key that it does not hold, the settings are
/// the defaults with the given look. The page colours are always those of the look.
pub fn load_settings(file: Option<&str>, c: &Catalog, theme: Theme, modules: Modules) -> (r: Settings)
    ensures
        r@ == match file {
            Some(f) => read_settings(f@, c@, theme@, modules),
            None => in_look(defaults(theme@, modules), c@),
        },
        r.dark == !is_light(c@, r@.theme.base),
        r.accent@ == codec::colour_text(accent_of(c@, r@.theme)),
        codec::is_css_hex(r.accent@),
{
    let mut s: Settings = Settings::with_look(theme, modules);
    let f: &str = match file {
        None => {
            s.sync_legacy_theme(c);
            return s;
        },
        Some(f) => f,
    };
    let lines: Vec<String> = text::lines(f);
    let ghost all = text::texts(lines@);
    let ghost start = s@;
    let mut i: usize = 0;
    while i < lines.len()
        invariant
            i <= lines@.len(),
            all == text::texts(lines@),
            s@ == with_lines(start, c@, all.take(i as int)),
        decreases lines@.len() - i,
    {
        assert(all.take(i + 1).drop_last() =~= all.take(i as int));
        assert(all.take(i + 1).last() == lines@[i as int]@);
        match split_key_value(lines[i].as_str()) {
            None => {},
            Some(p) => {
                s.read_key(c, p.0.as_str(), p.1.as_str());
            },
        }
        i = i + 1;
    }
    assert(all.take(lines@.len() as int) =~= all);
    s.sync_legacy_theme(c);
    s
}

fn entry(k: &str, v: &str) -> (r: (String, String))
    ensures
        (r.0@, r.1@) == (k@, v@),
{
    (k.to_owned(), v.to_owned())
}

/// Writes keys and values as lines `key=value`.
fn write_entries(e: &Vec<(String, String)>) -> (r: String)
    ensures
        r@ == entry_lines(address::pair_texts(e@)),
{
    let mut out: String = String::new();
    let ghost all = address::pair_texts(e@);
    let mut i: usize = 0;
    while i < e.len()
        invariant
            i <= e@.len(),
            all == address::pair_texts(e@),
            out@ == entry_lines(all.take(i as int)),
        decreases e@.len() - i,
    {
        let ghost before = out@;
        assert(all.take(i + 1).drop_last() =~= all.take(i as int));
        out.append(e[i].0.as_str());
        out.push('=');
        out.append(e[i].1.as_str());
        out.push('\n');
        assert(out@ =~= before + all[i as int].0 + seq!['='] + all[i as int].1 + seq!['\n']);
        i = i + 1;
    }
    assert(all.take(e@.len() as int) =~= all);
    out
}

fn truth_text(b: bool) -> (r: &'static str)
    ensures
        r@ == truth(b),
{
    reveal(truth);
    if b {
        "true"
    } else {
        "false"
    }
}

fn general_list(s: &Settings) -> (r: Vec<(String, String)>)
    ensures
        address::pair_texts(r@) == general_entries(s@),
{
    let e: Vec<(String, String)> = vec![
        entry("search", s.search.as_str()),
        entry("accent", s.accent.as_str()),
        entry("dark", truth_text(s.dark)),
        entry("sync_api_key", s.sync_api_key.as_str()),
        entry("sync_bookmarks", truth_text(s.sync_bookmarks)),
        entry("sync_history", truth_text(s.sync_history)),
    ];
    assert(address::pair_texts(e@) =~= general_entries(s@));
    e
}

fn guard_list(s: &Settings) -> (r: Vec<(String, String)>)
    ensures
        address::pair_texts(r@) == guard_entries(s@),
{
    let e: Vec<(String, String)> = vec![
        entry("sync_passwords", truth_text(s.sync_passwords)),
        entry("remember_passphrase", truth_text(s.remember_passphrase)),
        entry("block_ads", truth_text(s.block_ads)),
        entry("force_dark", truth_text(s.force_dark)),
        entry("wallpaper", s.wallpaper.as_str()),
    ];
    assert(address::pair_texts(e@) =~= guard_entries(s@));
    e
}

fn choice_list(s: &Settings) -> (r: Vec<(String, String)>)
    ensures
        address::pair_texts(r@) == choice_entries(s@),
{
    let e: Vec<(String, String)> = vec![
        entry("th_base", s.theme.base.as_str()),
        entry("th_accent", s.theme.accent.as_str()),
        entry("th_density", s.theme.density.as_str()),
        entry("th_font", s.theme.font.as_str()),
        entry("th_tabpos", s.theme.tab_pos.as_str()),
        entry("th_wallpaper", s.theme.wallpaper.as_str()),
        entry("th_tabfit", s.theme.tab_fit.as_str()),
    ];
    assert(address::pair_texts(e@) =~= choice_entries(s@));
    e
}

fn measure_list(s: &Settings) -> (r: Vec<(String, String)>)
    ensures
        address::pair_texts(r@) == measure_entries(s@),
{
    let e: Vec<(String, String)> = vec![
        entry("th_radius", number::decimal_string(s.theme.radius as u64).as_str()),
        entry("th_glass", number::decimal_string(s.theme.glass as u64).as_str()),
        entry("th_tabmaxw", number::decimal_string(s.theme.tab_max_w as u64).as_str()),
        entry("th_base_explicit", truth_text(s.theme_base_explicit)),
    ];
    assert(address::pair_texts(e@) =~= measure_entries(s@));
    e
}

fn module_list(s: &Settings) -> (r: Vec<(String, String)>)
    ensures
        address::pair_texts(r@) == module_entries(s@),
{
    let e: Vec<(String, String)> = vec![
        entry("mod_clock", truth_text(s.modules.clock)),
        entry("mod_search", truth_text(s.modules.search)),
        entry("mod_sites", truth_text(s.modules.sites)),
        entry("mod_notes", truth_text(s.modules.notes)),
        entry("mod_feed", truth_text(s.modules.feed)),
    ];
    assert(address::pair_texts(e@) =~= module_entries(s@));
    e
}

/// Writes the settings file.
pub fn save_settings(s: &Settings) -> (r: String)
    ensures
        r@ == settings_text(s@),
{
    let mut e: Vec<(String, String)> = general_list(s);
    let mut guards: Vec<(String, String)> = guard_list(s);
    let mut choices: Vec<(String, String)> = choice_list(s);
    let mut measures: Vec<(String, String)> = measure_list(s);
    let mut modules: Vec<(String, String)> = module_list(s);
    let ghost a = e@;
    let ghost g = guards@;
    let ghost b = choices@;
    let ghost c = measures@;
    let ghost d = modules@;
    e.append(&mut guards);
    e.append(&mut choices);
    e.append(&mut measures);
    e.append(&mut modules);
    assert(address::pair_texts(e@) =~= address::pair_texts(a) + address::pair_texts(g)
        + address::pair_texts(b)
        + address::pair_texts(c) + address::pair_texts(d));
    write_entries(&e)
}

// ---------------------------------------------------------------------------
// Laws
// ---------------------------------------------------------------------------

/// Each line of the settings file sets the setting that it names, and no other: a switch is on where
/// it says `true`.
pub proof fn lines_set_what_they_name(s: SettingsView, c: CatalogView, v: Seq<char>)
    ensures
        with_key(s, c, "dark"@, v) == (SettingsView { dark: v == "true"@, ..s }),
        with_key(s, c, "sync_bookmarks"@, v) == (SettingsView { sync_bookmarks: v == "true"@, ..s }),
        with_key(s, c, "sync_history"@, v) == (SettingsView { sync_history: v == "true"@, ..s }),
        with_key(s, c, "sync_passwords"@, v) == (SettingsView { sync_passwords: v == "true"@, ..s }),
        with_key(s, c, "remember_passphrase"@, v) == (SettingsView { remember_passphrase: v == "true"@, ..s }),
        with_key(s, c, "block_ads"@, v) == (SettingsView { block_ads: v == "true"@, ..s }),
        with_key(s, c, "force_dark"@, v) == (SettingsView { force_dark: v == "true"@, ..s }),
        with_key(s, c, "th_base_explicit"@, v) == (SettingsView { theme_base_explicit: v == "true"@, ..s }),
        with_key(s, c, "search"@, v) == (SettingsView { search: v, ..s }),
        with_key(s, c, "sync_api_key"@, v) == (SettingsView { sync_api_key: v, ..s }),
        with_key(s, c, "wallpaper"@, v) == (SettingsView { wallpaper: v, ..s }),
{
    reveal(with_key);
    reveal_strlit("search");
    reveal_strlit("accent");
    reveal_strlit("dark");
    reveal_strlit("sync_api_key");
    reveal_strlit("sync_bookmarks");
    reveal_strlit("sync_history");
    reveal_strlit("sync_passwords");
    reveal_strlit("remember_passphrase");
    reveal_strlit("block_ads");
    reveal_strlit("force_dark");
    reveal_strlit("wallpaper");
    reveal_strlit("th_base_explicit");
    assert("search"@.len() == 6 && "search"@[0] == 's');
    assert("accent"@.len() == 6 && "accent"@[0] == 'a');
    assert("dark"@.len() == 4 && "dark"@[0] == 'd');
    assert("sync_api_key"@.len() == 12 && "sync_api_key"@[0] == 's');
    assert("sync_bookmarks"@.len() == 14 && "sync_bookmarks"@[0] == 's');
    assert("sync_history"@.len() == 12 && "sync_history"@[0] == 's');
    assert("sync_passwords"@.len() == 14 && "sync_passwords"@[0] == 's');
    assert("remember_passphrase"@.len() == 19 && "remember_passphrase"@[0] == 'r');
    assert("block_ads"@.len() == 9 && "block_ads"@[0] == 'b');
    assert("force_dark"@.len() == 10 && "force_dark"@[0] == 'f');
    assert("wallpaper"@.len() == 9 && "wallpaper"@[0] == 'w');
    assert("th_base_explicit"@.len() == 16 && "th_base_explicit"@[0] == 't');
    assert("sync_bookmarks"@[5] == 'b' && "sync_passwords"@[5] == 'p');
    assert("sync_api_key"@[5] == 'a' && "sync_history"@[5] == 'h');
}

/// Each line of the look sets the choice that it names, where the catalog has the value.
pub proof fn look_lines_set_what_they_name(t: ThemeView, c: CatalogView, v: Seq<char>)
    ensures
        with_theme_key(t, c, "th_base"@, v) == if c.bases.contains(v) {
            ThemeView { base: v, ..t }
        } else {
            t
        },
        with_theme_key(t, c, "th_accent"@, v) == if c.accents.contains(v) {
            ThemeView { accent: v, ..t }
        } else {
            t
        },
        with_theme_key(t, c, "th_density"@, v) == if c.densities.contains(v) {
            ThemeView { density: v, ..t }
        } else {
            t
        },
        with_theme_key(t, c, "th_font"@, v) == if c.fonts.contains(v) {
            ThemeView { font: v, ..t }
        } else {
            t
        },
        with_theme_key(t, c, "th_wallpaper"@, v) == if c.wallpapers.contains(v) {
            ThemeView { wallpaper: v, ..t }
        } else {
            t
        },
        with_theme_key(t, c, "th_tabpos"@, v) == if v == c.top || v == c.left {
            ThemeView { tab_pos: v, ..t }
        } else {
            t
        },
        with_theme_key(t, c, "th_tabfit"@, v) == if v == c.fill || v == c.fit {
            ThemeView { tab_fit: v, ..t }
        } else {
            t
        },
{
    reveal(with_theme_key);
    reveal_strlit("th_base");
    reveal_strlit("th_accent");
    reveal_strlit("th_density");
    reveal_strlit("th_font");
    reveal_strlit("th_tabpos");
    reveal_strlit("th_wallpaper");
    reveal_strlit("th_tabfit");
    reveal_strlit("th_radius");
    reveal_strlit("th_glass");
    reveal_strlit("th_tabmaxw");
    assert("th_base"@.len() == 7 && "th_base"@[3] == 'b');
    assert("th_accent"@.len() == 9 && "th_accent"@[3] == 'a');
    assert("th_density"@.len() == 10 && "th_density"@[3] == 'd');
    assert("th_font"@.len() == 7 && "th_font"@[3] == 'f');
    assert("th_tabpos"@.len() == 9 && "th_tabpos"@[3] == 't');
    assert("th_wallpaper"@.len() == 12 && "th_wallpaper"@[3] == 'w');
    assert("th_tabfit"@.len() == 9 && "th_tabfit"@[3] == 't');
    assert("th_radius"@.len() == 9 && "th_radius"@[3] == 'r');
    assert("th_glass"@.len() == 8 && "th_glass"@[3] == 'g');
    assert("th_tabmaxw"@.len() == 10 && "th_tabmaxw"@[3] == 't');
    assert("th_tabpos"@[6] == 'p' && "th_tabfit"@[6] == 'f');
}

/// The browser's own pages are light exactly where the look's base is one of the light ones, and
/// their accent is the one that the catalog gives for the base and the accent of the look.
pub proof fn page_colours_come_from_the_look(s: SettingsView, c: CatalogView, i: int)
    ensures
        in_look(s, c).dark <==> !c.light_bases.contains(s.theme.base),
        0 <= i < c.colours.len() && c.colours[i].0 == s.theme.base && c.colours[i].1 == s.theme.accent
            && (forall|j: int|
            0 <= j < i ==> !((#[trigger] c.colours[j]).0 == s.theme.base && c.colours[j].1
                == s.theme.accent)) ==> in_look(s, c).accent == codec::colour_text(c.colours[i].2),
        (forall|j: int|
            0 <= j < c.colours.len() ==> !((#[trigger] c.colours[j]).0 == s.theme.base
                && c.colours[j].1 == s.theme.accent)) ==> in_look(s, c).accent == codec::colour_text(
            c.other_colour,
        ),
        in_look(s, c).theme == s.theme && in_look(s, c).search == s.search && in_look(s, c).block_ads
            == s.block_ads,
{
    lemma_found_colour(c.colours, s.theme.base, s.theme.accent);
}

proof fn lemma_found_colour(
    v: Seq<(Seq<char>, Seq<char>, Rgb)>,
    base: Seq<char>,
    accent: Seq<char>,
)
    ensures
        forall|i: int|
            0 <= i < v.len() && (#[trigger] v[i]).0 == base && v[i].1 == accent && (forall|j: int|
                0 <= j < i ==> !((#[trigger] v[j]).0 == base && v[j].1 == accent)) ==> colour_under(
                v,
                base,
                accent,
            ) == Some(v[i].2),
        (forall|j: int| 0 <= j < v.len() ==> !((#[trigger] v[j]).0 == base && v[j].1 == accent))
            ==> colour_under(v, base, accent) is None,
    decreases v.len(),
{
    if v.len() > 0 {
        let d = v.drop_last();
        lemma_found_colour(d, base, accent);
        assert(forall|j: int| 0 <= j < d.len() ==> #[trigger] d[j] == v[j]);
        assert forall|i: int|
            0 <= i < v.len() && (#[trigger] v[i]).0 == base && v[i].1 == accent && (forall|j: int|
                0 <= j < i ==> !((#[trigger] v[j]).0 == base && v[j].1 == accent)) implies colour_under(
            v,
            base,
            accent,
        ) == Some(v[i].2) by {
            assert forall|j: int| 0 <= j < i && j < d.len() implies !((#[trigger] d[j]).0 == base
                && d[j].1 == accent) by {
                assert(d[j] == v[j]);
            }
            if i < d.len() {
                assert(d[i] == v[i]);
            }
        }
    }
}

/// Before anything is changed requests are filtered, nothing is synced, and no passphrase is kept.
pub proof fn the_defaults_are_careful(theme: ThemeView, modules: Modules)
    ensures
        defaults(theme, modules).block_ads,
        !defaults(theme, modules).sync_bookmarks && !defaults(theme, modules).sync_history && !defaults(
            theme,
            modules,
        ).sync_passwords,
        !defaults(theme, modules).remember_passphrase,
        defaults(theme, modules).sync_api_key.len() == 0,
        !defaults(theme, modules).theme_base_explicit,
        defaults(theme, modules).theme == theme && defaults(theme, modules).modules == modules,
{
}

} // verus!

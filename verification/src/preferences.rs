//! Changes of the settings: those that a link on the settings page asks for, and those of the
//! command palette.

use vstd::prelude::*;
use vstd::string::*;

use crate::address;
use crate::codec;
use crate::number;
use crate::settings;
use crate::settings::{Catalog, CatalogView, Modules, Settings, SettingsView, Theme, ThemeView};
use crate::text;

verus! {

/// The search engines on offer, each with its search address; the first is the default.
pub open spec fn search_engines() -> Seq<(Seq<char>, Seq<char>)> {
    seq![
        ("DuckDuckGo"@, "https://duckduckgo.com/?q=%s"@),
        ("Kagi"@, "https://kagi.com/search?q=%s"@),
        ("Bing"@, "https://www.bing.com/search?q=%s"@),
        ("Google"@, "https://www.google.com/search?q=%s"@),
    ]
}

/// The ready-made colours: name, accent and whether dark.
pub open spec fn colour_presets() -> Seq<(Seq<char>, Seq<char>, bool)> {
    seq![
        ("Midnight"@, "#5b8cff"@, true),
        ("Synthwave"@, "#ff4fd8"@, true),
        ("Forest"@, "#3ecf8e"@, true),
        ("Ember"@, "#ff7a45"@, true),
        ("Grape"@, "#a875ff"@, true),
        ("Slate"@, "#8b95a7"@, true),
        ("Daylight"@, "#2f6bff"@, false),
    ]
}

/// A search engine by its number.
pub fn search_engine(i: usize) -> (r: Option<(&'static str, &'static str)>)
    ensures
        match r {
            Some(e) => i < search_engines().len() && (e.0@, e.1@) == search_engines()[i as int],
            None => i >= search_engines().len(),
        },
{
    if i == 0 {
        Some(("DuckDuckGo", "https://duckduckgo.com/?q=%s"))
    } else if i == 1 {
        Some(("Kagi", "https://kagi.com/search?q=%s"))
    } else if i == 2 {
        Some(("Bing", "https://www.bing.com/search?q=%s"))
    } else if i == 3 {
        Some(("Google", "https://www.google.com/search?q=%s"))
    } else {
        None
    }
}

/// A ready-made colour by its number: its accent and whether it is dark.
pub fn colour_preset(i: usize) -> (r: Option<(&'static str, bool)>)
    ensures
        match r {
            Some(e) => i < colour_presets().len() && e.0@ == colour_presets()[i as int].1 && e.1
                == colour_presets()[i as int].2,
            None => i >= colour_presets().len(),
        },
{
    if i == 0 {
        Some(("#5b8cff", true))
    } else if i == 1 {
        Some(("#ff4fd8", true))
    } else if i == 2 {
        Some(("#3ecf8e", true))
    } else if i == 3 {
        Some(("#ff7a45", true))
    } else if i == 4 {
        Some(("#a875ff", true))
    } else if i == 5 {
        Some(("#8b95a7", true))
    } else if i == 6 {
        Some(("#2f6bff", false))
    } else {
        None
    }
}

/// One change that a link on the settings page asks for.
#[derive(Debug)]
pub enum SettingsApply {
    Nothing,
    Engine(usize),
    Search(String),
    Theme(usize),
    Accent(String),
    Dark(bool),
    BlockAds(bool),
    SyncBookmarks(bool),
    SyncHistory(bool),
    SyncPasswords(bool),
    /// A change of the look: what is to change, and to what.
    ThemeSet(String, String),
    /// Something to do rather than to set.
    Action(String),
}

/// `SettingsApply` as mathematical values.
pub enum ChangeView {
    Nothing,
    Engine(usize),
    Search(Seq<char>),
    Theme(usize),
    Accent(Seq<char>),
    Dark(bool),
    BlockAds(bool),
    SyncBookmarks(bool),
    SyncHistory(bool),
    SyncPasswords(bool),
    ThemeSet(Seq<char>, Seq<char>),
    Action(Seq<char>),
}

impl View for SettingsApply {
    type V = ChangeView;

    open spec fn view(&self) -> ChangeView {
        match self {
            SettingsApply::Nothing => ChangeView::Nothing,
            SettingsApply::Engine(i) => ChangeView::Engine(*i),
            SettingsApply::Search(s) => ChangeView::Search(s@),
            SettingsApply::Theme(i) => ChangeView::Theme(*i),
            SettingsApply::Accent(s) => ChangeView::Accent(s@),
            SettingsApply::Dark(b) => ChangeView::Dark(*b),
            SettingsApply::BlockAds(b) => ChangeView::BlockAds(*b),
            SettingsApply::SyncBookmarks(b) => ChangeView::SyncBookmarks(*b),
            SettingsApply::SyncHistory(b) => ChangeView::SyncHistory(*b),
            SettingsApply::SyncPasswords(b) => ChangeView::SyncPasswords(*b),
            SettingsApply::ThemeSet(k, v) => ChangeView::ThemeSet(k@, v@),
            SettingsApply::Action(s) => ChangeView::Action(s@),
        }
    }
}

// ---------------------------------------------------------------------------
// Reading a change from a link
// ---------------------------------------------------------------------------

/// A key under which the look is changed.
pub open spec fn is_look_key(k: Seq<char>) -> bool {
    ||| k == "base"@
    ||| k == "accentk"@
    ||| k == "density"@
    ||| k == "font"@
    ||| k == "tabpos"@
    ||| k == "tabfit"@
    ||| k == "wallpaper"@
    ||| k == "preset"@
    ||| k == "radius"@
    ||| k == "glass"@
    ||| k == "tabmaxw"@
    ||| k == "module"@
}

/// The change that one pair of a link asks for; an unknown key leaves the change before it.
pub open spec fn change_with(before: ChangeView, k: Seq<char>, v: Seq<char>) -> ChangeView {
    let on = v == "on"@;
    if k == "engine"@ {
        match number::read_unsigned(v, usize::MAX as nat) {
            Some(n) => ChangeView::Engine(n as usize),
            None => ChangeView::Nothing,
        }
    } else if k == "search"@ {
        ChangeView::Search(v)
    } else if k == "theme"@ {
        match number::read_unsigned(v, usize::MAX as nat) {
            Some(n) => ChangeView::Theme(n as usize),
            None => ChangeView::Nothing,
        }
    } else if k == "accent"@ {
        ChangeView::Accent(v)
    } else if k == "dark"@ {
        ChangeView::Dark(on)
    } else if k == "block_ads"@ {
        ChangeView::BlockAds(on)
    } else if k == "sync_bookmarks"@ {
        ChangeView::SyncBookmarks(on)
    } else if k == "sync_history"@ {
        ChangeView::SyncHistory(on)
    } else if k == "sync_passwords"@ {
        ChangeView::SyncPasswords(on)
    } else if k == "action"@ {
        ChangeView::Action(v)
    } else if is_look_key(k) {
        ChangeView::ThemeSet(k, v)
    } else {
        before
    }
}

/// The change that a link asks for: that of its last pair with a known key.
pub open spec fn change_of(pairs: Seq<(Seq<char>, Seq<char>)>) -> ChangeView
    decreases pairs.len(),
{
    if pairs.len() == 0 {
        ChangeView::Nothing
    } else {
        change_with(change_of(pairs.drop_last()), pairs.last().0, pairs.last().1)
    }
}

fn look_key(k: &str) -> (r: bool)
    ensures
        r == is_look_key(k@),
{
    text::same(k, "base") || text::same(k, "accentk") || text::same(k, "density") || text::same(
        k,
        "font",
    ) || text::same(k, "tabpos") || text::same(k, "tabfit") || text::same(k, "wallpaper")
        || text::same(k, "preset") || text::same(k, "radius") || text::same(k, "glass")
        || text::same(k, "tabmaxw") || text::same(k, "module")
}

fn read_pair(before: SettingsApply, k: &str, v: &str) -> (r: SettingsApply)
    ensures
        r@ == change_with(before@, k@, v@),
{
    let on: bool = text::same(v, "on");
    if text::same(k, "engine") {
        match number::parse_unsigned(v, usize::MAX as u64) {
            Some(n) => SettingsApply::Engine(n as usize),
            None => SettingsApply::Nothing,
        }
    } else if text::same(k, "search") {
        SettingsApply::Search(v.to_owned())
    } else if text::same(k, "theme") {
        match number::parse_unsigned(v, usize::MAX as u64) {
            Some(n) => SettingsApply::Theme(n as usize),
            None => SettingsApply::Nothing,
        }
    } else if text::same(k, "accent") {
        SettingsApply::Accent(v.to_owned())
    } else if text::same(k, "dark") {
        SettingsApply::Dark(on)
    } else if text::same(k, "block_ads") {
        SettingsApply::BlockAds(on)
    } else if text::same(k, "sync_bookmarks") {
        SettingsApply::SyncBookmarks(on)
    } else if text::same(k, "sync_history") {
        SettingsApply::SyncHistory(on)
    } else if text::same(k, "sync_passwords") {
        SettingsApply::SyncPasswords(on)
    } else if text::same(k, "action") {
        SettingsApply::Action(v.to_owned())
    } else if look_key(k) {
        SettingsApply::ThemeSet(k.to_owned(), v.to_owned())
    } else {
        before
    }
}

/// The change that a link to the settings page asks for.
pub fn read_change(pairs: &Vec<(String, String)>) -> (r: SettingsApply)
    ensures
        r@ == change_of(address::pair_texts(pairs@)),
{
    let ghost all = address::pair_texts(pairs@);
    let mut out: SettingsApply = SettingsApply::Nothing;
    let mut i: usize = 0;
    while i < pairs.len()
        invariant
            i <= pairs@.len(),
            all == address::pair_texts(pairs@),
            out@ == change_of(all.take(i as int)),
        decreases pairs@.len() - i,
    {
        assert(all.take(i + 1).drop_last() =~= all.take(i as int));
        assert(all.take(i + 1).last() == all[i as int]);
        out = read_pair(out, pairs[i].0.as_str(), pairs[i].1.as_str());
        i = i + 1;
    }
    assert(all.take(pairs@.len() as int) =~= all);
    out
}

/// The number of the ready-made look that a change asks for.
pub open spec fn preset_number(c: ChangeView) -> Option<nat> {
    match c {
        ChangeView::ThemeSet(k, v) => if k == "preset"@ {
            number::read_unsigned(v, usize::MAX as nat)
        } else {
            None
        },
        _ => None,
    }
}

/// The base that a look is to have for a change: the one that it asks for, else the one it has.
pub open spec fn base_wanted(c: ChangeView, base: Seq<char>) -> Seq<char> {
    match c {
        ChangeView::ThemeSet(k, v) => if k == "base"@ {
            v
        } else {
            base
        },
        _ => base,
    }
}

impl SettingsApply {
    /// The number of the ready-made look that the change asks for.
    pub fn preset(&self) -> (r: Option<usize>)
        ensures
            match preset_number(self@) {
                Some(n) => r == Some(n as usize) && n <= usize::MAX,
                None => r is None,
            },
    {
        match self {
            SettingsApply::ThemeSet(k, v) => {
                if !text::same(k.as_str(), "preset") {
                    return None;
                }
                match number::parse_unsigned(v.as_str(), usize::MAX as u64) {
                    Some(n) => Some(n as usize),
                    None => None,
                }
            },
            _ => None,
        }
    }

    /// The base that a look is to have for the change.
    pub fn base(&self, base: &str) -> (r: String)
        ensures
            r@ == base_wanted(self@, base@),
    {
        match self {
            SettingsApply::ThemeSet(k, v) => {
                if text::same(k.as_str(), "base") {
                    v.clone()
                } else {
                    base.to_owned()
                }
            },
            _ => base.to_owned(),
        }
    }
}

// ---------------------------------------------------------------------------
// Making a change
// ---------------------------------------------------------------------------

/// What is to follow a change.
#[derive(Clone, Copy, Debug, PartialEq, Eq, Structural)]
pub enum Deed {
    Nothing,
    Sync,
    Import,
    MakeDefault,
}

/// What came of a change: whether the settings are to be saved, whether the look has changed so
/// that the page colours follow it, and what is to be done.
#[derive(Clone, Copy, Debug, PartialEq, Eq, Structural)]
pub struct Applied {
    pub changed: bool,
    pub look: bool,
    pub deed: Deed,
}

/// What an action of the settings page does.
pub open spec fn deed_of(a: Seq<char>) -> Deed {
    if a == "sync"@ {
        Deed::Sync
    } else if a == "import"@ {
        Deed::Import
    } else if a == "default"@ {
        Deed::MakeDefault
    } else {
        Deed::Nothing
    }
}

/// The modules with one switched, by name.
pub open spec fn with_module(m: Modules, name: Seq<char>, on: bool) -> Modules {
    if name == "clock"@ {
        Modules { clock: on, ..m }
    } else if name == "search"@ {
        Modules { search: on, ..m }
    } else if name == "sites"@ {
        Modules { sites: on, ..m }
    } else if name == "notes"@ {
        Modules { notes: on, ..m }
    } else if name == "feed"@ {
        Modules { feed: on, ..m }
    } else {
        m
    }
}

/// A module and its switch, `name:on` or `name:off`; without a colon the name is empty.
pub open spec fn module_switch(v: Seq<char>) -> (Seq<char>, bool) {
    let i = text::upto(v, ':') as int;
    if i == v.len() {
        (Seq::empty(), false)
    } else {
        (v.take(i), v.skip(i + 1) == "on"@)
    }
}

/// The look with one of its choices changed, if the value is one. `rebased` is the look with its
/// base set to the value, and `preset` the look with the ready-made look of that number.
pub open spec fn with_look(
    t: ThemeView,
    c: CatalogView,
    k: Seq<char>,
    v: Seq<char>,
    rebased: ThemeView,
    preset: Option<ThemeView>,
) -> Option<ThemeView> {
    if k == "base"@ {
        if c.bases.contains(v) {
            Some(rebased)
        } else {
            None
        }
    } else if k == "accentk"@ {
        if c.accents.contains(v) {
            Some(ThemeView { accent: v, ..t })
        } else {
            None
        }
    } else if k == "density"@ {
        if c.densities.contains(v) {
            Some(ThemeView { density: v, ..t })
        } else {
            None
        }
    } else if k == "font"@ {
        if c.fonts.contains(v) {
            Some(ThemeView { font: v, ..t })
        } else {
            None
        }
    } else if k == "tabpos"@ {
        if v == c.top || v == c.left {
            Some(ThemeView { tab_pos: v, ..t })
        } else {
            None
        }
    } else if k == "tabfit"@ {
        Some(
            ThemeView {
                tab_fit: if v == "fit"@ {
                    c.fit
                } else {
                    c.fill
                },
                ..t
            },
        )
    } else if k == "wallpaper"@ {
        if c.wallpapers.contains(v) {
            Some(ThemeView { wallpaper: v, ..t })
        } else {
            None
        }
    } else if k == "preset"@ {
        preset
    } else if k == "radius"@ {
        match number::read_unsigned(v, 255) {
            Some(n) => Some(ThemeView { radius: settings::at_most(n, 30) as u8, ..t }),
            None => None,
        }
    } else if k == "glass"@ {
        match number::read_unsigned(v, 255) {
            Some(n) => Some(ThemeView { glass: settings::at_most(n, 60) as u8, ..t }),
            None => None,
        }
    } else if k == "tabmaxw"@ {
        match number::read_unsigned(v, 65535) {
            Some(n) => Some(ThemeView { tab_max_w: settings::within(n, 120, 340) as u16, ..t }),
            None => None,
        }
    } else {
        None
    }
}

/// The settings with a change made, and what came of it. A search address of white space alone, a
/// colour that is none and a choice that the catalog lacks change nothing.
pub open spec fn applied(
    s: SettingsView,
    c: CatalogView,
    change: ChangeView,
    rebased: ThemeView,
    preset: Option<ThemeView>,
) -> (SettingsView, Applied) {
    let no = Applied { changed: false, look: false, deed: Deed::Nothing };
    let yes = Applied { changed: true, look: false, deed: Deed::Nothing };
    match change {
        ChangeView::Nothing => (s, no),
        ChangeView::Engine(i) => if i < search_engines().len() {
            (SettingsView { search: search_engines()[i as int].1, ..s }, yes)
        } else {
            (s, no)
        },
        ChangeView::Search(v) => if text::trimmed(v).len() > 0 {
            (SettingsView { search: v, ..s }, yes)
        } else {
            (s, no)
        },
        ChangeView::Theme(i) => if i < colour_presets().len() {
            (
                SettingsView {
                    accent: colour_presets()[i as int].1,
                    dark: colour_presets()[i as int].2,
                    ..s
                },
                yes,
            )
        } else {
            (s, no)
        },
        ChangeView::Accent(v) => if codec::is_css_hex(v) {
            (SettingsView { accent: v, ..s }, yes)
        } else {
            (s, no)
        },
        ChangeView::Dark(b) => (SettingsView { dark: b, ..s }, yes),
        ChangeView::BlockAds(b) => (SettingsView { block_ads: b, ..s }, yes),
        ChangeView::SyncBookmarks(b) => (SettingsView { sync_bookmarks: b, ..s }, yes),
        ChangeView::SyncHistory(b) => (SettingsView { sync_history: b, ..s }, yes),
        ChangeView::SyncPasswords(b) => (SettingsView { sync_passwords: b, ..s }, yes),
        ChangeView::ThemeSet(k, v) => {
            let look = Applied { changed: true, look: true, deed: Deed::Nothing };
            if k == "module"@ {
                let m = module_switch(v);
                if m.0.len() > 0 {
                    (SettingsView { modules: with_module(s.modules, m.0, m.1), ..s }, look)
                } else {
                    (s, no)
                }
            } else {
                match with_look(s.theme, c, k, v, rebased, preset) {
                    Some(t) => (SettingsView { theme: t, ..s }, look),
                    None => (s, no),
                }
            }
        },
        ChangeView::Action(a) => (s, Applied { changed: false, look: false, deed: deed_of(a) }),
    }
}

/// Whatever a link asks for, the accent stays a CSS colour.
pub proof fn accent_stays_a_colour(
    s: SettingsView,
    c: CatalogView,
    change: ChangeView,
    rebased: ThemeView,
    preset: Option<ThemeView>,
)
    requires
        codec::is_css_hex(s.accent),
    ensures
        codec::is_css_hex(applied(s, c, change, rebased, preset).0.accent),
{
    reveal_strlit("#5b8cff");
    reveal_strlit("#ff4fd8");
    reveal_strlit("#3ecf8e");
    reveal_strlit("#ff7a45");
    reveal_strlit("#a875ff");
    reveal_strlit("#8b95a7");
    reveal_strlit("#2f6bff");
}

/// The ready-made looks keep their measures, so the bounds hold after any change that asks for
/// one by number.
pub proof fn measures_stay_within_bounds(
    t: ThemeView,
    c: CatalogView,
    k: Seq<char>,
    v: Seq<char>,
    rebased: ThemeView,
    preset: Option<ThemeView>,
)
    requires
        measures_in_bounds(t),
        measures_in_bounds(rebased),
        preset matches Some(p) ==> measures_in_bounds(p),
    ensures
        with_look(t, c, k, v, rebased, preset) matches Some(r) ==> measures_in_bounds(r),
{
}

pub open spec fn measures_in_bounds(t: ThemeView) -> bool {
    t.radius <= 30 && t.glass <= 60 && 120 <= t.tab_max_w <= 340
}

impl Modules {
    /// Switches one module, by name.
    pub fn set(&mut self, name: &str, on: bool)
        ensures
            *final(self) == with_module(*old(self), name@, on),
    {
        if text::same(name, "clock") {
            self.clock = on;
        } else if text::same(name, "search") {
            self.search = on;
        } else if text::same(name, "sites") {
            self.sites = on;
        } else if text::same(name, "notes") {
            self.notes = on;
        } else if text::same(name, "feed") {
            self.feed = on;
        }
    }
}

impl Theme {
    /// Changes one choice of the look. Tells whether the value is one.
    pub fn set(
        &mut self,
        c: &Catalog,
        k: &str,
        v: &str,
        rebased: Theme,
        preset: Option<Theme>,
    ) -> (r: bool)
        ensures
            match with_look(
                old(self)@,
                c@,
                k@,
                v@,
                rebased@,
                match preset {
                    Some(p) => Some(p@),
                    None => None,
                },
            ) {
                Some(t) => r && final(self)@ == t,
                None => !r && final(self)@ == old(self)@,
            },
    {
        if text::same(k, "base") {
            if text::is_one_of(v, &c.bases) {
                *self = rebased;
                true
            } else {
                false
            }
        } else if text::same(k, "accentk") {
            if text::is_one_of(v, &c.accents) {
                self.accent = v.to_owned();
                true
            } else {
                false
            }
        } else if text::same(k, "density") {
            if text::is_one_of(v, &c.densities) {
                self.density = v.to_owned();
                true
            } else {
                false
            }
        } else if text::same(k, "font") {
            if text::is_one_of(v, &c.fonts) {
                self.font = v.to_owned();
                true
            } else {
                false
            }
        } else if text::same(k, "tabpos") {
            if text::same(v, c.top.as_str()) || text::same(v, c.left.as_str()) {
                self.tab_pos = v.to_owned();
                true
            } else {
                false
            }
        } else if text::same(k, "tabfit") {
            self.tab_fit = if text::same(v, "fit") {
                c.fit.clone()
            } else {
                c.fill.clone()
            };
            true
        } else if text::same(k, "wallpaper") {
            if text::is_one_of(v, &c.wallpapers) {
                self.wallpaper = v.to_owned();
                true
            } else {
                false
            }
        } else if text::same(k, "preset") {
            match preset {
                Some(p) => {
                    *self = p;
                    true
                },
                None => false,
            }
        } else if text::same(k, "radius") {
            match number::parse_unsigned(v, 255) {
                Some(n) => {
                    self.radius = if n > 30 {
                        30
                    } else {
                        n as u8
                    };
                    true
                },
                None => false,
            }
        } else if text::same(k, "glass") {
            match number::parse_unsigned(v, 255) {
                Some(n) => {
                    self.glass = if n > 60 {
                        60
                    } else {
                        n as u8
                    };
                    true
                },
                None => false,
            }
        } else if text::same(k, "tabmaxw") {
            match number::parse_unsigned(v, 65535) {
                Some(n) => {
                    self.tab_max_w = if n < 120 {
                        120
                    } else if n > 340 {
                        340
                    } else {
                        n as u16
                    };
                    true
                },
                None => false,
            }
        } else {
            false
        }
    }
}

fn done(changed: bool, look: bool) -> (r: Applied)
    ensures
        r == (Applied { changed, look, deed: Deed::Nothing }),
{
    Applied { changed, look, deed: Deed::Nothing }
}

/// Splits `name:on` at its first colon.
fn split_switch(v: &str) -> (r: (String, bool))
    ensures
        (r.0@, r.1) == module_switch(v@),
{
    let c: Vec<char> = text::chars_of(v);
    assert(c@.skip(0) =~= c@);
    let i: usize = text::find_from(&c, 0, ':');
    if i == c.len() {
        let none: String = String::new();
        assert(none@ =~= Seq::<char>::empty());
        (none, false)
    } else {
        let name: String = text::string_between(&c, 0, i);
        let switch: String = text::string_between(&c, i + 1, c.len());
        assert(name@ =~= v@.take(i as int));
        assert(switch@ =~= v@.skip(i + 1));
        (name, text::same(switch.as_str(), "on"))
    }
}

impl Settings {
    /// Makes a change that the settings page asks for.
    pub fn apply(
        &mut self,
        c: &Catalog,
        change: SettingsApply,
        rebased: Theme,
        preset: Option<Theme>,
    ) -> (r: Applied)
        ensures
            (final(self)@, r) == applied(
                old(self)@,
                c@,
                change@,
                rebased@,
                match preset {
                    Some(p) => Some(p@),
                    None => None,
                },
            ),
    {
        match change {
            SettingsApply::Nothing => done(false, false),
            SettingsApply::Engine(i) => match search_engine(i) {
                Some(e) => {
                    self.search = e.1.to_owned();
                    done(true, false)
                },
                None => done(false, false),
            },
            SettingsApply::Search(v) => {
                if text::trim(v.as_str()).as_str().is_empty() {
                    done(false, false)
                } else {
                    self.search = v;
                    done(true, false)
                }
            },
            SettingsApply::Theme(i) => match colour_preset(i) {
                Some(e) => {
                    self.accent = e.0.to_owned();
                    self.dark = e.1;
                    done(true, false)
                },
                None => done(false, false),
            },
            SettingsApply::Accent(v) => {
                if codec::is_hex_color(v.as_str()) {
                    self.accent = v;
                    done(true, false)
                } else {
                    done(false, false)
                }
            },
            SettingsApply::Dark(b) => {
                self.dark = b;
                done(true, false)
            },
            SettingsApply::BlockAds(b) => {
                self.block_ads = b;
                done(true, false)
            },
            SettingsApply::SyncBookmarks(b) => {
                self.sync_bookmarks = b;
                done(true, false)
            },
            SettingsApply::SyncHistory(b) => {
                self.sync_history = b;
                done(true, false)
            },
            SettingsApply::SyncPasswords(b) => {
                self.sync_passwords = b;
                done(true, false)
            },
            SettingsApply::ThemeSet(k, v) => {
                if text::same(k.as_str(), "module") {
                    let m: (String, bool) = split_switch(v.as_str());
                    if m.0.as_str().is_empty() {
                        done(false, false)
                    } else {
                        self.modules.set(m.0.as_str(), m.1);
                        done(true, true)
                    }
                } else {
                    let ok: bool = self.theme.set(c, k.as_str(), v.as_str(), rebased, preset);
                    done(ok, ok)
                }
            },
            SettingsApply::Action(a) => {
                let deed: Deed = if text::same(a.as_str(), "sync") {
                    Deed::Sync
                } else if text::same(a.as_str(), "import") {
                    Deed::Import
                } else if text::same(a.as_str(), "default") {
                    Deed::MakeDefault
                } else {
                    Deed::Nothing
                };
                Applied { changed: false, look: false, deed }
            },
        }
    }
}

// ---------------------------------------------------------------------------
// The command palette
// ---------------------------------------------------------------------------

/// An entry of the command palette.
pub enum PaletteAction {
    NewTab,
    ToggleStudio,
    OpenWhy,
    OpenExport,
    ToggleForceDark,
    ReaderMode,
    ToggleVerticalTabs,
    ShrinkTabs,
    Density(String),
    SetAccent(String),
    SetWallpaper(String),
    /// The look that a ready-made look gives.
    ApplyPreset(Theme),
    ToggleNotes,
    ToggleFeed,
}

/// What the window is to do about an entry of the command palette.
#[derive(Clone, Copy, Debug, PartialEq, Eq, Structural)]
pub enum PaletteStep {
    OpenTab,
    OpenAppearance,
    OpenWhy,
    OpenExport,
    ToggleForceDark,
    ReaderMode,
    /// The settings have changed: the page colours follow the look, and they are saved.
    Saved,
}

/// The other of two keys: the second where it is the first, else the first.
pub open spec fn other_key(now: Seq<char>, a: Seq<char>, b: Seq<char>) -> Seq<char> {
    if now == a {
        b
    } else {
        a
    }
}

/// The look after an entry of the command palette.
pub open spec fn look_after(t: ThemeView, c: CatalogView, a: PaletteAction) -> ThemeView {
    match a {
        PaletteAction::ToggleVerticalTabs => ThemeView {
            tab_pos: other_key(t.tab_pos, c.top, c.left),
            ..t
        },
        PaletteAction::ShrinkTabs => ThemeView {
            tab_fit: other_key(t.tab_fit, c.fill, c.fit),
            ..t
        },
        PaletteAction::Density(d) => ThemeView { density: d@, ..t },
        PaletteAction::SetAccent(d) => ThemeView { accent: d@, ..t },
        PaletteAction::SetWallpaper(d) => ThemeView { wallpaper: d@, ..t },
        PaletteAction::ApplyPreset(p) => p@,
        _ => t,
    }
}

/// The modules after an entry of the command palette.
pub open spec fn modules_after(m: Modules, a: PaletteAction) -> Modules {
    match a {
        PaletteAction::ToggleNotes => Modules { notes: !m.notes, ..m },
        PaletteAction::ToggleFeed => Modules { feed: !m.feed, ..m },
        _ => m,
    }
}

/// The settings after an entry of the command palette.
pub open spec fn after_palette(s: SettingsView, c: CatalogView, a: PaletteAction) -> SettingsView {
    SettingsView {
        theme: look_after(s.theme, c, a),
        modules: modules_after(s.modules, a),
        ..s
    }
}

/// What the window does about an entry of the command palette.
pub open spec fn palette_step(a: PaletteAction) -> PaletteStep {
    match a {
        PaletteAction::NewTab => PaletteStep::OpenTab,
        PaletteAction::ToggleStudio => PaletteStep::OpenAppearance,
        PaletteAction::OpenWhy => PaletteStep::OpenWhy,
        PaletteAction::OpenExport => PaletteStep::OpenExport,
        PaletteAction::ToggleForceDark => PaletteStep::ToggleForceDark,
        PaletteAction::ReaderMode => PaletteStep::ReaderMode,
        _ => PaletteStep::Saved,
    }
}

/// Putting the tabs to the other side twice puts them back.
pub proof fn orientation_toggles_back(t: ThemeView, c: CatalogView)
    requires
        t.tab_pos == c.top || t.tab_pos == c.left,
    ensures
        look_after(
            look_after(t, c, PaletteAction::ToggleVerticalTabs),
            c,
            PaletteAction::ToggleVerticalTabs,
        ) == t,
{
}

impl Theme {
    /// Carries out an entry of the command palette as far as it concerns the look.
    fn run_palette(&mut self, c: &Catalog, a: PaletteAction)
        ensures
            final(self)@ == look_after(old(self)@, c@, a),
    {
        match a {
            PaletteAction::ToggleVerticalTabs => {
                self.toggle_orientation(c);
            },
            PaletteAction::ShrinkTabs => {
                self.tab_fit = if text::same(self.tab_fit.as_str(), c.fill.as_str()) {
                    c.fit.clone()
                } else {
                    c.fill.clone()
                };
            },
            PaletteAction::Density(d) => {
                self.density = d;
            },
            PaletteAction::SetAccent(d) => {
                self.accent = d;
            },
            PaletteAction::SetWallpaper(d) => {
                self.wallpaper = d;
            },
            PaletteAction::ApplyPreset(t) => {
                *self = t;
            },
            _ => {},
        }
    }

    /// Puts the tabs to the other side.
    pub fn toggle_orientation(&mut self, c: &Catalog)
        ensures
            final(self)@ == look_after(old(self)@, c@, PaletteAction::ToggleVerticalTabs),
    {
        self.tab_pos = if text::same(self.tab_pos.as_str(), c.top.as_str()) {
            c.left.clone()
        } else {
            c.top.clone()
        };
    }
}

impl Settings {
    /// Carries out an entry of the command palette as far as it concerns the settings.
    pub fn run_palette(&mut self, c: &Catalog, a: PaletteAction) -> (r: PaletteStep)
        ensures
            final(self)@ == after_palette(old(self)@, c@, a),
            r == palette_step(a),
    {
        let step: PaletteStep = match &a {
            PaletteAction::NewTab => PaletteStep::OpenTab,
            PaletteAction::ToggleStudio => PaletteStep::OpenAppearance,
            PaletteAction::OpenWhy => PaletteStep::OpenWhy,
            PaletteAction::OpenExport => PaletteStep::OpenExport,
            PaletteAction::ToggleForceDark => PaletteStep::ToggleForceDark,
            PaletteAction::ReaderMode => PaletteStep::ReaderMode,
            _ => PaletteStep::Saved,
        };
        match &a {
            PaletteAction::ToggleNotes => {
                self.modules.notes = !self.modules.notes;
            },
            PaletteAction::ToggleFeed => {
                self.modules.feed = !self.modules.feed;
            },
            _ => {},
        }
        self.theme.run_palette(c, a);
        step
    }
}

// ---------------------------------------------------------------------------
// Laws
// ---------------------------------------------------------------------------

proof fn lemma_keys_differ()
    ensures
        "engine"@.len() == 6 && "engine"@[0] == 'e',
        "search"@.len() == 6 && "search"@[0] == 's',
        "theme"@.len() == 5 && "theme"@[0] == 't',
        "accent"@.len() == 6 && "accent"@[0] == 'a',
        "dark"@.len() == 4 && "dark"@[0] == 'd',
        "block_ads"@.len() == 9 && "block_ads"@[0] == 'b',
        "sync_bookmarks"@.len() == 14 && "sync_bookmarks"@[0] == 's',
        "sync_history"@.len() == 12 && "sync_history"@[0] == 's',
        "sync_passwords"@.len() == 14 && "sync_passwords"@[0] == 's',
        "action"@.len() == 6 && "action"@[0] == 'a',
        "base"@.len() == 4 && "base"@[0] == 'b',
        "accentk"@.len() == 7 && "accentk"@[0] == 'a',
        "density"@.len() == 7 && "density"@[0] == 'd',
        "font"@.len() == 4 && "font"@[0] == 'f',
        "tabpos"@.len() == 6 && "tabpos"@[0] == 't',
        "tabfit"@.len() == 6 && "tabfit"@[0] == 't',
        "wallpaper"@.len() == 9 && "wallpaper"@[0] == 'w',
        "preset"@.len() == 6 && "preset"@[0] == 'p',
        "radius"@.len() == 6 && "radius"@[0] == 'r',
        "glass"@.len() == 5 && "glass"@[0] == 'g',
        "tabmaxw"@.len() == 7 && "tabmaxw"@[0] == 't',
        "module"@.len() == 6 && "module"@[0] == 'm',
        "accent"@[2] == 'c' && "action"@[2] == 't' && "tabpos"@[3] == 'p' && "tabfit"@[3] == 'f',
        "sync_bookmarks"@[5] == 'b' && "sync_passwords"@[5] == 'p',
        "theme"@[1] == 'h',
{
    reveal_strlit("engine");
    reveal_strlit("search");
    reveal_strlit("theme");
    reveal_strlit("accent");
    reveal_strlit("dark");
    reveal_strlit("block_ads");
    reveal_strlit("sync_bookmarks");
    reveal_strlit("sync_history");
    reveal_strlit("sync_passwords");
    reveal_strlit("action");
    reveal_strlit("base");
    reveal_strlit("accentk");
    reveal_strlit("density");
    reveal_strlit("font");
    reveal_strlit("tabpos");
    reveal_strlit("tabfit");
    reveal_strlit("wallpaper");
    reveal_strlit("preset");
    reveal_strlit("radius");
    reveal_strlit("glass");
    reveal_strlit("tabmaxw");
    reveal_strlit("module");
}

/// A link that names a switch sets it to what it says, whatever the link named before: `on` is on,
/// and anything else is off.
pub proof fn links_set_the_switch_they_name(before: ChangeView, v: Seq<char>)
    ensures
        change_with(before, "dark"@, v) == ChangeView::Dark(v == "on"@),
        change_with(before, "block_ads"@, v) == ChangeView::BlockAds(v == "on"@),
        change_with(before, "sync_bookmarks"@, v) == ChangeView::SyncBookmarks(v == "on"@),
        change_with(before, "sync_history"@, v) == ChangeView::SyncHistory(v == "on"@),
        change_with(before, "sync_passwords"@, v) == ChangeView::SyncPasswords(v == "on"@),
        change_with(before, "search"@, v) == ChangeView::Search(v),
        change_with(before, "accent"@, v) == ChangeView::Accent(v),
        change_with(before, "action"@, v) == ChangeView::Action(v),
{
    lemma_keys_differ();
}

/// A link that names a choice of the look changes that one, to the value that it gives.
pub proof fn links_change_the_look_they_name(before: ChangeView, v: Seq<char>)
    ensures
        change_with(before, "base"@, v) == ChangeView::ThemeSet("base"@, v),
        change_with(before, "accentk"@, v) == ChangeView::ThemeSet("accentk"@, v),
        change_with(before, "density"@, v) == ChangeView::ThemeSet("density"@, v),
        change_with(before, "font"@, v) == ChangeView::ThemeSet("font"@, v),
        change_with(before, "tabpos"@, v) == ChangeView::ThemeSet("tabpos"@, v),
        change_with(before, "tabfit"@, v) == ChangeView::ThemeSet("tabfit"@, v),
        change_with(before, "wallpaper"@, v) == ChangeView::ThemeSet("wallpaper"@, v),
        change_with(before, "preset"@, v) == ChangeView::ThemeSet("preset"@, v),
        change_with(before, "radius"@, v) == ChangeView::ThemeSet("radius"@, v),
        change_with(before, "glass"@, v) == ChangeView::ThemeSet("glass"@, v),
        change_with(before, "tabmaxw"@, v) == ChangeView::ThemeSet("tabmaxw"@, v),
        change_with(before, "module"@, v) == ChangeView::ThemeSet("module"@, v),
{
    lemma_keys_differ();
}

/// A link that names a number names that search engine, or that ready-made colour; the last pair that
/// is known counts, and an unknown one leaves what came before it.
pub proof fn the_last_known_pair_counts(
    pairs: Seq<(Seq<char>, Seq<char>)>,
    k: Seq<char>,
    v: Seq<char>,
    n: nat,
)
    requires
        n <= usize::MAX,
    ensures
        v == number::decimal(n) ==> change_of(pairs.push(("engine"@, v))) == ChangeView::Engine(
            n as usize,
        ) && change_of(pairs.push(("theme"@, v))) == ChangeView::Theme(n as usize),
        change_of(pairs.push((k, v))) == change_with(change_of(pairs), k, v),
        change_of(Seq::empty()) == ChangeView::Nothing,
        k == "zzz"@ ==> change_of(pairs.push((k, v))) == change_of(pairs),
{
    lemma_keys_differ();
    reveal_strlit("zzz");
    assert("zzz"@.len() == 3);
    assert(pairs.push((k, v)).drop_last() =~= pairs);
    assert(pairs.push(("engine"@, v)).drop_last() =~= pairs);
    assert(pairs.push(("theme"@, v)).drop_last() =~= pairs);
    if v == number::decimal(n) {
        number::lemma_read_decimal(n, usize::MAX as nat);
    }
}

/// A switch of the settings page changes its own setting and no other, and the settings are saved.
pub proof fn a_setting_changes_alone(
    s: SettingsView,
    c: CatalogView,
    b: bool,
    v: Seq<char>,
    rebased: ThemeView,
    preset: Option<ThemeView>,
)
    ensures
        ({
            let r = applied(s, c, ChangeView::BlockAds(b), rebased, preset);
            r.1.changed && r.0.block_ads == b && r.0 == (SettingsView { block_ads: r.0.block_ads, ..s })
        }),
        ({
            let r = applied(s, c, ChangeView::Dark(b), rebased, preset);
            r.1.changed && r.0.dark == b && r.0 == (SettingsView { dark: r.0.dark, ..s })
        }),
        ({
            let r = applied(s, c, ChangeView::SyncBookmarks(b), rebased, preset);
            r.1.changed && r.0.sync_bookmarks == b && r.0 == (SettingsView {
                sync_bookmarks: r.0.sync_bookmarks,
                ..s
            })
        }),
        ({
            let r = applied(s, c, ChangeView::SyncHistory(b), rebased, preset);
            r.1.changed && r.0.sync_history == b && r.0 == (SettingsView {
                sync_history: r.0.sync_history,
                ..s
            })
        }),
        ({
            let r = applied(s, c, ChangeView::SyncPasswords(b), rebased, preset);
            r.1.changed && r.0.sync_passwords == b && r.0 == (SettingsView {
                sync_passwords: r.0.sync_passwords,
                ..s
            })
        }),
        ({
            let r = applied(s, c, ChangeView::Search(v), rebased, preset);
            if text::trimmed(v).len() > 0 {
                r.1.changed && r.0.search == v && r.0 == (SettingsView { search: r.0.search, ..s })
            } else {
                !r.1.changed && r.0 == s
            }
        }),
        applied(s, c, ChangeView::Nothing, rebased, preset).0 == s,
        !applied(s, c, ChangeView::Nothing, rebased, preset).1.changed,
{
}

/// Every search engine on offer is reached over https and takes the query; the one that is chosen is
/// the one that is set, and a number past the last sets none.
pub proof fn the_chosen_engine_is_set(
    s: SettingsView,
    c: CatalogView,
    rebased: ThemeView,
    preset: Option<ThemeView>,
    i: usize,
)
    ensures
        applied(s, c, ChangeView::Engine(0), rebased, preset).0.search
            == "https://duckduckgo.com/?q=%s"@,
        applied(s, c, ChangeView::Engine(1), rebased, preset).0.search
            == "https://kagi.com/search?q=%s"@,
        applied(s, c, ChangeView::Engine(2), rebased, preset).0.search
            == "https://www.bing.com/search?q=%s"@,
        applied(s, c, ChangeView::Engine(3), rebased, preset).0.search
            == "https://www.google.com/search?q=%s"@,
        i >= 4 ==> applied(s, c, ChangeView::Engine(i), rebased, preset).0 == s,
        i >= 7 ==> applied(s, c, ChangeView::Theme(i), rebased, preset).0 == s,
{
}

/// A choice of the look that the catalog has is taken, and changes nothing else; one that it lacks
/// changes nothing.
pub proof fn the_look_takes_what_the_catalog_has(
    t: ThemeView,
    c: CatalogView,
    v: Seq<char>,
    rebased: ThemeView,
    preset: Option<ThemeView>,
)
    ensures
        c.accents.contains(v) ==> with_look(t, c, "accentk"@, v, rebased, preset) == Some(
            ThemeView { accent: v, ..t },
        ),
        !c.accents.contains(v) ==> with_look(t, c, "accentk"@, v, rebased, preset) is None,
        c.densities.contains(v) ==> with_look(t, c, "density"@, v, rebased, preset) == Some(
            ThemeView { density: v, ..t },
        ),
        !c.densities.contains(v) ==> with_look(t, c, "density"@, v, rebased, preset) is None,
        c.fonts.contains(v) ==> with_look(t, c, "font"@, v, rebased, preset) == Some(
            ThemeView { font: v, ..t },
        ),
        !c.fonts.contains(v) ==> with_look(t, c, "font"@, v, rebased, preset) is None,
        c.wallpapers.contains(v) ==> with_look(t, c, "wallpaper"@, v, rebased, preset) == Some(
            ThemeView { wallpaper: v, ..t },
        ),
        !c.wallpapers.contains(v) ==> with_look(t, c, "wallpaper"@, v, rebased, preset) is None,
        c.bases.contains(v) ==> with_look(t, c, "base"@, v, rebased, preset) == Some(rebased),
        !c.bases.contains(v) ==> with_look(t, c, "base"@, v, rebased, preset) is None,
        with_look(t, c, "preset"@, v, rebased, preset) == preset,
        v == c.top || v == c.left ==> with_look(t, c, "tabpos"@, v, rebased, preset) == Some(
            ThemeView { tab_pos: v, ..t },
        ),
        v != c.top && v != c.left ==> with_look(t, c, "tabpos"@, v, rebased, preset) is None,
{
    lemma_keys_differ();
}

/// A measure of the look is taken as it is where it is within its bounds, and brought to the nearest
/// bound otherwise.
pub proof fn measures_are_taken_within_bounds(
    t: ThemeView,
    c: CatalogView,
    n: nat,
    rebased: ThemeView,
    preset: Option<ThemeView>,
)
    requires
        n <= 255,
    ensures
        with_look(t, c, "radius"@, number::decimal(n), rebased, preset) matches Some(r) && r.radius
            == (if n <= 30 {
            n
        } else {
            30
        }) && r.glass == t.glass && r.tab_max_w == t.tab_max_w,
        with_look(t, c, "glass"@, number::decimal(n), rebased, preset) matches Some(r) && r.glass
            == (if n <= 60 {
            n
        } else {
            60
        }) && r.radius == t.radius,
        with_look(t, c, "tabmaxw"@, number::decimal(n), rebased, preset) matches Some(r)
            && r.tab_max_w == (if n < 120 {
            120
        } else {
            n
        }) && r.radius == t.radius,
{
    lemma_keys_differ();
    number::lemma_read_decimal(n, 255);
    number::lemma_read_decimal(n, 65535);
}

/// Each part of the new-tab page is switched by its own name, and no other with it.
pub proof fn modules_are_switched_by_name(m: Modules, on: bool)
    ensures
        with_module(m, "clock"@, on) == (Modules { clock: on, ..m }),
        with_module(m, "search"@, on) == (Modules { search: on, ..m }),
        with_module(m, "sites"@, on) == (Modules { sites: on, ..m }),
        with_module(m, "notes"@, on) == (Modules { notes: on, ..m }),
        with_module(m, "feed"@, on) == (Modules { feed: on, ..m }),
{
    reveal_strlit("clock");
    reveal_strlit("search");
    reveal_strlit("sites");
    reveal_strlit("notes");
    reveal_strlit("feed");
    assert("clock"@[0] == 'c' && "search"@.len() == 6 && "sites"@[0] == 's' && "notes"@[0] == 'n'
        && "feed"@[0] == 'f' && "clock"@.len() == 5 && "sites"@.len() == 5 && "notes"@.len() == 5
        && "feed"@.len() == 4);
}

/// An action of the settings page does what it is called.
pub proof fn actions_do_what_they_are_called()
    ensures
        deed_of("sync"@) == Deed::Sync,
        deed_of("import"@) == Deed::Import,
        deed_of("default"@) == Deed::MakeDefault,
{
    reveal_strlit("sync");
    reveal_strlit("import");
    reveal_strlit("default");
    assert("sync"@.len() == 4 && "import"@.len() == 6 && "default"@.len() == 7);
}

/// The palette's entries that change the settings change what they name: the notes, the reading list
/// and the width of tabs to the other state, and the accent, the picture and the density to what was
/// chosen. The others leave the settings alone.
pub proof fn the_palette_changes_what_it_names(s: SettingsView, c: CatalogView, d: String)
    ensures
        after_palette(s, c, PaletteAction::ToggleNotes).modules.notes == !s.modules.notes,
        after_palette(s, c, PaletteAction::ToggleNotes).modules.feed == s.modules.feed,
        after_palette(s, c, PaletteAction::ToggleFeed).modules.feed == !s.modules.feed,
        after_palette(s, c, PaletteAction::ToggleFeed).modules.notes == s.modules.notes,
        after_palette(s, c, PaletteAction::SetAccent(d)).theme.accent == d@,
        after_palette(s, c, PaletteAction::SetWallpaper(d)).theme.wallpaper == d@,
        after_palette(s, c, PaletteAction::Density(d)).theme.density == d@,
        s.theme.tab_pos == c.top ==> after_palette(
            s,
            c,
            PaletteAction::ToggleVerticalTabs,
        ).theme.tab_pos == c.left,
        s.theme.tab_pos != c.top ==> after_palette(
            s,
            c,
            PaletteAction::ToggleVerticalTabs,
        ).theme.tab_pos == c.top,
        s.theme.tab_fit == c.fill ==> after_palette(s, c, PaletteAction::ShrinkTabs).theme.tab_fit
            == c.fit,
        s.theme.tab_fit != c.fill ==> after_palette(s, c, PaletteAction::ShrinkTabs).theme.tab_fit
            == c.fill,
        after_palette(s, c, PaletteAction::NewTab) == s,
        after_palette(s, c, PaletteAction::ReaderMode) == s,
        after_palette(s, c, PaletteAction::OpenWhy) == s,
        palette_step(PaletteAction::ReaderMode) == PaletteStep::ReaderMode,
        palette_step(PaletteAction::ToggleForceDark) == PaletteStep::ToggleForceDark,
        palette_step(PaletteAction::NewTab) == PaletteStep::OpenTab,
        palette_step(PaletteAction::ToggleNotes) == PaletteStep::Saved,
        palette_step(PaletteAction::SetAccent(d)) == PaletteStep::Saved,
{
}

} // verus!

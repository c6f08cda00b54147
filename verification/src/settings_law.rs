//! The settings file gives back the settings that it was written from.

use vstd::prelude::*;
use vstd::string::*;

use crate::codec;
use crate::number;
use crate::settings;
use crate::settings::{CatalogView, Modules, SettingsView, ThemeView};
use crate::text;

verus! {

/// A value that a line can hold: it has no newline, and no white space at its ends.
pub open spec fn is_line_value(v: Seq<char>) -> bool {
    !v.contains('\n') && text::trimmed(v) == v
}

/// Settings that the file can hold: texts of one line, a colour that is one, choices that the
/// catalog has, and measures within their bounds.
pub open spec fn is_keepable(s: SettingsView, c: CatalogView) -> bool {
    &&& is_line_value(s.search)
    &&& is_line_value(s.sync_api_key)
    &&& is_line_value(s.wallpaper)
    &&& codec::is_css_hex(s.accent)
    &&& is_line_value(s.theme.base) && c.bases.contains(s.theme.base)
    &&& is_line_value(s.theme.accent) && c.accents.contains(s.theme.accent)
    &&& is_line_value(s.theme.density) && c.densities.contains(s.theme.density)
    &&& is_line_value(s.theme.font) && c.fonts.contains(s.theme.font)
    &&& is_line_value(s.theme.tab_pos) && (s.theme.tab_pos == c.top || s.theme.tab_pos == c.left)
    &&& is_line_value(s.theme.wallpaper) && c.wallpapers.contains(s.theme.wallpaper)
    &&& is_line_value(s.theme.tab_fit) && (s.theme.tab_fit == c.fill || s.theme.tab_fit == c.fit)
    &&& s.theme.radius <= 30
    &&& s.theme.glass <= 60
    &&& 120 <= s.theme.tab_max_w <= 340
}

/// An entry that is read back as it was written.
spec fn is_entry(e: (Seq<char>, Seq<char>)) -> bool {
    &&& !e.0.contains('=')
    &&& is_line_value(e.0)
    &&& is_line_value(e.1)
}

spec fn all_entries(e: Seq<(Seq<char>, Seq<char>)>) -> bool {
    forall|i: int| 0 <= i < e.len() ==> is_entry(#[trigger] e[i])
}

spec fn line_of(e: (Seq<char>, Seq<char>)) -> Seq<char> {
    e.0 + seq!['='] + e.1
}

spec fn entry_line_list(e: Seq<(Seq<char>, Seq<char>)>) -> Seq<Seq<char>> {
    Seq::new(e.len(), |i: int| line_of(e[i]))
}

#[verifier::opaque]
spec fn with_entries(
    s: SettingsView,
    c: CatalogView,
    e: Seq<(Seq<char>, Seq<char>)>,
) -> SettingsView
    decreases e.len(),
{
    if e.len() == 0 {
        s
    } else {
        settings::with_key(with_entries(s, c, e.drop_last()), c, e.last().0, e.last().1)
    }
}

proof fn lemma_entry_lines(e: Seq<(Seq<char>, Seq<char>)>)
    requires
        all_entries(e),
    ensures
        text::lines_of(settings::entry_lines(e)) == entry_line_list(e),
{
    let lines = entry_line_list(e);
    let ended = Seq::new(lines.len(), |i: int| lines[i] + seq!['\n']);
    assert forall|i: int| 0 <= i < lines.len() implies !(#[trigger] lines[i]).contains('\n')
        && text::without_cr(lines[i]) == lines[i] by {
        let x = e[i];
        assert(is_entry(x));
        let l = lines[i];
        assert(l == line_of(x));
        assert forall|j: int| 0 <= j < l.len() implies l[j] != '\n' by {
            if j < x.0.len() {
                assert(l[j] == x.0[j]);
            } else if j > x.0.len() {
                assert(l[j] == x.1[j - x.0.len() - 1]);
            }
        }
        text::lemma_trimmed_ends(x.1);
        if x.1.len() > 0 {
            assert(l.last() == x.1.last());
        } else {
            assert(l.last() == '=');
        }
    }
    text::lemma_lines_of_strung(lines);
    lemma_entry_lines_strung(e);
}

proof fn lemma_entry_lines_strung(e: Seq<(Seq<char>, Seq<char>)>)
    ensures
        settings::entry_lines(e) == text::strung(
            Seq::new(
                entry_line_list(e).len(),
                |i: int| entry_line_list(e)[i] + seq!['\n'],
            ),
        ),
    decreases e.len(),
{
    let ended = Seq::new(entry_line_list(e).len(), |i: int| entry_line_list(e)[i] + seq!['\n']);
    if e.len() > 0 {
        let r = e.drop_last();
        lemma_entry_lines_strung(r);
        let rest = Seq::new(entry_line_list(r).len(), |i: int| entry_line_list(r)[i] + seq!['\n']);
        assert(ended =~= rest.push(line_of(e.last()) + seq!['\n']));
        text::lemma_strung_push(rest, line_of(e.last()) + seq!['\n']);
        assert(settings::entry_lines(e) =~= settings::entry_lines(r) + (line_of(e.last()) + seq![
            '\n',
        ]));
    }
}

proof fn lemma_key_value(e: (Seq<char>, Seq<char>))
    requires
        is_entry(e),
    ensures
        settings::key_value(line_of(e)) == Some(e),
{
    let l = line_of(e);
    let n = e.0.len() as int;
    assert forall|j: int| 0 <= j < n implies l[j] != '=' by {
        assert(l[j] == e.0[j]);
    }
    assert(l[n] == '=');
    text::lemma_upto_is(l, '=', n);
    assert(l.take(n) =~= e.0);
    assert(l.skip(n + 1) =~= e.1);
}

proof fn lemma_with_lines(s: SettingsView, c: CatalogView, e: Seq<(Seq<char>, Seq<char>)>)
    requires
        all_entries(e),
    ensures
        settings::with_lines(s, c, entry_line_list(e)) == with_entries(s, c, e),
    decreases e.len(),
{
    reveal_with_fuel(with_entries, 1);
    if e.len() > 0 {
        let r = e.drop_last();
        assert forall|i: int| 0 <= i < r.len() implies is_entry(#[trigger] r[i]) by {
            assert(r[i] == e[i]);
        }
        lemma_with_lines(s, c, r);
        assert(entry_line_list(e).drop_last() =~= entry_line_list(r));
        assert(is_entry(e[e.len() - 1]));
        lemma_key_value(e.last());
    }
}

proof fn lemma_with_entries_add(
    s: SettingsView,
    c: CatalogView,
    a: Seq<(Seq<char>, Seq<char>)>,
    b: Seq<(Seq<char>, Seq<char>)>,
)
    ensures
        with_entries(s, c, a + b) == with_entries(with_entries(s, c, a), c, b),
    decreases b.len(),
{
    reveal_with_fuel(with_entries, 1);
    if b.len() == 0 {
        assert(a + b =~= a);
    } else {
        assert((a + b).drop_last() =~= a + b.drop_last());
        lemma_with_entries_add(s, c, a, b.drop_last());
    }
}

/// Lengths and telling characters of the plain settings' keys.
proof fn lemma_switch_keys()
    ensures
        "search"@.len() == 6 && "search"@[0] == 's',
        "accent"@.len() == 6 && "accent"@[0] == 'a',
        "dark"@.len() == 4 && "dark"@[0] == 'd',
        "sync_api_key"@.len() == 12 && "sync_api_key"@[0] == 's' && "sync_api_key"@[5] == 'a',
        "sync_bookmarks"@.len() == 14 && "sync_bookmarks"@[0] == 's' && "sync_bookmarks"@[5] == 'b',
        "sync_history"@.len() == 12 && "sync_history"@[0] == 's' && "sync_history"@[5] == 'h',
        "sync_passwords"@.len() == 14 && "sync_passwords"@[0] == 's' && "sync_passwords"@[5] == 'p',
        "remember_passphrase"@.len() == 19 && "remember_passphrase"@[0] == 'r',
        "block_ads"@.len() == 9 && "block_ads"@[0] == 'b',
        "force_dark"@.len() == 10 && "force_dark"@[0] == 'f',
        "wallpaper"@.len() == 9 && "wallpaper"@[0] == 'w',
        "th_base_explicit"@.len() == 16 && "th_base_explicit"@[0] == 't',
{
    reveal_strlit("search");
    reveal_strlit("accent");
    reveal_strlit("dark");
    reveal_strlit("sync_api_key");
    reveal_strlit("sync_bookmarks");
    reveal_strlit("sync_history");
    reveal_strlit("sync_passwords");
    reveal_strlit("remember_passphrase");
    reveal_strlit("block_ads");
    reveal_strlit("force_dark");
    reveal_strlit("wallpaper");
    reveal_strlit("th_base_explicit");
}

/// Lengths and telling characters of the look's keys.
proof fn lemma_theme_keys()
    ensures
        "th_base"@.len() == 7 && "th_base"@[0] == 't' && "th_base"@[3] == 'b',
        "th_accent"@.len() == 9 && "th_accent"@[0] == 't' && "th_accent"@[3] == 'a',
        "th_density"@.len() == 10 && "th_density"@[0] == 't' && "th_density"@[3] == 'd',
        "th_font"@.len() == 7 && "th_font"@[0] == 't' && "th_font"@[3] == 'f',
        "th_tabpos"@.len() == 9 && "th_tabpos"@[0] == 't' && "th_tabpos"@[3] == 't'
            && "th_tabpos"@[6] == 'p',
        "th_wallpaper"@.len() == 12 && "th_wallpaper"@[0] == 't' && "th_wallpaper"@[3] == 'w',
        "th_tabfit"@.len() == 9 && "th_tabfit"@[0] == 't' && "th_tabfit"@[3] == 't'
            && "th_tabfit"@[6] == 'f',
        "th_radius"@.len() == 9 && "th_radius"@[0] == 't' && "th_radius"@[3] == 'r',
        "th_glass"@.len() == 8 && "th_glass"@[0] == 't' && "th_glass"@[3] == 'g',
        "th_tabmaxw"@.len() == 10 && "th_tabmaxw"@[0] == 't' && "th_tabmaxw"@[3] == 't',
{
    reveal_strlit("th_base");
    reveal_strlit("th_accent");
    reveal_strlit("th_density");
    reveal_strlit("th_font");
    reveal_strlit("th_tabpos");
    reveal_strlit("th_wallpaper");
    reveal_strlit("th_tabfit");
    reveal_strlit("th_radius");
    reveal_strlit("th_glass");
    reveal_strlit("th_tabmaxw");
}

/// Lengths and telling characters of the modules' keys, and of the truth values.
proof fn lemma_module_keys()
    ensures
        "mod_clock"@.len() == 9 && "mod_clock"@[0] == 'm' && "mod_clock"@[4] == 'c',
        "mod_search"@.len() == 10 && "mod_search"@[0] == 'm' && "mod_search"@[4] == 's',
        "mod_sites"@.len() == 9 && "mod_sites"@[0] == 'm' && "mod_sites"@[4] == 's',
        "mod_notes"@.len() == 9 && "mod_notes"@[0] == 'm' && "mod_notes"@[4] == 'n',
        "mod_feed"@.len() == 8 && "mod_feed"@[0] == 'm' && "mod_feed"@[4] == 'f',
        "true"@.len() == 4,
        "false"@.len() == 5,
{
    reveal_strlit("mod_clock");
    reveal_strlit("mod_search");
    reveal_strlit("mod_sites");
    reveal_strlit("mod_notes");
    reveal_strlit("mod_feed");
    reveal_strlit("true");
    reveal_strlit("false");
}

proof fn lemma_step(
    s: SettingsView,
    c: CatalogView,
    r: Seq<(Seq<char>, Seq<char>)>,
    k: Seq<char>,
    v: Seq<char>,
)
    ensures
        with_entries(s, c, r.push((k, v))) == settings::with_key(with_entries(s, c, r), c, k, v),
{
    reveal_with_fuel(with_entries, 1);
    assert(r.push((k, v)).drop_last() =~= r);
}

proof fn lemma_no_entries(s: SettingsView, c: CatalogView)
    ensures
        with_entries(s, c, Seq::empty()) == s,
{
    reveal_with_fuel(with_entries, 1);
}

/// The two agree in everything but the plain setting with this number.
spec fn agree_but(a: SettingsView, b: SettingsView, i: int) -> bool {
    &&& i == 0 || a.search == b.search
    &&& i == 1 || a.accent == b.accent
    &&& i == 2 || a.dark == b.dark
    &&& i == 3 || a.sync_api_key == b.sync_api_key
    &&& i == 4 || a.sync_bookmarks == b.sync_bookmarks
    &&& i == 5 || a.sync_history == b.sync_history
    &&& i == 6 || a.sync_passwords == b.sync_passwords
    &&& i == 7 || a.remember_passphrase == b.remember_passphrase
    &&& i == 8 || a.block_ads == b.block_ads
    &&& i == 9 || a.force_dark == b.force_dark
    &&& i == 10 || a.wallpaper == b.wallpaper
    &&& i == 11 || a.theme_base_explicit == b.theme_base_explicit
    &&& a.theme == b.theme
    &&& a.modules == b.modules
}

proof fn lemma_search(d: SettingsView, c: CatalogView, v: Seq<char>)
    ensures
        settings::with_key(d, c, "search"@, v).search == v,
        agree_but(settings::with_key(d, c, "search"@, v), d, 0),
{
    reveal(settings::with_key);
    lemma_switch_keys();
}

proof fn lemma_accent(d: SettingsView, c: CatalogView, v: Seq<char>)
    requires
        codec::is_css_hex(v),
    ensures
        settings::with_key(d, c, "accent"@, v).accent == v,
        agree_but(settings::with_key(d, c, "accent"@, v), d, 1),
{
    reveal(settings::with_key);
    lemma_switch_keys();
}

proof fn lemma_dark(d: SettingsView, c: CatalogView, b: bool)
    ensures
        settings::with_key(d, c, "dark"@, settings::truth(b)).dark == b,
        agree_but(settings::with_key(d, c, "dark"@, settings::truth(b)), d, 2),
{
    reveal(settings::with_key);
    reveal(settings::truth);
    lemma_switch_keys();
    lemma_module_keys();
}

proof fn lemma_sync_api_key(d: SettingsView, c: CatalogView, v: Seq<char>)
    ensures
        settings::with_key(d, c, "sync_api_key"@, v).sync_api_key == v,
        agree_but(settings::with_key(d, c, "sync_api_key"@, v), d, 3),
{
    reveal(settings::with_key);
    lemma_switch_keys();
}

proof fn lemma_sync_bookmarks(d: SettingsView, c: CatalogView, b: bool)
    ensures
        settings::with_key(d, c, "sync_bookmarks"@, settings::truth(b)).sync_bookmarks == b,
        agree_but(settings::with_key(d, c, "sync_bookmarks"@, settings::truth(b)), d, 4),
{
    reveal(settings::with_key);
    reveal(settings::truth);
    lemma_switch_keys();
    lemma_module_keys();
}

proof fn lemma_sync_history(d: SettingsView, c: CatalogView, b: bool)
    ensures
        settings::with_key(d, c, "sync_history"@, settings::truth(b)).sync_history == b,
        agree_but(settings::with_key(d, c, "sync_history"@, settings::truth(b)), d, 5),
{
    reveal(settings::with_key);
    reveal(settings::truth);
    lemma_switch_keys();
    lemma_module_keys();
}

proof fn lemma_sync_passwords(d: SettingsView, c: CatalogView, b: bool)
    ensures
        settings::with_key(d, c, "sync_passwords"@, settings::truth(b)).sync_passwords == b,
        agree_but(settings::with_key(d, c, "sync_passwords"@, settings::truth(b)), d, 6),
{
    reveal(settings::with_key);
    reveal(settings::truth);
    lemma_switch_keys();
    lemma_module_keys();
}

proof fn lemma_remember_passphrase(d: SettingsView, c: CatalogView, b: bool)
    ensures
        settings::with_key(d, c, "remember_passphrase"@, settings::truth(b)).remember_passphrase == b,
        agree_but(settings::with_key(d, c, "remember_passphrase"@, settings::truth(b)), d, 7),
{
    reveal(settings::with_key);
    reveal(settings::truth);
    lemma_switch_keys();
    lemma_module_keys();
}

proof fn lemma_block_ads(d: SettingsView, c: CatalogView, b: bool)
    ensures
        settings::with_key(d, c, "block_ads"@, settings::truth(b)).block_ads == b,
        agree_but(settings::with_key(d, c, "block_ads"@, settings::truth(b)), d, 8),
{
    reveal(settings::with_key);
    reveal(settings::truth);
    lemma_switch_keys();
    lemma_module_keys();
}

proof fn lemma_force_dark(d: SettingsView, c: CatalogView, b: bool)
    ensures
        settings::with_key(d, c, "force_dark"@, settings::truth(b)).force_dark == b,
        agree_but(settings::with_key(d, c, "force_dark"@, settings::truth(b)), d, 9),
{
    reveal(settings::with_key);
    reveal(settings::truth);
    lemma_switch_keys();
    lemma_module_keys();
}

proof fn lemma_wallpaper(d: SettingsView, c: CatalogView, v: Seq<char>)
    ensures
        settings::with_key(d, c, "wallpaper"@, v).wallpaper == v,
        agree_but(settings::with_key(d, c, "wallpaper"@, v), d, 10),
{
    reveal(settings::with_key);
    lemma_switch_keys();
}

proof fn lemma_theme_base_explicit(d: SettingsView, c: CatalogView, b: bool)
    ensures
        settings::with_key(d, c, "th_base_explicit"@, settings::truth(b)).theme_base_explicit == b,
        agree_but(settings::with_key(d, c, "th_base_explicit"@, settings::truth(b)), d, 11),
{
    reveal(settings::with_key);
    reveal(settings::truth);
    lemma_switch_keys();
    lemma_module_keys();
}

/// The two agree in all plain settings.
spec fn same_switches(a: SettingsView, b: SettingsView) -> bool {
    &&& a.search == b.search
    &&& a.accent == b.accent
    &&& a.dark == b.dark
    &&& a.sync_api_key == b.sync_api_key
    &&& a.sync_bookmarks == b.sync_bookmarks
    &&& a.sync_history == b.sync_history
    &&& a.sync_passwords == b.sync_passwords
    &&& a.remember_passphrase == b.remember_passphrase
    &&& a.block_ads == b.block_ads
    &&& a.force_dark == b.force_dark
    &&& a.wallpaper == b.wallpaper
    &&& a.theme_base_explicit == b.theme_base_explicit
}

/// A key that starts as the look's or the modules' keys do is no plain key.
proof fn lemma_other_key(d: SettingsView, c: CatalogView, k: Seq<char>, v: Seq<char>)
    requires
        k.len() > 0,
        (k[0] == 't' && k.len() != 16) || k[0] == 'm',
    ensures
        settings::with_key(d, c, k, v).theme == settings::with_theme_key(d.theme, c, k, v),
        settings::with_key(d, c, k, v).modules == settings::with_module_key(d.modules, k, v),
        same_switches(settings::with_key(d, c, k, v), d),
{
    reveal(settings::with_key);
    lemma_switch_keys();
}

proof fn lemma_theme_key(m: Modules, k: Seq<char>, v: Seq<char>)
    requires
        k.len() > 0,
        k[0] == 't',
    ensures
        settings::with_module_key(m, k, v) == m,
{
    reveal(settings::with_module_key);
    lemma_module_keys();
}

proof fn lemma_module_key(t: ThemeView, c: CatalogView, k: Seq<char>, v: Seq<char>)
    requires
        k.len() > 0,
        k[0] == 'm',
    ensures
        settings::with_theme_key(t, c, k, v) == t,
{
    reveal(settings::with_theme_key);
    lemma_theme_keys();
}

/// What each of the look's keys does.
proof fn lemma_theme_effects(t: ThemeView, c: CatalogView, v: Seq<char>)
    ensures
        c.bases.contains(v) ==> settings::with_theme_key(t, c, "th_base"@, v) == (ThemeView {
            base: v,
            ..t
        }),
        c.accents.contains(v) ==> settings::with_theme_key(t, c, "th_accent"@, v) == (ThemeView {
            accent: v,
            ..t
        }),
        c.densities.contains(v) ==> settings::with_theme_key(t, c, "th_density"@, v) == (
        ThemeView { density: v, ..t }),
        c.fonts.contains(v) ==> settings::with_theme_key(t, c, "th_font"@, v) == (ThemeView {
            font: v,
            ..t
        }),
        v == c.top || v == c.left ==> settings::with_theme_key(t, c, "th_tabpos"@, v) == (
        ThemeView { tab_pos: v, ..t }),
        c.wallpapers.contains(v) ==> settings::with_theme_key(t, c, "th_wallpaper"@, v) == (
        ThemeView { wallpaper: v, ..t }),
        v == c.fill || v == c.fit ==> settings::with_theme_key(t, c, "th_tabfit"@, v) == (
        ThemeView { tab_fit: v, ..t }),
{
    reveal(settings::with_theme_key);
    lemma_theme_keys();
}

/// What each key of the look's measures does.
proof fn lemma_measure_effects(t: ThemeView, c: CatalogView, n: nat)
    requires
        n <= 340,
    ensures
        n <= 30 ==> settings::with_theme_key(t, c, "th_radius"@, number::decimal(n)) == (
        ThemeView { radius: n as u8, ..t }),
        n <= 60 ==> settings::with_theme_key(t, c, "th_glass"@, number::decimal(n)) == (
        ThemeView { glass: n as u8, ..t }),
        n >= 120 ==> settings::with_theme_key(t, c, "th_tabmaxw"@, number::decimal(n)) == (
        ThemeView { tab_max_w: n as u16, ..t }),
{
    reveal(settings::with_theme_key);
    lemma_theme_keys();
    number::lemma_read_decimal(n, 65535);
    if n <= 255 {
        number::lemma_read_decimal(n, 255);
    }
}

proof fn lemma_module_clock(m: Modules, b: bool)
    ensures
        settings::with_module_key(m, "mod_clock"@, settings::truth(b)).clock == b,
        settings::with_module_key(m, "mod_clock"@, settings::truth(b)).search == m.search,
        settings::with_module_key(m, "mod_clock"@, settings::truth(b)).sites == m.sites,
        settings::with_module_key(m, "mod_clock"@, settings::truth(b)).notes == m.notes,
        settings::with_module_key(m, "mod_clock"@, settings::truth(b)).feed == m.feed,
{
    reveal(settings::with_module_key);
    reveal(settings::truth);
    lemma_module_keys();
}

proof fn lemma_module_search(m: Modules, b: bool)
    ensures
        settings::with_module_key(m, "mod_search"@, settings::truth(b)).search == b,
        settings::with_module_key(m, "mod_search"@, settings::truth(b)).clock == m.clock,
        settings::with_module_key(m, "mod_search"@, settings::truth(b)).sites == m.sites,
        settings::with_module_key(m, "mod_search"@, settings::truth(b)).notes == m.notes,
        settings::with_module_key(m, "mod_search"@, settings::truth(b)).feed == m.feed,
{
    reveal(settings::with_module_key);
    reveal(settings::truth);
    lemma_module_keys();
}

proof fn lemma_module_sites(m: Modules, b: bool)
    ensures
        settings::with_module_key(m, "mod_sites"@, settings::truth(b)).sites == b,
        settings::with_module_key(m, "mod_sites"@, settings::truth(b)).clock == m.clock,
        settings::with_module_key(m, "mod_sites"@, settings::truth(b)).search == m.search,
        settings::with_module_key(m, "mod_sites"@, settings::truth(b)).notes == m.notes,
        settings::with_module_key(m, "mod_sites"@, settings::truth(b)).feed == m.feed,
{
    reveal(settings::with_module_key);
    reveal(settings::truth);
    lemma_module_keys();
}

proof fn lemma_module_notes(m: Modules, b: bool)
    ensures
        settings::with_module_key(m, "mod_notes"@, settings::truth(b)).notes == b,
        settings::with_module_key(m, "mod_notes"@, settings::truth(b)).clock == m.clock,
        settings::with_module_key(m, "mod_notes"@, settings::truth(b)).search == m.search,
        settings::with_module_key(m, "mod_notes"@, settings::truth(b)).sites == m.sites,
        settings::with_module_key(m, "mod_notes"@, settings::truth(b)).feed == m.feed,
{
    reveal(settings::with_module_key);
    reveal(settings::truth);
    lemma_module_keys();
}

proof fn lemma_module_feed(m: Modules, b: bool)
    ensures
        settings::with_module_key(m, "mod_feed"@, settings::truth(b)).feed == b,
        settings::with_module_key(m, "mod_feed"@, settings::truth(b)).clock == m.clock,
        settings::with_module_key(m, "mod_feed"@, settings::truth(b)).search == m.search,
        settings::with_module_key(m, "mod_feed"@, settings::truth(b)).sites == m.sites,
        settings::with_module_key(m, "mod_feed"@, settings::truth(b)).notes == m.notes,
{
    reveal(settings::with_module_key);
    reveal(settings::truth);
    lemma_module_keys();
}

#[verifier::rlimit(50)]
proof fn lemma_general(d: SettingsView, s: SettingsView, c: CatalogView)
    requires
        codec::is_css_hex(s.accent),
    ensures
        ({
            let r = with_entries(d, c, settings::general_entries(s));
            &&& r.search == s.search
            &&& r.accent == s.accent
            &&& r.dark == s.dark
            &&& r.sync_api_key == s.sync_api_key
            &&& r.sync_bookmarks == s.sync_bookmarks
            &&& r.sync_history == s.sync_history
            &&& r.sync_passwords == d.sync_passwords
            &&& r.remember_passphrase == d.remember_passphrase
            &&& r.block_ads == d.block_ads
            &&& r.force_dark == d.force_dark
            &&& r.wallpaper == d.wallpaper
            &&& r.theme_base_explicit == d.theme_base_explicit
            &&& r.theme == d.theme
            &&& r.modules == d.modules
        }),
{
    let r0 = Seq::<(Seq<char>, Seq<char>)>::empty();
    lemma_no_entries(d, c);
    let r1 = r0.push(("search"@, s.search));
    lemma_step(d, c, r0, "search"@, s.search);
    lemma_search(with_entries(d, c, r0), c, s.search);
    let r2 = r1.push(("accent"@, s.accent));
    lemma_step(d, c, r1, "accent"@, s.accent);
    lemma_accent(with_entries(d, c, r1), c, s.accent);
    let r3 = r2.push(("dark"@, settings::truth(s.dark)));
    lemma_step(d, c, r2, "dark"@, settings::truth(s.dark));
    lemma_dark(with_entries(d, c, r2), c, s.dark);
    let r4 = r3.push(("sync_api_key"@, s.sync_api_key));
    lemma_step(d, c, r3, "sync_api_key"@, s.sync_api_key);
    lemma_sync_api_key(with_entries(d, c, r3), c, s.sync_api_key);
    let r5 = r4.push(("sync_bookmarks"@, settings::truth(s.sync_bookmarks)));
    lemma_step(d, c, r4, "sync_bookmarks"@, settings::truth(s.sync_bookmarks));
    lemma_sync_bookmarks(with_entries(d, c, r4), c, s.sync_bookmarks);
    let r6 = r5.push(("sync_history"@, settings::truth(s.sync_history)));
    lemma_step(d, c, r5, "sync_history"@, settings::truth(s.sync_history));
    lemma_sync_history(with_entries(d, c, r5), c, s.sync_history);
    assert(settings::general_entries(s) =~= r6);
}

proof fn lemma_guards(d: SettingsView, s: SettingsView, c: CatalogView)
    requires
        is_keepable(s, c),
    ensures
        ({
            let r = with_entries(d, c, settings::guard_entries(s));
            &&& r.search == d.search
            &&& r.accent == d.accent
            &&& r.dark == d.dark
            &&& r.sync_api_key == d.sync_api_key
            &&& r.sync_bookmarks == d.sync_bookmarks
            &&& r.sync_history == d.sync_history
            &&& r.sync_passwords == s.sync_passwords
            &&& r.remember_passphrase == s.remember_passphrase
            &&& r.block_ads == s.block_ads
            &&& r.force_dark == s.force_dark
            &&& r.wallpaper == s.wallpaper
            &&& r.theme_base_explicit == d.theme_base_explicit
            &&& r.theme == d.theme
            &&& r.modules == d.modules
        }),
{
    let r0 = Seq::<(Seq<char>, Seq<char>)>::empty();
    lemma_no_entries(d, c);
    let r1 = r0.push(("sync_passwords"@, settings::truth(s.sync_passwords)));
    lemma_step(d, c, r0, "sync_passwords"@, settings::truth(s.sync_passwords));
    lemma_sync_passwords(with_entries(d, c, r0), c, s.sync_passwords);
    let r2 = r1.push(("remember_passphrase"@, settings::truth(s.remember_passphrase)));
    lemma_step(d, c, r1, "remember_passphrase"@, settings::truth(s.remember_passphrase));
    lemma_remember_passphrase(with_entries(d, c, r1), c, s.remember_passphrase);
    let r3 = r2.push(("block_ads"@, settings::truth(s.block_ads)));
    lemma_step(d, c, r2, "block_ads"@, settings::truth(s.block_ads));
    lemma_block_ads(with_entries(d, c, r2), c, s.block_ads);
    let r4 = r3.push(("force_dark"@, settings::truth(s.force_dark)));
    lemma_step(d, c, r3, "force_dark"@, settings::truth(s.force_dark));
    lemma_force_dark(with_entries(d, c, r3), c, s.force_dark);
    let r5 = r4.push(("wallpaper"@, s.wallpaper));
    lemma_step(d, c, r4, "wallpaper"@, s.wallpaper);
    lemma_wallpaper(with_entries(d, c, r4), c, s.wallpaper);
    assert(settings::guard_entries(s) =~= r5);
}

proof fn lemma_choices(d: SettingsView, s: SettingsView, c: CatalogView)
    requires
        is_keepable(s, c),
    ensures
        ({
            let r = with_entries(d, c, settings::choice_entries(s));
            &&& r.theme == (ThemeView {
                radius: d.theme.radius,
                glass: d.theme.glass,
                tab_max_w: d.theme.tab_max_w,
                ..s.theme
            })
            &&& r.modules == d.modules
            &&& same_switches(r, d)
        }),
{
    let r0 = Seq::<(Seq<char>, Seq<char>)>::empty();
    lemma_no_entries(d, c);
    lemma_theme_keys();
    let r1 = r0.push(("th_base"@, s.theme.base));
    lemma_step(d, c, r0, "th_base"@, s.theme.base);
    lemma_other_key(with_entries(d, c, r0), c, "th_base"@, s.theme.base);
    lemma_theme_key(with_entries(d, c, r0).modules, "th_base"@, s.theme.base);
    lemma_theme_effects(with_entries(d, c, r0).theme, c, s.theme.base);
    let r2 = r1.push(("th_accent"@, s.theme.accent));
    lemma_step(d, c, r1, "th_accent"@, s.theme.accent);
    lemma_other_key(with_entries(d, c, r1), c, "th_accent"@, s.theme.accent);
    lemma_theme_key(with_entries(d, c, r1).modules, "th_accent"@, s.theme.accent);
    lemma_theme_effects(with_entries(d, c, r1).theme, c, s.theme.accent);
    let r3 = r2.push(("th_density"@, s.theme.density));
    lemma_step(d, c, r2, "th_density"@, s.theme.density);
    lemma_other_key(with_entries(d, c, r2), c, "th_density"@, s.theme.density);
    lemma_theme_key(with_entries(d, c, r2).modules, "th_density"@, s.theme.density);
    lemma_theme_effects(with_entries(d, c, r2).theme, c, s.theme.density);
    let r4 = r3.push(("th_font"@, s.theme.font));
    lemma_step(d, c, r3, "th_font"@, s.theme.font);
    lemma_other_key(with_entries(d, c, r3), c, "th_font"@, s.theme.font);
    lemma_theme_key(with_entries(d, c, r3).modules, "th_font"@, s.theme.font);
    lemma_theme_effects(with_entries(d, c, r3).theme, c, s.theme.font);
    let r5 = r4.push(("th_tabpos"@, s.theme.tab_pos));
    lemma_step(d, c, r4, "th_tabpos"@, s.theme.tab_pos);
    lemma_other_key(with_entries(d, c, r4), c, "th_tabpos"@, s.theme.tab_pos);
    lemma_theme_key(with_entries(d, c, r4).modules, "th_tabpos"@, s.theme.tab_pos);
    lemma_theme_effects(with_entries(d, c, r4).theme, c, s.theme.tab_pos);
    let r6 = r5.push(("th_wallpaper"@, s.theme.wallpaper));
    lemma_step(d, c, r5, "th_wallpaper"@, s.theme.wallpaper);
    lemma_other_key(with_entries(d, c, r5), c, "th_wallpaper"@, s.theme.wallpaper);
    lemma_theme_key(with_entries(d, c, r5).modules, "th_wallpaper"@, s.theme.wallpaper);
    lemma_theme_effects(with_entries(d, c, r5).theme, c, s.theme.wallpaper);
    let r7 = r6.push(("th_tabfit"@, s.theme.tab_fit));
    lemma_step(d, c, r6, "th_tabfit"@, s.theme.tab_fit);
    lemma_other_key(with_entries(d, c, r6), c, "th_tabfit"@, s.theme.tab_fit);
    lemma_theme_key(with_entries(d, c, r6).modules, "th_tabfit"@, s.theme.tab_fit);
    lemma_theme_effects(with_entries(d, c, r6).theme, c, s.theme.tab_fit);
    assert(settings::choice_entries(s) =~= r7);
}

proof fn lemma_measures(d: SettingsView, s: SettingsView, c: CatalogView)
    requires
        is_keepable(s, c),
    ensures
        ({
            let r = with_entries(d, c, settings::measure_entries(s));
            &&& r.theme == (ThemeView {
                radius: s.theme.radius,
                glass: s.theme.glass,
                tab_max_w: s.theme.tab_max_w,
                ..d.theme
            })
            &&& r.modules == d.modules
            &&& agree_but(r, SettingsView { theme: r.theme, ..d }, 11)
            &&& r.theme_base_explicit == s.theme_base_explicit
        }),
{
    let r0 = Seq::<(Seq<char>, Seq<char>)>::empty();
    lemma_no_entries(d, c);
    lemma_theme_keys();
    let r1 = r0.push(("th_radius"@, number::decimal(s.theme.radius as nat)));
    lemma_step(d, c, r0, "th_radius"@, number::decimal(s.theme.radius as nat));
    lemma_other_key(with_entries(d, c, r0), c, "th_radius"@, number::decimal(s.theme.radius as nat));
    lemma_theme_key(with_entries(d, c, r0).modules, "th_radius"@, number::decimal(s.theme.radius as nat));
    lemma_measure_effects(with_entries(d, c, r0).theme, c, s.theme.radius as nat);
    let r2 = r1.push(("th_glass"@, number::decimal(s.theme.glass as nat)));
    lemma_step(d, c, r1, "th_glass"@, number::decimal(s.theme.glass as nat));
    lemma_other_key(with_entries(d, c, r1), c, "th_glass"@, number::decimal(s.theme.glass as nat));
    lemma_theme_key(with_entries(d, c, r1).modules, "th_glass"@, number::decimal(s.theme.glass as nat));
    lemma_measure_effects(with_entries(d, c, r1).theme, c, s.theme.glass as nat);
    let r3 = r2.push(("th_tabmaxw"@, number::decimal(s.theme.tab_max_w as nat)));
    lemma_step(d, c, r2, "th_tabmaxw"@, number::decimal(s.theme.tab_max_w as nat));
    lemma_other_key(with_entries(d, c, r2), c, "th_tabmaxw"@, number::decimal(s.theme.tab_max_w as nat));
    lemma_theme_key(with_entries(d, c, r2).modules, "th_tabmaxw"@, number::decimal(s.theme.tab_max_w as nat));
    lemma_measure_effects(with_entries(d, c, r2).theme, c, s.theme.tab_max_w as nat);
    let r4 = r3.push(("th_base_explicit"@, settings::truth(s.theme_base_explicit)));
    lemma_step(d, c, r3, "th_base_explicit"@, settings::truth(s.theme_base_explicit));
    lemma_theme_base_explicit(with_entries(d, c, r3), c, s.theme_base_explicit);
    assert(settings::measure_entries(s) =~= r4);
}

proof fn lemma_modules(d: SettingsView, s: SettingsView, c: CatalogView)
    ensures
        ({
            let r = with_entries(d, c, settings::module_entries(s));
            &&& r.modules.clock == s.modules.clock
            &&& r.modules.search == s.modules.search
            &&& r.modules.sites == s.modules.sites
            &&& r.modules.notes == s.modules.notes
            &&& r.modules.feed == s.modules.feed
            &&& r.theme == d.theme
            &&& same_switches(r, d)
        }),
{
    let r0 = Seq::<(Seq<char>, Seq<char>)>::empty();
    lemma_no_entries(d, c);
    lemma_module_keys();
    let r1 = r0.push(("mod_clock"@, settings::truth(s.modules.clock)));
    lemma_step(d, c, r0, "mod_clock"@, settings::truth(s.modules.clock));
    lemma_other_key(with_entries(d, c, r0), c, "mod_clock"@, settings::truth(s.modules.clock));
    lemma_module_key(with_entries(d, c, r0).theme, c, "mod_clock"@, settings::truth(s.modules.clock));
    lemma_module_clock(with_entries(d, c, r0).modules, s.modules.clock);
    let r2 = r1.push(("mod_search"@, settings::truth(s.modules.search)));
    lemma_step(d, c, r1, "mod_search"@, settings::truth(s.modules.search));
    lemma_other_key(with_entries(d, c, r1), c, "mod_search"@, settings::truth(s.modules.search));
    lemma_module_key(with_entries(d, c, r1).theme, c, "mod_search"@, settings::truth(s.modules.search));
    lemma_module_search(with_entries(d, c, r1).modules, s.modules.search);
    let r3 = r2.push(("mod_sites"@, settings::truth(s.modules.sites)));
    lemma_step(d, c, r2, "mod_sites"@, settings::truth(s.modules.sites));
    lemma_other_key(with_entries(d, c, r2), c, "mod_sites"@, settings::truth(s.modules.sites));
    lemma_module_key(with_entries(d, c, r2).theme, c, "mod_sites"@, settings::truth(s.modules.sites));
    lemma_module_sites(with_entries(d, c, r2).modules, s.modules.sites);
    let r4 = r3.push(("mod_notes"@, settings::truth(s.modules.notes)));
    lemma_step(d, c, r3, "mod_notes"@, settings::truth(s.modules.notes));
    lemma_other_key(with_entries(d, c, r3), c, "mod_notes"@, settings::truth(s.modules.notes));
    lemma_module_key(with_entries(d, c, r3).theme, c, "mod_notes"@, settings::truth(s.modules.notes));
    lemma_module_notes(with_entries(d, c, r3).modules, s.modules.notes);
    let r5 = r4.push(("mod_feed"@, settings::truth(s.modules.feed)));
    lemma_step(d, c, r4, "mod_feed"@, settings::truth(s.modules.feed));
    lemma_other_key(with_entries(d, c, r4), c, "mod_feed"@, settings::truth(s.modules.feed));
    lemma_module_key(with_entries(d, c, r4).theme, c, "mod_feed"@, settings::truth(s.modules.feed));
    lemma_module_feed(with_entries(d, c, r4).modules, s.modules.feed);
    assert(settings::module_entries(s) =~= r5);
}

spec fn is_word_char(c: char) -> bool {
    'a' <= c <= 'z' || c == '_'
}

spec fn is_word(k: Seq<char>) -> bool {
    k.len() > 0 && forall|i: int| 0 <= i < k.len() ==> is_word_char(#[trigger] k[i])
}

proof fn lemma_word_entry(k: Seq<char>, v: Seq<char>)
    requires
        is_word(k),
        is_line_value(v),
    ensures
        is_entry((k, v)),
{
    assert(is_word_char(k[0]));
    assert(is_word_char(k[k.len() - 1]));
    text::lemma_trimmed_same(k);
    assert(!k.contains('='));
    assert(!k.contains('\n'));
}

proof fn lemma_truth_value(b: bool)
    ensures
        is_line_value(settings::truth(b)),
{
    reveal(settings::truth);
    reveal_strlit("true");
    reveal_strlit("false");
    text::lemma_trimmed_same(settings::truth(b));
}

proof fn lemma_decimal_value(n: nat)
    ensures
        is_line_value(number::decimal(n)),
{
    number::lemma_decimal(n);
    let d = number::decimal(n);
    assert(number::is_digit(d[0]));
    assert(number::is_digit(d[d.len() - 1]));
    text::lemma_trimmed_same(d);
}

proof fn lemma_colour_value(s: Seq<char>)
    requires
        codec::is_css_hex(s),
    ensures
        is_line_value(s),
{
    assert(number::is_hex_digit(s[s.len() - 1]));
    text::lemma_trimmed_same(s);
}

proof fn lemma_all_entries(s: SettingsView, c: CatalogView)
    requires
        is_keepable(s, c),
    ensures
        all_entries(settings::general_entries(s)),
        all_entries(settings::guard_entries(s)),
        all_entries(settings::choice_entries(s)),
        all_entries(settings::measure_entries(s)),
        all_entries(settings::module_entries(s)),
{
    reveal_strlit("search");
    reveal_strlit("accent");
    reveal_strlit("dark");
    reveal_strlit("sync_api_key");
    reveal_strlit("sync_bookmarks");
    reveal_strlit("sync_history");
    reveal_strlit("sync_passwords");
    reveal_strlit("remember_passphrase");
    reveal_strlit("block_ads");
    reveal_strlit("force_dark");
    reveal_strlit("wallpaper");
    reveal_strlit("th_base_explicit");
    reveal_strlit("th_base");
    reveal_strlit("th_accent");
    reveal_strlit("th_density");
    reveal_strlit("th_font");
    reveal_strlit("th_tabpos");
    reveal_strlit("th_wallpaper");
    reveal_strlit("th_tabfit");
    reveal_strlit("th_radius");
    reveal_strlit("th_glass");
    reveal_strlit("th_tabmaxw");
    reveal_strlit("mod_clock");
    reveal_strlit("mod_search");
    reveal_strlit("mod_sites");
    reveal_strlit("mod_notes");
    reveal_strlit("mod_feed");
    lemma_colour_value(s.accent);
    lemma_truth_value(true);
    lemma_truth_value(false);
    lemma_decimal_value(s.theme.radius as nat);
    lemma_decimal_value(s.theme.glass as nat);
    lemma_decimal_value(s.theme.tab_max_w as nat);
    assert forall|i: int| 0 <= i < settings::general_entries(s).len() implies is_entry(
        #[trigger] settings::general_entries(s)[i],
    ) by {
        let e = settings::general_entries(s)[i];
        lemma_word_entry(e.0, e.1);
    }
    assert forall|i: int| 0 <= i < settings::guard_entries(s).len() implies is_entry(
        #[trigger] settings::guard_entries(s)[i],
    ) by {
        let e = settings::guard_entries(s)[i];
        lemma_word_entry(e.0, e.1);
    }
    assert forall|i: int| 0 <= i < settings::choice_entries(s).len() implies is_entry(
        #[trigger] settings::choice_entries(s)[i],
    ) by {
        let e = settings::choice_entries(s)[i];
        lemma_word_entry(e.0, e.1);
    }
    assert forall|i: int| 0 <= i < settings::measure_entries(s).len() implies is_entry(
        #[trigger] settings::measure_entries(s)[i],
    ) by {
        let e = settings::measure_entries(s)[i];
        lemma_word_entry(e.0, e.1);
    }
    assert forall|i: int| 0 <= i < settings::module_entries(s).len() implies is_entry(
        #[trigger] settings::module_entries(s)[i],
    ) by {
        let e = settings::module_entries(s)[i];
        lemma_word_entry(e.0, e.1);
    }
}

proof fn lemma_entries_are_entries(s: SettingsView, c: CatalogView)
    requires
        is_keepable(s, c),
    ensures
        all_entries(settings::entries(s)),
{
    let a = settings::general_entries(s);
    let g = settings::guard_entries(s);
    let b = settings::choice_entries(s);
    let m = settings::measure_entries(s);
    let d = settings::module_entries(s);
    let e = settings::entries(s);
    lemma_all_entries(s, c);
    assert forall|i: int| 0 <= i < e.len() implies is_entry(#[trigger] e[i]) by {
        let j = i - a.len();
        let k = j - g.len();
        let l = k - b.len();
        if j < 0 {
            assert(e[i] == a[i]);
        } else if k < 0 {
            assert(e[i] == g[j]);
        } else if l < 0 {
            assert(e[i] == b[k]);
        } else if l < m.len() {
            assert(e[i] == m[l]);
        } else {
            assert(e[i] == d[l - m.len()]);
        }
    }
}

proof fn lemma_read_parts(start: SettingsView, s: SettingsView, c: CatalogView)
    requires
        is_keepable(s, c),
    ensures
        ({
            let r = with_entries(start, c, settings::entries(s));
            &&& same_switches(r, s)
            &&& r.theme == s.theme
            &&& r.modules == s.modules
        }),
{
    let a = settings::general_entries(s);
    let g = settings::guard_entries(s);
    let b = settings::choice_entries(s);
    let m = settings::measure_entries(s);
    let d = settings::module_entries(s);
    lemma_with_entries_add(start, c, a + g + b + m, d);
    lemma_with_entries_add(start, c, a + g + b, m);
    lemma_with_entries_add(start, c, a + g, b);
    lemma_with_entries_add(start, c, a, g);
    lemma_general(start, s, c);
    let s1 = with_entries(start, c, a);
    lemma_guards(s1, s, c);
    let s2 = with_entries(s1, c, g);
    lemma_choices(s2, s, c);
    let s3 = with_entries(s2, c, b);
    lemma_measures(s3, s, c);
    let s4 = with_entries(s3, c, m);
    lemma_modules(s4, s, c);
}

/// Settings that the file can hold are read back from it as they were, whatever the look that
/// reading starts from; only the page colours are always those of the look. Settings whose page
/// colours are those of their look are read back unchanged.
pub proof fn settings_round_trip(
    s: SettingsView,
    c: CatalogView,
    theme: ThemeView,
    modules: Modules,
)
    requires
        is_keepable(s, c),
    ensures
        settings::read_settings(settings::settings_text(s), c, theme, modules) == settings::in_look(
            s,
            c,
        ),
        s == settings::in_look(s, c) ==> settings::read_settings(
            settings::settings_text(s),
            c,
            theme,
            modules,
        ) == s,
{
    let e = settings::entries(s);
    let start = settings::defaults(theme, modules);
    lemma_entries_are_entries(s, c);
    lemma_entry_lines(e);
    lemma_with_lines(start, c, e);
    lemma_read_parts(start, s, c);
}

} // verus!

//! The settings page: links that each make one change, and what is set now.

use vstd::prelude::*;
use vstd::string::*;

use crate::codec;
use crate::codec::Rgb;
use crate::number;
use crate::pages;
use crate::pages::Palette;
use crate::preferences;
use crate::settings::{Catalog, CatalogView, Modules, Settings, SettingsView, ThemeView};
use crate::text;

verus! {

/// One of several choices: the value that a link sets, what it is called, and whether it is set.
#[derive(Debug)]
pub struct Choice {
    pub value: String,
    pub label: String,
    pub on: bool,
}

/// A choice that shows a colour.
#[derive(Debug)]
pub struct Swatch {
    pub value: String,
    pub label: String,
    pub colour: Rgb,
    pub on: bool,
}

/// A ready-made look: its two colours and what it is called.
#[derive(Debug)]
pub struct PresetCard {
    pub from: Rgb,
    pub to: Rgb,
    pub label: String,
    pub sub_label: String,
}

/// The choices of the look.
#[derive(Debug)]
pub struct LookChoices {
    pub presets: Vec<PresetCard>,
    pub bases: Vec<Swatch>,
    pub accents: Vec<Swatch>,
    pub fonts: Vec<Choice>,
    pub densities: Vec<Choice>,
    pub tab_positions: Vec<Choice>,
    pub wallpapers: Vec<Choice>,
}

/// The mark on what is set.
pub open spec fn on_mark(on: bool) -> Seq<char> {
    if on {
        " on"@
    } else {
        ""@
    }
}

fn mark_on(on: bool) -> (r: &'static str)
    ensures
        r@ == on_mark(on),
{
    if on {
        " on"
    } else {
        ""
    }
}

/// The word for a switch.
pub open spec fn switch_word(on: bool) -> Seq<char> {
    if on {
        "on"@
    } else {
        "off"@
    }
}

fn word_for(on: bool) -> (r: &'static str)
    ensures
        r@ == switch_word(on),
{
    if on {
        "on"
    } else {
        "off"
    }
}

/// A switch: a link that sets the opposite.
pub open spec fn toggle_text(key: Seq<char>, on: bool, section: Seq<char>) -> Seq<char> {
    "<a class=\"tog"@ + on_mark(on) + "\" href=\"gator://settings?"@ + key + "="@ + switch_word(!on)
        + "#"@ + section + "\"><span class=\"knob\"></span></a>"@
}

/// A switch: a link that sets the opposite.
pub fn toggle_link(key: &str, on: bool, section: &str) -> (r: String)
    ensures
        r@ == toggle_text(key@, on, section@),
{
    let mut out: String = "<a class=\"tog".to_owned();
    out.append(mark_on(on));
    out.append("\" href=\"gator://settings?");
    out.append(key);
    out.append("=");
    out.append(word_for(!on));
    out.append("#");
    out.append(section);
    out.append("\"><span class=\"knob\"></span></a>");
    out
}

/// A switch offers the opposite of what is set, so that following it twice comes back.
pub proof fn switches_offer_the_opposite(on: bool)
    ensures
        switch_word(!on) != switch_word(on),
        (switch_word(!on) == "on"@) == !on,
{
    reveal_strlit("on");
    reveal_strlit("off");
    assert("on"@.len() != "off"@.len());
}

// ---------------------------------------------------------------------------
// Search engines
// ---------------------------------------------------------------------------

/// A search engine's link.
pub open spec fn engine_pill(i: int, search: Seq<char>) -> Seq<char> {
    let e = preferences::search_engines()[i];
    "<a class=\"pill"@ + on_mark(e.1 == search) + "\" href=\"gator://settings?engine="@
        + number::decimal(i as nat) + "\">"@ + codec::html(e.0) + "</a>"@
}

/// The first `n` search engines' links.
pub open spec fn engine_pills(search: Seq<char>, n: nat) -> Seq<char>
    decreases n,
{
    if n == 0 {
        Seq::empty()
    } else {
        engine_pills(search, (n - 1) as nat) + engine_pill(n - 1, search)
    }
}

/// The search address is that of one of the engines.
pub open spec fn is_engine(search: Seq<char>) -> bool {
    exists|i: int|
        0 <= i < preferences::search_engines().len() && (
        #[trigger] preferences::search_engines()[i]).1 == search
}

/// The links of all search engines, and the mark for an address of the user's own.
pub open spec fn engines_text(search: Seq<char>) -> Seq<char> {
    engine_pills(search, preferences::search_engines().len()) + ("<span class=\"pill"@ + on_mark(
        !is_engine(search),
    ) + "\">Custom</span>"@)
}

fn write_engines(search: &str) -> (r: String)
    ensures
        r@ == engines_text(search@),
{
    let mut out: String = String::new();
    let mut known: bool = false;
    let mut i: usize = 0;
    assert(out@ =~= engine_pills(search@, 0));
    while i < 4
        invariant
            i <= 4,
            preferences::search_engines().len() == 4,
            out@ == engine_pills(search@, i as nat),
            known == exists|j: int|
                0 <= j < i && (#[trigger] preferences::search_engines()[j]).1 == search@,
        decreases 4 - i,
    {
        match preferences::search_engine(i) {
            Some(e) => {
                let on: bool = text::same(e.1, search);
                let mut pill: String = "<a class=\"pill".to_owned();
                pill.append(mark_on(on));
                pill.append("\" href=\"gator://settings?engine=");
                pill.append(number::decimal_string(i as u64).as_str());
                pill.append("\">");
                pill.append(codec::html_escape(e.0).as_str());
                pill.append("</a>");
                assert(pill@ == engine_pill(i as int, search@));
                out.append(pill.as_str());
                if on {
                    known = true;
                    assert(preferences::search_engines()[i as int].1 == search@);
                }
            },
            None => {},
        }
        i = i + 1;
    }
    let mut own: String = "<span class=\"pill".to_owned();
    own.append(mark_on(!known));
    own.append("\">Custom</span>");
    out.append(own.as_str());
    out
}

// ---------------------------------------------------------------------------
// The look
// ---------------------------------------------------------------------------

/// A choice's link.
pub open spec fn pill_text(
    param: Seq<char>,
    section: Seq<char>,
    value: Seq<char>,
    label: Seq<char>,
    on: bool,
) -> Seq<char> {
    "<a class=\"pill"@ + on_mark(on) + "\" href=\"gator://settings?"@ + param + "="@ + value + "#"@
        + section + "\">"@ + codec::html(label) + "</a>"@
}

/// The links of some choices.
pub open spec fn pills_text(param: Seq<char>, section: Seq<char>, c: Seq<Choice>) -> Seq<char>
    decreases c.len(),
{
    if c.len() == 0 {
        Seq::empty()
    } else {
        pills_text(param, section, c.drop_last()) + pill_text(
            param,
            section,
            c.last().value@,
            c.last().label@,
            c.last().on,
        )
    }
}

fn write_pill(param: &str, section: &str, value: &str, label: &str, on: bool) -> (r: String)
    ensures
        r@ == pill_text(param@, section@, value@, label@, on),
{
    let mut out: String = "<a class=\"pill".to_owned();
    out.append(mark_on(on));
    out.append("\" href=\"gator://settings?");
    out.append(param);
    out.append("=");
    out.append(value);
    out.append("#");
    out.append(section);
    out.append("\">");
    out.append(codec::html_escape(label).as_str());
    out.append("</a>");
    out
}

fn write_pills(param: &str, section: &str, c: &Vec<Choice>) -> (r: String)
    ensures
        r@ == pills_text(param@, section@, c@),
{
    let mut out: String = String::new();
    let mut i: usize = 0;
    assert(out@ =~= pills_text(param@, section@, c@.take(0)));
    while i < c.len()
        invariant
            i <= c@.len(),
            out@ == pills_text(param@, section@, c@.take(i as int)),
        decreases c@.len() - i,
    {
        assert(c@.take(i + 1).drop_last() =~= c@.take(i as int));
        out.append(
            write_pill(param, section, c[i].value.as_str(), c[i].label.as_str(), c[i].on).as_str(),
        );
        i = i + 1;
    }
    assert(c@.take(c@.len() as int) =~= c@);
    out
}

/// A ready-made look's card.
pub open spec fn card_text(p: PresetCard, i: nat) -> Seq<char> {
    "<a class=\"preset\" href=\"gator://settings?preset="@ + number::decimal(i)
        + "#appearance\"><span class=\"pg\" style=\"background:linear-gradient(135deg,"@
        + codec::colour_text(p.from) + ","@ + codec::colour_text(p.to)
        + ")\"></span><span class=\"pmeta\"><b>"@ + codec::html(p.label@) + "</b><span>"@
        + codec::html(p.sub_label@) + "</span></span></a>"@
}

/// The cards of the ready-made looks.
pub open spec fn cards_text(p: Seq<PresetCard>) -> Seq<char>
    decreases p.len(),
{
    if p.len() == 0 {
        Seq::empty()
    } else {
        cards_text(p.drop_last()) + card_text(p.last(), (p.len() - 1) as nat)
    }
}

fn write_cards(p: &Vec<PresetCard>) -> (r: String)
    ensures
        r@ == cards_text(p@),
{
    let mut out: String = String::new();
    let mut i: usize = 0;
    assert(out@ =~= cards_text(p@.take(0)));
    while i < p.len()
        invariant
            i <= p@.len(),
            out@ == cards_text(p@.take(i as int)),
        decreases p@.len() - i,
    {
        assert(p@.take(i + 1).drop_last() =~= p@.take(i as int));
        let mut card: String = "<a class=\"preset\" href=\"gator://settings?preset=".to_owned();
        card.append(number::decimal_string(i as u64).as_str());
        card.append(
            "#appearance\"><span class=\"pg\" style=\"background:linear-gradient(135deg,",
        );
        card.append(codec::color_hex(p[i].from).as_str());
        card.append(",");
        card.append(codec::color_hex(p[i].to).as_str());
        card.append(")\"></span><span class=\"pmeta\"><b>");
        card.append(codec::html_escape(p[i].label.as_str()).as_str());
        card.append("</b><span>");
        card.append(codec::html_escape(p[i].sub_label.as_str()).as_str());
        card.append("</span></span></a>");
        assert(card@ == card_text(p@[i as int], i as nat));
        out.append(card.as_str());
        i = i + 1;
    }
    assert(p@.take(p@.len() as int) =~= p@);
    out
}

/// A base's link, with its colour on a chip.
pub open spec fn base_text(s: Swatch) -> Seq<char> {
    "<a class=\"srf"@ + on_mark(s.on) + "\" href=\"gator://settings?base="@ + s.value@
        + "#appearance\"><span class=\"chip\" style=\"background:"@ + codec::colour_text(s.colour)
        + "\"></span>"@ + codec::html(s.label@) + "</a>"@
}

/// The links of the bases.
pub open spec fn bases_text(s: Seq<Swatch>) -> Seq<char>
    decreases s.len(),
{
    if s.len() == 0 {
        Seq::empty()
    } else {
        bases_text(s.drop_last()) + base_text(s.last())
    }
}

fn write_bases(s: &Vec<Swatch>) -> (r: String)
    ensures
        r@ == bases_text(s@),
{
    let mut out: String = String::new();
    let mut i: usize = 0;
    assert(out@ =~= bases_text(s@.take(0)));
    while i < s.len()
        invariant
            i <= s@.len(),
            out@ == bases_text(s@.take(i as int)),
        decreases s@.len() - i,
    {
        assert(s@.take(i + 1).drop_last() =~= s@.take(i as int));
        let mut link: String = "<a class=\"srf".to_owned();
        link.append(mark_on(s[i].on));
        link.append("\" href=\"gator://settings?base=");
        link.append(s[i].value.as_str());
        link.append("#appearance\"><span class=\"chip\" style=\"background:");
        link.append(codec::color_hex(s[i].colour).as_str());
        link.append("\"></span>");
        link.append(codec::html_escape(s[i].label.as_str()).as_str());
        link.append("</a>");
        assert(link@ == base_text(s@[i as int]));
        out.append(link.as_str());
        i = i + 1;
    }
    assert(s@.take(s@.len() as int) =~= s@);
    out
}

/// An accent's link, in its colour.
pub open spec fn accent_text(s: Swatch) -> Seq<char> {
    "<a class=\"sw"@ + on_mark(s.on) + "\" style=\"background:"@ + codec::colour_text(s.colour)
        + "\" href=\"gator://settings?accentk="@ + s.value@ + "#appearance\" title=\""@
        + codec::html(s.label@) + "\"></a>"@
}

/// The links of the accents.
pub open spec fn accents_text(s: Seq<Swatch>) -> Seq<char>
    decreases s.len(),
{
    if s.len() == 0 {
        Seq::empty()
    } else {
        accents_text(s.drop_last()) + accent_text(s.last())
    }
}

fn write_accents(s: &Vec<Swatch>) -> (r: String)
    ensures
        r@ == accents_text(s@),
{
    let mut out: String = String::new();
    let mut i: usize = 0;
    assert(out@ =~= accents_text(s@.take(0)));
    while i < s.len()
        invariant
            i <= s@.len(),
            out@ == accents_text(s@.take(i as int)),
        decreases s@.len() - i,
    {
        assert(s@.take(i + 1).drop_last() =~= s@.take(i as int));
        let mut link: String = "<a class=\"sw".to_owned();
        link.append(mark_on(s[i].on));
        link.append("\" style=\"background:");
        link.append(codec::color_hex(s[i].colour).as_str());
        link.append("\" href=\"gator://settings?accentk=");
        link.append(s[i].value.as_str());
        link.append("#appearance\" title=\"");
        link.append(codec::html_escape(s[i].label.as_str()).as_str());
        link.append("\"></a>");
        assert(link@ == accent_text(s@[i as int]));
        out.append(link.as_str());
        i = i + 1;
    }
    assert(s@.take(s@.len() as int) =~= s@);
    out
}

/// How tabs are fitted: over the whole width, or to their titles.
pub open spec fn fits_text(fit: Seq<char>, c: CatalogView) -> Seq<char> {
    pill_text("tabfit"@, "appearance"@, "fill"@, "Fill width"@, fit == c.fill) + pill_text(
        "tabfit"@,
        "appearance"@,
        "fit"@,
        "Fit to title"@,
        fit == c.fit,
    )
}

/// How far two numbers are apart.
pub open spec fn apart(a: int, b: int) -> int {
    if a < b {
        b - a
    } else {
        a - b
    }
}

/// The place, among the first `n` steps, of the one nearest to a value; of two that are as near,
/// the first.
pub open spec fn nearest(cur: u16, steps: Seq<u16>, n: nat) -> int
    decreases n,
{
    if n <= 1 {
        0
    } else {
        let best = nearest(cur, steps, (n - 1) as nat);
        if apart(steps[n - 1] as int, cur as int) < apart(steps[best] as int, cur as int) {
            n - 1
        } else {
            best
        }
    }
}

/// The step that is marked is one of those offered, and none is nearer to what is set.
pub proof fn the_nearest_step_is_marked(cur: u16, steps: Seq<u16>, n: nat)
    requires
        0 < n <= steps.len(),
    ensures
        0 <= nearest(cur, steps, n) < n,
        forall|i: int|
            0 <= i < n ==> apart(steps[nearest(cur, steps, n)] as int, cur as int) <= apart(
                (#[trigger] steps[i]) as int,
                cur as int,
            ),
    decreases n,
{
    if n > 1 {
        the_nearest_step_is_marked(cur, steps, (n - 1) as nat);
    }
}

/// A step's link.
pub open spec fn step_text(param: Seq<char>, v: u16, on: bool) -> Seq<char> {
    "<a class=\"pill"@ + on_mark(on) + "\" href=\"gator://settings?"@ + param + "="@
        + number::decimal(v as nat) + "#appearance\">"@ + number::decimal(v as nat) + "px</a>"@
}

/// The first `n` steps' links.
pub open spec fn steps_text(param: Seq<char>, cur: u16, steps: Seq<u16>, n: nat) -> Seq<char>
    decreases n,
{
    if n == 0 {
        Seq::empty()
    } else {
        steps_text(param, cur, steps, (n - 1) as nat) + step_text(
            param,
            steps[n - 1],
            steps[n - 1] == steps[nearest(cur, steps, steps.len())],
        )
    }
}

fn distance(a: u16, b: u16) -> (r: u16)
    ensures
        r == apart(a as int, b as int),
{
    if a < b {
        b - a
    } else {
        a - b
    }
}

/// The links for a measure: a step each, the one nearest to what is set marked.
pub fn step_pills(param: &str, cur: u16, steps: &Vec<u16>) -> (r: String)
    ensures
        r@ == steps_text(param@, cur, steps@, steps@.len()),
{
    let mut out: String = String::new();
    assert(out@ =~= Seq::<char>::empty());
    if steps.len() == 0 {
        return out;
    }
    let mut best: usize = 0;
    let mut i: usize = 1;
    while i < steps.len()
        invariant
            1 <= i <= steps@.len(),
            best < i,
            best == nearest(cur, steps@, i as nat),
        decreases steps@.len() - i,
    {
        if distance(steps[i], cur) < distance(steps[best], cur) {
            best = i;
        }
        i = i + 1;
    }
    let closest: u16 = steps[best];
    let mut k: usize = 0;
    while k < steps.len()
        invariant
            k <= steps@.len(),
            closest == steps@[nearest(cur, steps@, steps@.len())],
            out@ == steps_text(param@, cur, steps@, k as nat),
        decreases steps@.len() - k,
    {
        let v: u16 = steps[k];
        let mut pill: String = "<a class=\"pill".to_owned();
        pill.append(mark_on(v == closest));
        pill.append("\" href=\"gator://settings?");
        pill.append(param);
        pill.append("=");
        pill.append(number::decimal_string(v as u64).as_str());
        pill.append("#appearance\">");
        pill.append(number::decimal_string(v as u64).as_str());
        pill.append("px</a>");
        assert(pill@ == step_text(param@, v, v == closest));
        out.append(pill.as_str());
        k = k + 1;
    }
    out
}

/// The steps for the corner radius.
pub open spec fn radius_steps() -> Seq<u16> {
    seq![0u16, 6u16, 12u16, 18u16, 24u16, 30u16]
}

/// The steps for the translucency.
pub open spec fn glass_steps() -> Seq<u16> {
    seq![0u16, 12u16, 24u16, 36u16, 48u16, 60u16]
}

/// The steps for the greatest width of a tab.
pub open spec fn width_steps() -> Seq<u16> {
    seq![140u16, 180u16, 220u16, 260u16, 300u16, 340u16]
}

/// A part of the new-tab page, with its switch.
pub open spec fn module_text(key: Seq<char>, label: Seq<char>, on: bool) -> Seq<char> {
    "<div class=\"trow\"><span>"@ + codec::html(label) + "</span><a class=\"tog"@ + on_mark(on)
        + "\" href=\"gator://settings?module="@ + key + ":"@ + switch_word(!on)
        + "#newtab\"><span class=\"knob\"></span></a></div>"@
}

/// The parts of the new-tab page, with their switches.
pub open spec fn modules_text(m: Modules) -> Seq<char> {
    module_text("clock"@, "Clock & greeting"@, m.clock) + module_text(
        "search"@,
        "Search bar"@,
        m.search,
    ) + module_text("sites"@, "Top sites"@, m.sites) + module_text("notes"@, "Notes"@, m.notes)
        + module_text("feed"@, "Reading list"@, m.feed)
}

fn write_module(key: &str, label: &str, on: bool) -> (r: String)
    ensures
        r@ == module_text(key@, label@, on),
{
    let mut out: String = "<div class=\"trow\"><span>".to_owned();
    out.append(codec::html_escape(label).as_str());
    out.append("</span><a class=\"tog");
    out.append(mark_on(on));
    out.append("\" href=\"gator://settings?module=");
    out.append(key);
    out.append(":");
    out.append(word_for(!on));
    out.append("#newtab\"><span class=\"knob\"></span></a></div>");
    out
}

fn write_modules(m: Modules) -> (r: String)
    ensures
        r@ == modules_text(m),
{
    let mut out: String = write_module("clock", "Clock & greeting", m.clock);
    out.append(write_module("search", "Search bar", m.search).as_str());
    out.append(write_module("sites", "Top sites", m.sites).as_str());
    out.append(write_module("notes", "Notes", m.notes).as_str());
    out.append(write_module("feed", "Reading list", m.feed).as_str());
    out
}

/// A page with the controls of the look in their slots.
pub open spec fn with_look_controls(
    page: Seq<char>,
    t: ThemeView,
    m: Modules,
    c: CatalogView,
    l: LookChoices,
) -> Seq<char> {
    let look = "appearance"@;
    let x = text::replaced(page, "__PRESET_CARDS__"@, cards_text(l.presets@));
    let x = text::replaced(x, "__BASE_PILLS__"@, bases_text(l.bases@));
    let x = text::replaced(x, "__ACCENT_SWATCHES__"@, accents_text(l.accents@));
    let x = text::replaced(x, "__FONT_PILLS__"@, pills_text("font"@, look, l.fonts@));
    let x = text::replaced(x, "__DENSITY_PILLS__"@, pills_text("density"@, look, l.densities@));
    let x = text::replaced(x, "__TABPOS_PILLS__"@, pills_text("tabpos"@, look, l.tab_positions@));
    let x = text::replaced(x, "__TABFIT_PILLS__"@, fits_text(t.tab_fit, c));
    let x = text::replaced(
        x,
        "__WALLPAPER_PILLS__"@,
        pills_text("wallpaper"@, look, l.wallpapers@),
    );
    let x = text::replaced(
        x,
        "__RADIUS_PILLS__"@,
        steps_text("radius"@, t.radius as u16, radius_steps(), 6),
    );
    let x = text::replaced(
        x,
        "__GLASS_PILLS__"@,
        steps_text("glass"@, t.glass as u16, glass_steps(), 6),
    );
    let x = text::replaced(
        x,
        "__TABMAXW_PILLS__"@,
        steps_text("tabmaxw"@, t.tab_max_w, width_steps(), 6),
    );
    text::replaced(x, "__MODULE_TOGGLES__"@, modules_text(m))
}

fn fill_look(page: &str, s: &Settings, c: &Catalog, l: &LookChoices) -> (r: String)
    ensures
        r@ == with_look_controls(page@, s.theme@, s.modules, c@, *l),
{
    let fit: &str = s.theme.tab_fit.as_str();
    let mut fits: String = write_pill(
        "tabfit",
        "appearance",
        "fill",
        "Fill width",
        text::same(fit, c.fill.as_str()),
    );
    fits.append(
        write_pill(
            "tabfit",
            "appearance",
            "fit",
            "Fit to title",
            text::same(fit, c.fit.as_str()),
        ).as_str(),
    );
    let radii: Vec<u16> = vec![0u16, 6u16, 12u16, 18u16, 24u16, 30u16];
    assert(radii@ =~= radius_steps());
    let glass: Vec<u16> = vec![0u16, 12u16, 24u16, 36u16, 48u16, 60u16];
    assert(glass@ =~= glass_steps());
    let widths: Vec<u16> = vec![140u16, 180u16, 220u16, 260u16, 300u16, 340u16];
    assert(widths@ =~= width_steps());
    let x: String = pages::fill(page, "__PRESET_CARDS__", write_cards(&l.presets).as_str());
    let x: String = pages::fill(x.as_str(), "__BASE_PILLS__", write_bases(&l.bases).as_str());
    let x: String = pages::fill(
        x.as_str(),
        "__ACCENT_SWATCHES__",
        write_accents(&l.accents).as_str(),
    );
    let x: String = pages::fill(
        x.as_str(),
        "__FONT_PILLS__",
        write_pills("font", "appearance", &l.fonts).as_str(),
    );
    let x: String = pages::fill(
        x.as_str(),
        "__DENSITY_PILLS__",
        write_pills("density", "appearance", &l.densities).as_str(),
    );
    let x: String = pages::fill(
        x.as_str(),
        "__TABPOS_PILLS__",
        write_pills("tabpos", "appearance", &l.tab_positions).as_str(),
    );
    let x: String = pages::fill(x.as_str(), "__TABFIT_PILLS__", fits.as_str());
    let x: String = pages::fill(
        x.as_str(),
        "__WALLPAPER_PILLS__",
        write_pills("wallpaper", "appearance", &l.wallpapers).as_str(),
    );
    let x: String = pages::fill(
        x.as_str(),
        "__RADIUS_PILLS__",
        step_pills("radius", s.theme.radius as u16, &radii).as_str(),
    );
    let x: String = pages::fill(
        x.as_str(),
        "__GLASS_PILLS__",
        step_pills("glass", s.theme.glass as u16, &glass).as_str(),
    );
    let x: String = pages::fill(
        x.as_str(),
        "__TABMAXW_PILLS__",
        step_pills("tabmaxw", s.theme.tab_max_w, &widths).as_str(),
    );
    pages::fill(x.as_str(), "__MODULE_TOGGLES__", write_modules(s.modules).as_str())
}

// ---------------------------------------------------------------------------
// The page
// ---------------------------------------------------------------------------

/// What the page says of the password store: locked, or how many logins it holds.
pub open spec fn vault_text(saved: Option<usize>) -> Seq<char> {
    match saved {
        Some(n) => "Unlocked — "@ + number::decimal(n as nat)
            + " saved. Lock or unlock from the ☰ menu."@,
        None => "Locked — unlock from the ☰ menu to enable autofill."@,
    }
}

fn write_vault(saved: Option<usize>) -> (r: String)
    ensures
        r@ == vault_text(saved),
{
    match saved {
        Some(n) => {
            let mut out: String = "Unlocked — ".to_owned();
            out.append(number::decimal_string(n as u64).as_str());
            out.append(" saved. Lock or unlock from the ☰ menu.");
            out
        },
        None => "Locked — unlock from the ☰ menu to enable autofill.".to_owned(),
    }
}

/// What the page says of the sync key: whether there is one, never which.
pub open spec fn key_text(key: Seq<char>) -> Seq<char> {
    if key.len() == 0 {
        "Not set"@
    } else {
        "Set (hidden)"@
    }
}

/// What happens besides the settings.
#[derive(Debug)]
pub struct Doings {
    /// How many requests were blocked.
    pub blocked: u64,
    pub import_msg: String,
    pub sync_status: String,
    /// How many logins the password store holds, where it is unlocked.
    pub saved: Option<usize>,
}

/// A page with everything but the look in its slots.
pub open spec fn with_other_controls(page: Seq<char>, s: SettingsView, d: Doings) -> Seq<char> {
    let x = text::replaced(page, "__ENGINE_PILLS__"@, engines_text(s.search));
    let x = text::replaced(x, "__SEARCH_VALUE__"@, codec::html(s.search));
    let x = text::replaced(
        x,
        "__ADS_TOGGLE__"@,
        toggle_text("block_ads"@, s.block_ads, "privacy"@),
    );
    let x = text::replaced(x, "__ADS_BLOCKED__"@, number::decimal(d.blocked as nat));
    let x = text::replaced(
        x,
        "__SYNC_BOOKMARKS__"@,
        toggle_text("sync_bookmarks"@, s.sync_bookmarks, "sync"@),
    );
    let x = text::replaced(
        x,
        "__SYNC_HISTORY__"@,
        toggle_text("sync_history"@, s.sync_history, "sync"@),
    );
    let x = text::replaced(
        x,
        "__SYNC_PASSWORDS__"@,
        toggle_text("sync_passwords"@, s.sync_passwords, "sync"@),
    );
    let x = text::replaced(x, "__KEY_STATUS__"@, key_text(s.sync_api_key));
    let x = text::replaced(x, "__IMPORT_MSG__"@, codec::html(d.import_msg@));
    let x = text::replaced(x, "__SYNC_STATUS__"@, codec::html(d.sync_status@));
    text::replaced(x, "__PW_STATE__"@, codec::html(vault_text(d.saved)))
}

fn fill_others(page: &str, s: &Settings, d: &Doings) -> (r: String)
    ensures
        r@ == with_other_controls(page@, s@, *d),
{
    let key: &str = if s.sync_api_key.as_str().unicode_len() == 0 {
        "Not set"
    } else {
        "Set (hidden)"
    };
    let x: String = pages::fill(page, "__ENGINE_PILLS__", write_engines(s.search.as_str()).as_str());
    let x: String = pages::fill(
        x.as_str(),
        "__SEARCH_VALUE__",
        codec::html_escape(s.search.as_str()).as_str(),
    );
    let x: String = pages::fill(
        x.as_str(),
        "__ADS_TOGGLE__",
        toggle_link("block_ads", s.block_ads, "privacy").as_str(),
    );
    let x: String = pages::fill(
        x.as_str(),
        "__ADS_BLOCKED__",
        number::decimal_string(d.blocked).as_str(),
    );
    let x: String = pages::fill(
        x.as_str(),
        "__SYNC_BOOKMARKS__",
        toggle_link("sync_bookmarks", s.sync_bookmarks, "sync").as_str(),
    );
    let x: String = pages::fill(
        x.as_str(),
        "__SYNC_HISTORY__",
        toggle_link("sync_history", s.sync_history, "sync").as_str(),
    );
    let x: String = pages::fill(
        x.as_str(),
        "__SYNC_PASSWORDS__",
        toggle_link("sync_passwords", s.sync_passwords, "sync").as_str(),
    );
    let x: String = pages::fill(x.as_str(), "__KEY_STATUS__", key);
    let x: String = pages::fill(
        x.as_str(),
        "__IMPORT_MSG__",
        codec::html_escape(d.import_msg.as_str()).as_str(),
    );
    let x: String = pages::fill(
        x.as_str(),
        "__SYNC_STATUS__",
        codec::html_escape(d.sync_status.as_str()).as_str(),
    );
    pages::fill(
        x.as_str(),
        "__PW_STATE__",
        codec::html_escape(write_vault(d.saved).as_str()).as_str(),
    )
}

/// The settings page, from its template.
pub open spec fn settings_text(
    template: Seq<char>,
    s: SettingsView,
    c: CatalogView,
    l: LookChoices,
    d: Doings,
    p: Palette,
) -> Seq<char> {
    let x = text::replaced(template, "__ACCENT__"@, s.accent);
    let x = with_look_controls(x, s.theme, s.modules, c, l);
    pages::coloured(with_other_controls(x, s, d), p)
}

/// The settings page, from its template.
pub fn render_gator_settings(
    template: &str,
    s: &Settings,
    c: &Catalog,
    l: &LookChoices,
    d: &Doings,
    p: &Palette,
) -> (r: String)
    ensures
        r@ == settings_text(template@, s@, c@, *l, *d, *p),
{
    let x: String = pages::fill(template, "__ACCENT__", s.accent.as_str());
    let x: String = fill_look(x.as_str(), s, c, l);
    let x: String = fill_others(x.as_str(), s, d);
    pages::themed(x.as_str(), p)
}

/// The sync key is never shown: whatever it is, the page is the same.
pub proof fn the_sync_key_stays_hidden(
    template: Seq<char>,
    s: SettingsView,
    key: Seq<char>,
    c: CatalogView,
    l: LookChoices,
    d: Doings,
    p: Palette,
)
    requires
        s.sync_api_key.len() > 0,
        key.len() > 0,
    ensures
        settings_text(template, SettingsView { sync_api_key: key, ..s }, c, l, d, p)
            == settings_text(template, s, c, l, d, p),
{
}

// ---------------------------------------------------------------------------
// Laws
// ---------------------------------------------------------------------------

/// A switch that is on is marked so and links to switching it off; one that is off, to switching it on.
pub proof fn switches_link_to_the_opposite(key: Seq<char>, section: Seq<char>)
    ensures
        toggle_text(key, true, section) == "<a class=\"tog"@ + " on"@ + "\" href=\"gator://settings?"@ + key
            + "="@ + "off"@ + "#"@ + section + "\"><span class=\"knob\"></span></a>"@,
        toggle_text(key, false, section) == "<a class=\"tog"@ + ""@ + "\" href=\"gator://settings?"@ + key
            + "="@ + "on"@ + "#"@ + section + "\"><span class=\"knob\"></span></a>"@,
        module_text(key, section, true) == "<div class=\"trow\"><span>"@ + codec::html(section)
            + "</span><a class=\"tog"@ + " on"@ + "\" href=\"gator://settings?module="@ + key + ":"@ + "off"@
            + "#newtab\"><span class=\"knob\"></span></a></div>"@,
        module_text(key, section, false) == "<div class=\"trow\"><span>"@ + codec::html(section)
            + "</span><a class=\"tog"@ + ""@ + "\" href=\"gator://settings?module="@ + key + ":"@ + "on"@
            + "#newtab\"><span class=\"knob\"></span></a></div>"@,
{
}

/// A choice is linked by its value and shown by its label, and marked exactly where it is set.
pub proof fn choices_link_to_their_value(
    param: Seq<char>,
    section: Seq<char>,
    c: Seq<Choice>,
    x: Choice,
)
    ensures
        pills_text(param, section, Seq::empty()).len() == 0,
        x.on ==> pills_text(param, section, c.push(x)) == pills_text(param, section, c) + (
        "<a class=\"pill"@ + " on"@ + "\" href=\"gator://settings?"@ + param + "="@ + x.value@ + "#"@
            + section + "\">"@ + codec::html(x.label@) + "</a>"@),
        !x.on ==> pills_text(param, section, c.push(x)) == pills_text(param, section, c) + (
        "<a class=\"pill"@ + ""@ + "\" href=\"gator://settings?"@ + param + "="@ + x.value@ + "#"@ + section
            + "\">"@ + codec::html(x.label@) + "</a>"@),
{
    assert(c.push(x).drop_last() =~= c);
}

/// A search engine is linked by its number and marked exactly where its address is the one set; the
/// mark for an address of the user's own is set exactly where no engine has it.
pub proof fn the_engine_in_use_is_marked(search: Seq<char>, i: int)
    requires
        0 <= i < preferences::search_engines().len(),
    ensures
        engine_pills(search, 0).len() == 0,
        preferences::search_engines()[i].1 == search ==> engine_pills(search, (i + 1) as nat)
            == engine_pills(search, i as nat) + ("<a class=\"pill"@ + " on"@
            + "\" href=\"gator://settings?engine="@ + number::decimal(i as nat) + "\">"@ + codec::html(
            preferences::search_engines()[i].0,
        ) + "</a>"@),
        preferences::search_engines()[i].1 != search ==> engine_pills(search, (i + 1) as nat)
            == engine_pills(search, i as nat) + ("<a class=\"pill"@ + ""@
            + "\" href=\"gator://settings?engine="@ + number::decimal(i as nat) + "\">"@ + codec::html(
            preferences::search_engines()[i].0,
        ) + "</a>"@),
        preferences::search_engines()[i].1 == search ==> engines_text(search) == engine_pills(
            search,
            preferences::search_engines().len(),
        ) + ("<span class=\"pill"@ + ""@ + "\">Custom</span>"@),
        (forall|k: int|
            0 <= k < preferences::search_engines().len() ==> (
            #[trigger] preferences::search_engines()[k]).1 != search) ==> engines_text(search)
            == engine_pills(search, preferences::search_engines().len()) + ("<span class=\"pill"@ + " on"@
            + "\">Custom</span>"@),
{
}

/// The measures that are offered run from none to a good deal, and exactly the nearest to what is set
/// is marked.
pub proof fn the_nearest_measure_is_marked(param: Seq<char>, cur: u16, steps: Seq<u16>, i: int)
    requires
        0 <= i < steps.len(),
        forall|k: int| 0 <= k < steps.len() && k != i ==> apart((#[trigger] steps[k]) as int, cur as int)
            > apart(steps[i] as int, cur as int),
    ensures
        steps_text(param, cur, steps, (i + 1) as nat) == steps_text(param, cur, steps, i as nat) + (
        "<a class=\"pill"@ + " on"@ + "\" href=\"gator://settings?"@ + param + "="@ + number::decimal(
            steps[i] as nat,
        ) + "#appearance\">"@ + number::decimal(steps[i] as nat) + "px</a>"@),
        forall|k: int|
            0 <= k < steps.len() && k != i ==> steps_text(param, cur, steps, (k + 1) as nat) == steps_text(
                param,
                cur,
                steps,
                k as nat,
            ) + ("<a class=\"pill"@ + ""@ + "\" href=\"gator://settings?"@ + param + "="@ + number::decimal(
                (#[trigger] steps[k]) as nat,
            ) + "#appearance\">"@ + number::decimal(steps[k] as nat) + "px</a>"@),
{
    the_nearest_step_is_marked(cur, steps, steps.len());
    let best = nearest(cur, steps, steps.len());
    assert(best == i) by {
        if best != i {
            assert(apart(steps[best] as int, cur as int) <= apart(steps[i] as int, cur as int));
        }
    }
    assert forall|k: int| 0 <= k < steps.len() && k != i implies steps_text(
        param,
        cur,
        steps,
        (k + 1) as nat,
    ) == steps_text(param, cur, steps, k as nat) + ("<a class=\"pill"@ + ""@
        + "\" href=\"gator://settings?"@ + param + "="@ + number::decimal((#[trigger] steps[k]) as nat)
        + "#appearance\">"@ + number::decimal(steps[k] as nat) + "px</a>"@) by {
        assert(steps[k] != steps[i]) by {
            assert(apart(steps[k] as int, cur as int) > apart(steps[i] as int, cur as int));
        }
    }
}

/// The page says whether the password store is locked and, where it is not, how much it holds; of the
/// sync key it says only whether there is one.
pub proof fn states_are_told(n: usize, key: Seq<char>)
    ensures
        vault_text(Some(n)) == "Unlocked — "@ + number::decimal(n as nat)
            + " saved. Lock or unlock from the ☰ menu."@,
        vault_text(None) == "Locked — unlock from the ☰ menu to enable autofill."@,
        key_text(Seq::empty()) == "Not set"@,
        key.len() > 0 ==> key_text(key) == "Set (hidden)"@,
{
}

/// The slots of the settings other than those of the look, each with its text.
#[verifier::opaque]
pub open spec fn other_slots(s: SettingsView, d: Doings) -> Seq<(Seq<char>, Seq<char>)> {
    seq![
        ("__ENGINE_PILLS__"@, engines_text(s.search)),
        ("__SEARCH_VALUE__"@, codec::html(s.search)),
        ("__ADS_TOGGLE__"@, toggle_text("block_ads"@, s.block_ads, "privacy"@)),
        ("__ADS_BLOCKED__"@, number::decimal(d.blocked as nat)),
        ("__SYNC_BOOKMARKS__"@, toggle_text("sync_bookmarks"@, s.sync_bookmarks, "sync"@)),
        ("__SYNC_HISTORY__"@, toggle_text("sync_history"@, s.sync_history, "sync"@)),
        ("__SYNC_PASSWORDS__"@, toggle_text("sync_passwords"@, s.sync_passwords, "sync"@)),
        ("__KEY_STATUS__"@, key_text(s.sync_api_key)),
        ("__IMPORT_MSG__"@, codec::html(d.import_msg@)),
        ("__SYNC_STATUS__"@, codec::html(d.sync_status@)),
        ("__PW_STATE__"@, codec::html(vault_text(d.saved))),
    ]
}

proof fn lemma_other_slots(page: Seq<char>, s: SettingsView, d: Doings)
    ensures
        with_other_controls(page, s, d) == pages::filled_in(page, other_slots(s, d)),
{
    reveal(other_slots);
    let o = other_slots(s, d);
    assert(o.take(11) =~= o);
    reveal_with_fuel(pages::filled_in, 12);
    assert(other_slots(s, d).take(11).drop_last() =~= other_slots(s, d).take(10));
    assert(other_slots(s, d).take(11).last() == other_slots(s, d)[10]);
    assert(other_slots(s, d).take(10).drop_last() =~= other_slots(s, d).take(9));
    assert(other_slots(s, d).take(10).last() == other_slots(s, d)[9]);
    assert(other_slots(s, d).take(9).drop_last() =~= other_slots(s, d).take(8));
    assert(other_slots(s, d).take(9).last() == other_slots(s, d)[8]);
    assert(other_slots(s, d).take(8).drop_last() =~= other_slots(s, d).take(7));
    assert(other_slots(s, d).take(8).last() == other_slots(s, d)[7]);
    assert(other_slots(s, d).take(7).drop_last() =~= other_slots(s, d).take(6));
    assert(other_slots(s, d).take(7).last() == other_slots(s, d)[6]);
    assert(other_slots(s, d).take(6).drop_last() =~= other_slots(s, d).take(5));
    assert(other_slots(s, d).take(6).last() == other_slots(s, d)[5]);
    assert(other_slots(s, d).take(5).drop_last() =~= other_slots(s, d).take(4));
    assert(other_slots(s, d).take(5).last() == other_slots(s, d)[4]);
    assert(other_slots(s, d).take(4).drop_last() =~= other_slots(s, d).take(3));
    assert(other_slots(s, d).take(4).last() == other_slots(s, d)[3]);
    assert(other_slots(s, d).take(3).drop_last() =~= other_slots(s, d).take(2));
    assert(other_slots(s, d).take(3).last() == other_slots(s, d)[2]);
    assert(other_slots(s, d).take(2).drop_last() =~= other_slots(s, d).take(1));
    assert(other_slots(s, d).take(2).last() == other_slots(s, d)[1]);
    assert(other_slots(s, d).take(1).drop_last() =~= other_slots(s, d).take(0));
    assert(other_slots(s, d).take(1).last() == other_slots(s, d)[0]);
}

proof fn lemma_other_names()
    ensures
        pages::is_slot("__ENGINE_PILLS__"@),
        pages::is_slot("__SEARCH_VALUE__"@),
        pages::is_slot("__ADS_TOGGLE__"@),
        pages::is_slot("__ADS_BLOCKED__"@),
        pages::is_slot("__SYNC_BOOKMARKS__"@),
        pages::is_slot("__SYNC_HISTORY__"@),
        pages::is_slot("__SYNC_PASSWORDS__"@),
        pages::is_slot("__KEY_STATUS__"@),
        pages::is_slot("__IMPORT_MSG__"@),
        pages::is_slot("__SYNC_STATUS__"@),
        pages::is_slot("__PW_STATE__"@),
        "__SEARCH_VALUE__"@ != "__ENGINE_PILLS__"@,
        "__ADS_TOGGLE__"@ != "__ENGINE_PILLS__"@,
        "__ADS_TOGGLE__"@ != "__SEARCH_VALUE__"@,
        "__ADS_BLOCKED__"@ != "__ENGINE_PILLS__"@,
        "__ADS_BLOCKED__"@ != "__SEARCH_VALUE__"@,
        "__ADS_BLOCKED__"@ != "__ADS_TOGGLE__"@,
        "__SYNC_BOOKMARKS__"@ != "__ENGINE_PILLS__"@,
        "__SYNC_BOOKMARKS__"@ != "__SEARCH_VALUE__"@,
        "__SYNC_BOOKMARKS__"@ != "__ADS_TOGGLE__"@,
        "__SYNC_BOOKMARKS__"@ != "__ADS_BLOCKED__"@,
        "__SYNC_HISTORY__"@ != "__ENGINE_PILLS__"@,
        "__SYNC_HISTORY__"@ != "__SEARCH_VALUE__"@,
        "__SYNC_HISTORY__"@ != "__ADS_TOGGLE__"@,
        "__SYNC_HISTORY__"@ != "__ADS_BLOCKED__"@,
        "__SYNC_HISTORY__"@ != "__SYNC_BOOKMARKS__"@,
        "__SYNC_PASSWORDS__"@ != "__ENGINE_PILLS__"@,
        "__SYNC_PASSWORDS__"@ != "__SEARCH_VALUE__"@,
        "__SYNC_PASSWORDS__"@ != "__ADS_TOGGLE__"@,
        "__SYNC_PASSWORDS__"@ != "__ADS_BLOCKED__"@,
        "__SYNC_PASSWORDS__"@ != "__SYNC_BOOKMARKS__"@,
        "__SYNC_PASSWORDS__"@ != "__SYNC_HISTORY__"@,
        "__KEY_STATUS__"@ != "__ENGINE_PILLS__"@,
        "__KEY_STATUS__"@ != "__SEARCH_VALUE__"@,
        "__KEY_STATUS__"@ != "__ADS_TOGGLE__"@,
        "__KEY_STATUS__"@ != "__ADS_BLOCKED__"@,
        "__KEY_STATUS__"@ != "__SYNC_BOOKMARKS__"@,
        "__KEY_STATUS__"@ != "__SYNC_HISTORY__"@,
        "__KEY_STATUS__"@ != "__SYNC_PASSWORDS__"@,
        "__IMPORT_MSG__"@ != "__ENGINE_PILLS__"@,
        "__IMPORT_MSG__"@ != "__SEARCH_VALUE__"@,
        "__IMPORT_MSG__"@ != "__ADS_TOGGLE__"@,
        "__IMPORT_MSG__"@ != "__ADS_BLOCKED__"@,
        "__IMPORT_MSG__"@ != "__SYNC_BOOKMARKS__"@,
        "__IMPORT_MSG__"@ != "__SYNC_HISTORY__"@,
        "__IMPORT_MSG__"@ != "__SYNC_PASSWORDS__"@,
        "__IMPORT_MSG__"@ != "__KEY_STATUS__"@,
        "__SYNC_STATUS__"@ != "__ENGINE_PILLS__"@,
        "__SYNC_STATUS__"@ != "__SEARCH_VALUE__"@,
        "__SYNC_STATUS__"@ != "__ADS_TOGGLE__"@,
        "__SYNC_STATUS__"@ != "__ADS_BLOCKED__"@,
        "__SYNC_STATUS__"@ != "__SYNC_BOOKMARKS__"@,
        "__SYNC_STATUS__"@ != "__SYNC_HISTORY__"@,
        "__SYNC_STATUS__"@ != "__SYNC_PASSWORDS__"@,
        "__SYNC_STATUS__"@ != "__KEY_STATUS__"@,
        "__SYNC_STATUS__"@ != "__IMPORT_MSG__"@,
        "__PW_STATE__"@ != "__ENGINE_PILLS__"@,
        "__PW_STATE__"@ != "__SEARCH_VALUE__"@,
        "__PW_STATE__"@ != "__ADS_TOGGLE__"@,
        "__PW_STATE__"@ != "__ADS_BLOCKED__"@,
        "__PW_STATE__"@ != "__SYNC_BOOKMARKS__"@,
        "__PW_STATE__"@ != "__SYNC_HISTORY__"@,
        "__PW_STATE__"@ != "__SYNC_PASSWORDS__"@,
        "__PW_STATE__"@ != "__KEY_STATUS__"@,
        "__PW_STATE__"@ != "__IMPORT_MSG__"@,
        "__PW_STATE__"@ != "__SYNC_STATUS__"@,
{
    reveal_strlit("__ENGINE_PILLS__");
    assert("__ENGINE_PILLS__"@.len() == 16);
    assert("__ENGINE_PILLS__"@[0] == '_' && "__ENGINE_PILLS__"@[1] == '_' && "__ENGINE_PILLS__"@[2] == 'E' && "__ENGINE_PILLS__"@[3] == 'N' && "__ENGINE_PILLS__"@[4] == 'G' && "__ENGINE_PILLS__"@[5] == 'I' && "__ENGINE_PILLS__"@[6] == 'N' && "__ENGINE_PILLS__"@[7] == 'E' && "__ENGINE_PILLS__"@[8] == '_' && "__ENGINE_PILLS__"@[9] == 'P' && "__ENGINE_PILLS__"@[10] == 'I' && "__ENGINE_PILLS__"@[11] == 'L' && "__ENGINE_PILLS__"@[12] == 'L' && "__ENGINE_PILLS__"@[13] == 'S' && "__ENGINE_PILLS__"@[14] == '_' && "__ENGINE_PILLS__"@[15] == '_');
    assert(pages::is_slot("__ENGINE_PILLS__"@));
    reveal_strlit("__SEARCH_VALUE__");
    assert("__SEARCH_VALUE__"@.len() == 16);
    assert("__SEARCH_VALUE__"@[0] == '_' && "__SEARCH_VALUE__"@[1] == '_' && "__SEARCH_VALUE__"@[2] == 'S' && "__SEARCH_VALUE__"@[3] == 'E' && "__SEARCH_VALUE__"@[4] == 'A' && "__SEARCH_VALUE__"@[5] == 'R' && "__SEARCH_VALUE__"@[6] == 'C' && "__SEARCH_VALUE__"@[7] == 'H' && "__SEARCH_VALUE__"@[8] == '_' && "__SEARCH_VALUE__"@[9] == 'V' && "__SEARCH_VALUE__"@[10] == 'A' && "__SEARCH_VALUE__"@[11] == 'L' && "__SEARCH_VALUE__"@[12] == 'U' && "__SEARCH_VALUE__"@[13] == 'E' && "__SEARCH_VALUE__"@[14] == '_' && "__SEARCH_VALUE__"@[15] == '_');
    assert(pages::is_slot("__SEARCH_VALUE__"@));
    reveal_strlit("__ADS_TOGGLE__");
    assert("__ADS_TOGGLE__"@.len() == 14);
    assert("__ADS_TOGGLE__"@[0] == '_' && "__ADS_TOGGLE__"@[1] == '_' && "__ADS_TOGGLE__"@[2] == 'A' && "__ADS_TOGGLE__"@[3] == 'D' && "__ADS_TOGGLE__"@[4] == 'S' && "__ADS_TOGGLE__"@[5] == '_' && "__ADS_TOGGLE__"@[6] == 'T' && "__ADS_TOGGLE__"@[7] == 'O' && "__ADS_TOGGLE__"@[8] == 'G' && "__ADS_TOGGLE__"@[9] == 'G' && "__ADS_TOGGLE__"@[10] == 'L' && "__ADS_TOGGLE__"@[11] == 'E' && "__ADS_TOGGLE__"@[12] == '_' && "__ADS_TOGGLE__"@[13] == '_');
    assert(pages::is_slot("__ADS_TOGGLE__"@));
    reveal_strlit("__ADS_BLOCKED__");
    assert("__ADS_BLOCKED__"@.len() == 15);
    assert("__ADS_BLOCKED__"@[0] == '_' && "__ADS_BLOCKED__"@[1] == '_' && "__ADS_BLOCKED__"@[2] == 'A' && "__ADS_BLOCKED__"@[3] == 'D' && "__ADS_BLOCKED__"@[4] == 'S' && "__ADS_BLOCKED__"@[5] == '_' && "__ADS_BLOCKED__"@[6] == 'B' && "__ADS_BLOCKED__"@[7] == 'L' && "__ADS_BLOCKED__"@[8] == 'O' && "__ADS_BLOCKED__"@[9] == 'C' && "__ADS_BLOCKED__"@[10] == 'K' && "__ADS_BLOCKED__"@[11] == 'E' && "__ADS_BLOCKED__"@[12] == 'D' && "__ADS_BLOCKED__"@[13] == '_' && "__ADS_BLOCKED__"@[14] == '_');
    assert(pages::is_slot("__ADS_BLOCKED__"@));
    reveal_strlit("__SYNC_BOOKMARKS__");
    assert("__SYNC_BOOKMARKS__"@.len() == 18);
    assert("__SYNC_BOOKMARKS__"@[0] == '_' && "__SYNC_BOOKMARKS__"@[1] == '_' && "__SYNC_BOOKMARKS__"@[2] == 'S' && "__SYNC_BOOKMARKS__"@[3] == 'Y' && "__SYNC_BOOKMARKS__"@[4] == 'N' && "__SYNC_BOOKMARKS__"@[5] == 'C' && "__SYNC_BOOKMARKS__"@[6] == '_' && "__SYNC_BOOKMARKS__"@[7] == 'B' && "__SYNC_BOOKMARKS__"@[8] == 'O' && "__SYNC_BOOKMARKS__"@[9] == 'O' && "__SYNC_BOOKMARKS__"@[10] == 'K' && "__SYNC_BOOKMARKS__"@[11] == 'M' && "__SYNC_BOOKMARKS__"@[12] == 'A' && "__SYNC_BOOKMARKS__"@[13] == 'R' && "__SYNC_BOOKMARKS__"@[14] == 'K' && "__SYNC_BOOKMARKS__"@[15] == 'S' && "__SYNC_BOOKMARKS__"@[16] == '_' && "__SYNC_BOOKMARKS__"@[17] == '_');
    assert(pages::is_slot("__SYNC_BOOKMARKS__"@));
    reveal_strlit("__SYNC_HISTORY__");
    assert("__SYNC_HISTORY__"@.len() == 16);
    assert("__SYNC_HISTORY__"@[0] == '_' && "__SYNC_HISTORY__"@[1] == '_' && "__SYNC_HISTORY__"@[2] == 'S' && "__SYNC_HISTORY__"@[3] == 'Y' && "__SYNC_HISTORY__"@[4] == 'N' && "__SYNC_HISTORY__"@[5] == 'C' && "__SYNC_HISTORY__"@[6] == '_' && "__SYNC_HISTORY__"@[7] == 'H' && "__SYNC_HISTORY__"@[8] == 'I' && "__SYNC_HISTORY__"@[9] == 'S' && "__SYNC_HISTORY__"@[10] == 'T' && "__SYNC_HISTORY__"@[11] == 'O' && "__SYNC_HISTORY__"@[12] == 'R' && "__SYNC_HISTORY__"@[13] == 'Y' && "__SYNC_HISTORY__"@[14] == '_' && "__SYNC_HISTORY__"@[15] == '_');
    assert(pages::is_slot("__SYNC_HISTORY__"@));
    reveal_strlit("__SYNC_PASSWORDS__");
    assert("__SYNC_PASSWORDS__"@.len() == 18);
    assert("__SYNC_PASSWORDS__"@[0] == '_' && "__SYNC_PASSWORDS__"@[1] == '_' && "__SYNC_PASSWORDS__"@[2] == 'S' && "__SYNC_PASSWORDS__"@[3] == 'Y' && "__SYNC_PASSWORDS__"@[4] == 'N' && "__SYNC_PASSWORDS__"@[5] == 'C' && "__SYNC_PASSWORDS__"@[6] == '_' && "__SYNC_PASSWORDS__"@[7] == 'P' && "__SYNC_PASSWORDS__"@[8] == 'A' && "__SYNC_PASSWORDS__"@[9] == 'S' && "__SYNC_PASSWORDS__"@[10] == 'S' && "__SYNC_PASSWORDS__"@[11] == 'W' && "__SYNC_PASSWORDS__"@[12] == 'O' && "__SYNC_PASSWORDS__"@[13] == 'R' && "__SYNC_PASSWORDS__"@[14] == 'D' && "__SYNC_PASSWORDS__"@[15] == 'S' && "__SYNC_PASSWORDS__"@[16] == '_' && "__SYNC_PASSWORDS__"@[17] == '_');
    assert(pages::is_slot("__SYNC_PASSWORDS__"@));
    reveal_strlit("__KEY_STATUS__");
    assert("__KEY_STATUS__"@.len() == 14);
    assert("__KEY_STATUS__"@[0] == '_' && "__KEY_STATUS__"@[1] == '_' && "__KEY_STATUS__"@[2] == 'K' && "__KEY_STATUS__"@[3] == 'E' && "__KEY_STATUS__"@[4] == 'Y' && "__KEY_STATUS__"@[5] == '_' && "__KEY_STATUS__"@[6] == 'S' && "__KEY_STATUS__"@[7] == 'T' && "__KEY_STATUS__"@[8] == 'A' && "__KEY_STATUS__"@[9] == 'T' && "__KEY_STATUS__"@[10] == 'U' && "__KEY_STATUS__"@[11] == 'S' && "__KEY_STATUS__"@[12] == '_' && "__KEY_STATUS__"@[13] == '_');
    assert(pages::is_slot("__KEY_STATUS__"@));
    reveal_strlit("__IMPORT_MSG__");
    assert("__IMPORT_MSG__"@.len() == 14);
    assert("__IMPORT_MSG__"@[0] == '_' && "__IMPORT_MSG__"@[1] == '_' && "__IMPORT_MSG__"@[2] == 'I' && "__IMPORT_MSG__"@[3] == 'M' && "__IMPORT_MSG__"@[4] == 'P' && "__IMPORT_MSG__"@[5] == 'O' && "__IMPORT_MSG__"@[6] == 'R' && "__IMPORT_MSG__"@[7] == 'T' && "__IMPORT_MSG__"@[8] == '_' && "__IMPORT_MSG__"@[9] == 'M' && "__IMPORT_MSG__"@[10] == 'S' && "__IMPORT_MSG__"@[11] == 'G' && "__IMPORT_MSG__"@[12] == '_' && "__IMPORT_MSG__"@[13] == '_');
    assert(pages::is_slot("__IMPORT_MSG__"@));
    reveal_strlit("__SYNC_STATUS__");
    assert("__SYNC_STATUS__"@.len() == 15);
    assert("__SYNC_STATUS__"@[0] == '_' && "__SYNC_STATUS__"@[1] == '_' && "__SYNC_STATUS__"@[2] == 'S' && "__SYNC_STATUS__"@[3] == 'Y' && "__SYNC_STATUS__"@[4] == 'N' && "__SYNC_STATUS__"@[5] == 'C' && "__SYNC_STATUS__"@[6] == '_' && "__SYNC_STATUS__"@[7] == 'S' && "__SYNC_STATUS__"@[8] == 'T' && "__SYNC_STATUS__"@[9] == 'A' && "__SYNC_STATUS__"@[10] == 'T' && "__SYNC_STATUS__"@[11] == 'U' && "__SYNC_STATUS__"@[12] == 'S' && "__SYNC_STATUS__"@[13] == '_' && "__SYNC_STATUS__"@[14] == '_');
    assert(pages::is_slot("__SYNC_STATUS__"@));
    reveal_strlit("__PW_STATE__");
    assert("__PW_STATE__"@.len() == 12);
    assert("__PW_STATE__"@[0] == '_' && "__PW_STATE__"@[1] == '_' && "__PW_STATE__"@[2] == 'P' && "__PW_STATE__"@[3] == 'W' && "__PW_STATE__"@[4] == '_' && "__PW_STATE__"@[5] == 'S' && "__PW_STATE__"@[6] == 'T' && "__PW_STATE__"@[7] == 'A' && "__PW_STATE__"@[8] == 'T' && "__PW_STATE__"@[9] == 'E' && "__PW_STATE__"@[10] == '_' && "__PW_STATE__"@[11] == '_');
    assert(pages::is_slot("__PW_STATE__"@));
}

proof fn lemma_other_table(s: SettingsView, d: Doings)
    ensures
        other_slots(s, d).len() == 11,
        other_slots(s, d)[0] == ("__ENGINE_PILLS__"@, engines_text(s.search)),
        other_slots(s, d)[1] == ("__SEARCH_VALUE__"@, codec::html(s.search)),
        other_slots(s, d)[2] == ("__ADS_TOGGLE__"@, toggle_text("block_ads"@, s.block_ads, "privacy"@)),
        other_slots(s, d)[3] == ("__ADS_BLOCKED__"@, number::decimal(d.blocked as nat)),
        other_slots(s, d)[4] == ("__SYNC_BOOKMARKS__"@, toggle_text("sync_bookmarks"@, s.sync_bookmarks, "sync"@)),
        other_slots(s, d)[5] == ("__SYNC_HISTORY__"@, toggle_text("sync_history"@, s.sync_history, "sync"@)),
        other_slots(s, d)[6] == ("__SYNC_PASSWORDS__"@, toggle_text("sync_passwords"@, s.sync_passwords, "sync"@)),
        other_slots(s, d)[7] == ("__KEY_STATUS__"@, key_text(s.sync_api_key)),
        other_slots(s, d)[8] == ("__IMPORT_MSG__"@, codec::html(d.import_msg@)),
        other_slots(s, d)[9] == ("__SYNC_STATUS__"@, codec::html(d.sync_status@)),
        other_slots(s, d)[10] == ("__PW_STATE__"@, codec::html(vault_text(d.saved))),
{
    reveal(other_slots);
}

/// Each of these settings goes into the slot that is named for it.
#[verifier::rlimit(60)]
pub proof fn settings_go_into_their_slots(a: Seq<char>, b: Seq<char>, s: SettingsView, d: Doings)
    requires
        !a.contains('_'),
        !b.contains('_'),
    ensures
        pages::is_plain(engines_text(s.search)) ==> with_other_controls(a + "__ENGINE_PILLS__"@ + b, s, d) == a + engines_text(s.search) + b,
        pages::is_plain(codec::html(s.search)) ==> with_other_controls(a + "__SEARCH_VALUE__"@ + b, s, d) == a + codec::html(s.search) + b,
        pages::is_plain(toggle_text("block_ads"@, s.block_ads, "privacy"@)) ==> with_other_controls(a + "__ADS_TOGGLE__"@ + b, s, d) == a + toggle_text("block_ads"@, s.block_ads, "privacy"@) + b,
        pages::is_plain(number::decimal(d.blocked as nat)) ==> with_other_controls(a + "__ADS_BLOCKED__"@ + b, s, d) == a + number::decimal(d.blocked as nat) + b,
        pages::is_plain(toggle_text("sync_bookmarks"@, s.sync_bookmarks, "sync"@)) ==> with_other_controls(a + "__SYNC_BOOKMARKS__"@ + b, s, d) == a + toggle_text("sync_bookmarks"@, s.sync_bookmarks, "sync"@) + b,
        pages::is_plain(toggle_text("sync_history"@, s.sync_history, "sync"@)) ==> with_other_controls(a + "__SYNC_HISTORY__"@ + b, s, d) == a + toggle_text("sync_history"@, s.sync_history, "sync"@) + b,
        pages::is_plain(toggle_text("sync_passwords"@, s.sync_passwords, "sync"@)) ==> with_other_controls(a + "__SYNC_PASSWORDS__"@ + b, s, d) == a + toggle_text("sync_passwords"@, s.sync_passwords, "sync"@) + b,
        pages::is_plain(key_text(s.sync_api_key)) ==> with_other_controls(a + "__KEY_STATUS__"@ + b, s, d) == a + key_text(s.sync_api_key) + b,
        pages::is_plain(codec::html(d.import_msg@)) ==> with_other_controls(a + "__IMPORT_MSG__"@ + b, s, d) == a + codec::html(d.import_msg@) + b,
        pages::is_plain(codec::html(d.sync_status@)) ==> with_other_controls(a + "__SYNC_STATUS__"@ + b, s, d) == a + codec::html(d.sync_status@) + b,
        pages::is_plain(codec::html(vault_text(d.saved))) ==> with_other_controls(a + "__PW_STATE__"@ + b, s, d) == a + codec::html(vault_text(d.saved)) + b,
{
    let o = other_slots(s, d);
    assert(forall|k: int| 0 <= k < 11 ==> pages::is_slot(#[trigger] o[k].0)) by {
        lemma_other_table(s, d);
        lemma_other_names();
    }
    assert(pages::is_plain(engines_text(s.search)) ==> with_other_controls(a + "__ENGINE_PILLS__"@ + b, s, d) == a + engines_text(s.search) + b) by {
        lemma_other_table(s, d);
        lemma_other_names();
        if pages::is_plain(engines_text(s.search)) {
            lemma_other_slots(a + "__ENGINE_PILLS__"@ + b, s, d);
            pages::each_slot_gets_its_text(a, b, o, 0);
        }
    }
    assert(pages::is_plain(codec::html(s.search)) ==> with_other_controls(a + "__SEARCH_VALUE__"@ + b, s, d) == a + codec::html(s.search) + b) by {
        lemma_other_table(s, d);
        lemma_other_names();
        if pages::is_plain(codec::html(s.search)) {
            lemma_other_slots(a + "__SEARCH_VALUE__"@ + b, s, d);
            pages::each_slot_gets_its_text(a, b, o, 1);
        }
    }
    assert(pages::is_plain(toggle_text("block_ads"@, s.block_ads, "privacy"@)) ==> with_other_controls(a + "__ADS_TOGGLE__"@ + b, s, d) == a + toggle_text("block_ads"@, s.block_ads, "privacy"@) + b) by {
        lemma_other_table(s, d);
        lemma_other_names();
        if pages::is_plain(toggle_text("block_ads"@, s.block_ads, "privacy"@)) {
            lemma_other_slots(a + "__ADS_TOGGLE__"@ + b, s, d);
            pages::each_slot_gets_its_text(a, b, o, 2);
        }
    }
    assert(pages::is_plain(number::decimal(d.blocked as nat)) ==> with_other_controls(a + "__ADS_BLOCKED__"@ + b, s, d) == a + number::decimal(d.blocked as nat) + b) by {
        lemma_other_table(s, d);
        lemma_other_names();
        if pages::is_plain(number::decimal(d.blocked as nat)) {
            lemma_other_slots(a + "__ADS_BLOCKED__"@ + b, s, d);
            pages::each_slot_gets_its_text(a, b, o, 3);
        }
    }
    assert(pages::is_plain(toggle_text("sync_bookmarks"@, s.sync_bookmarks, "sync"@)) ==> with_other_controls(a + "__SYNC_BOOKMARKS__"@ + b, s, d) == a + toggle_text("sync_bookmarks"@, s.sync_bookmarks, "sync"@) + b) by {
        lemma_other_table(s, d);
        lemma_other_names();
        if pages::is_plain(toggle_text("sync_bookmarks"@, s.sync_bookmarks, "sync"@)) {
            lemma_other_slots(a + "__SYNC_BOOKMARKS__"@ + b, s, d);
            pages::each_slot_gets_its_text(a, b, o, 4);
        }
    }
    assert(pages::is_plain(toggle_text("sync_history"@, s.sync_history, "sync"@)) ==> with_other_controls(a + "__SYNC_HISTORY__"@ + b, s, d) == a + toggle_text("sync_history"@, s.sync_history, "sync"@) + b) by {
        lemma_other_table(s, d);
        lemma_other_names();
        if pages::is_plain(toggle_text("sync_history"@, s.sync_history, "sync"@)) {
            lemma_other_slots(a + "__SYNC_HISTORY__"@ + b, s, d);
            pages::each_slot_gets_its_text(a, b, o, 5);
        }
    }
    assert(pages::is_plain(toggle_text("sync_passwords"@, s.sync_passwords, "sync"@)) ==> with_other_controls(a + "__SYNC_PASSWORDS__"@ + b, s, d) == a + toggle_text("sync_passwords"@, s.sync_passwords, "sync"@) + b) by {
        lemma_other_table(s, d);
        lemma_other_names();
        if pages::is_plain(toggle_text("sync_passwords"@, s.sync_passwords, "sync"@)) {
            lemma_other_slots(a + "__SYNC_PASSWORDS__"@ + b, s, d);
            pages::each_slot_gets_its_text(a, b, o, 6);
        }
    }
    assert(pages::is_plain(key_text(s.sync_api_key)) ==> with_other_controls(a + "__KEY_STATUS__"@ + b, s, d) == a + key_text(s.sync_api_key) + b) by {
        lemma_other_table(s, d);
        lemma_other_names();
        if pages::is_plain(key_text(s.sync_api_key)) {
            lemma_other_slots(a + "__KEY_STATUS__"@ + b, s, d);
            pages::each_slot_gets_its_text(a, b, o, 7);
        }
    }
    assert(pages::is_plain(codec::html(d.import_msg@)) ==> with_other_controls(a + "__IMPORT_MSG__"@ + b, s, d) == a + codec::html(d.import_msg@) + b) by {
        lemma_other_table(s, d);
        lemma_other_names();
        if pages::is_plain(codec::html(d.import_msg@)) {
            lemma_other_slots(a + "__IMPORT_MSG__"@ + b, s, d);
            pages::each_slot_gets_its_text(a, b, o, 8);
        }
    }
    assert(pages::is_plain(codec::html(d.sync_status@)) ==> with_other_controls(a + "__SYNC_STATUS__"@ + b, s, d) == a + codec::html(d.sync_status@) + b) by {
        lemma_other_table(s, d);
        lemma_other_names();
        if pages::is_plain(codec::html(d.sync_status@)) {
            lemma_other_slots(a + "__SYNC_STATUS__"@ + b, s, d);
            pages::each_slot_gets_its_text(a, b, o, 9);
        }
    }
    assert(pages::is_plain(codec::html(vault_text(d.saved))) ==> with_other_controls(a + "__PW_STATE__"@ + b, s, d) == a + codec::html(vault_text(d.saved)) + b) by {
        lemma_other_table(s, d);
        lemma_other_names();
        if pages::is_plain(codec::html(vault_text(d.saved))) {
            lemma_other_slots(a + "__PW_STATE__"@ + b, s, d);
            pages::each_slot_gets_its_text(a, b, o, 10);
        }
    }
}

/// The slots of the look, each with its text.
#[verifier::opaque]
pub open spec fn look_slots(t: ThemeView, m: Modules, c: CatalogView, l: LookChoices) -> Seq<
    (Seq<char>, Seq<char>),
> {
    seq![
        ("__PRESET_CARDS__"@, cards_text(l.presets@)),
        ("__BASE_PILLS__"@, bases_text(l.bases@)),
        ("__ACCENT_SWATCHES__"@, accents_text(l.accents@)),
        ("__FONT_PILLS__"@, pills_text("font"@, "appearance"@, l.fonts@)),
        ("__DENSITY_PILLS__"@, pills_text("density"@, "appearance"@, l.densities@)),
        ("__TABPOS_PILLS__"@, pills_text("tabpos"@, "appearance"@, l.tab_positions@)),
        ("__TABFIT_PILLS__"@, fits_text(t.tab_fit, c)),
        ("__WALLPAPER_PILLS__"@, pills_text("wallpaper"@, "appearance"@, l.wallpapers@)),
        ("__RADIUS_PILLS__"@, steps_text("radius"@, t.radius as u16, radius_steps(), 6)),
        ("__GLASS_PILLS__"@, steps_text("glass"@, t.glass as u16, glass_steps(), 6)),
        ("__TABMAXW_PILLS__"@, steps_text("tabmaxw"@, t.tab_max_w, width_steps(), 6)),
        ("__MODULE_TOGGLES__"@, modules_text(m)),
    ]
}

proof fn lemma_look_slots(page: Seq<char>, t: ThemeView, m: Modules, c: CatalogView, l: LookChoices)
    ensures
        with_look_controls(page, t, m, c, l) == pages::filled_in(page, look_slots(t, m, c, l)),
{
    reveal(look_slots);
    let o = look_slots(t, m, c, l);
    assert(o.take(12) =~= o);
    reveal_with_fuel(pages::filled_in, 13);
    assert(look_slots(t, m, c, l).take(12).drop_last() =~= look_slots(t, m, c, l).take(11));
    assert(look_slots(t, m, c, l).take(12).last() == look_slots(t, m, c, l)[11]);
    assert(look_slots(t, m, c, l).take(11).drop_last() =~= look_slots(t, m, c, l).take(10));
    assert(look_slots(t, m, c, l).take(11).last() == look_slots(t, m, c, l)[10]);
    assert(look_slots(t, m, c, l).take(10).drop_last() =~= look_slots(t, m, c, l).take(9));
    assert(look_slots(t, m, c, l).take(10).last() == look_slots(t, m, c, l)[9]);
    assert(look_slots(t, m, c, l).take(9).drop_last() =~= look_slots(t, m, c, l).take(8));
    assert(look_slots(t, m, c, l).take(9).last() == look_slots(t, m, c, l)[8]);
    assert(look_slots(t, m, c, l).take(8).drop_last() =~= look_slots(t, m, c, l).take(7));
    assert(look_slots(t, m, c, l).take(8).last() == look_slots(t, m, c, l)[7]);
    assert(look_slots(t, m, c, l).take(7).drop_last() =~= look_slots(t, m, c, l).take(6));
    assert(look_slots(t, m, c, l).take(7).last() == look_slots(t, m, c, l)[6]);
    assert(look_slots(t, m, c, l).take(6).drop_last() =~= look_slots(t, m, c, l).take(5));
    assert(look_slots(t, m, c, l).take(6).last() == look_slots(t, m, c, l)[5]);
    assert(look_slots(t, m, c, l).take(5).drop_last() =~= look_slots(t, m, c, l).take(4));
    assert(look_slots(t, m, c, l).take(5).last() == look_slots(t, m, c, l)[4]);
    assert(look_slots(t, m, c, l).take(4).drop_last() =~= look_slots(t, m, c, l).take(3));
    assert(look_slots(t, m, c, l).take(4).last() == look_slots(t, m, c, l)[3]);
    assert(look_slots(t, m, c, l).take(3).drop_last() =~= look_slots(t, m, c, l).take(2));
    assert(look_slots(t, m, c, l).take(3).last() == look_slots(t, m, c, l)[2]);
    assert(look_slots(t, m, c, l).take(2).drop_last() =~= look_slots(t, m, c, l).take(1));
    assert(look_slots(t, m, c, l).take(2).last() == look_slots(t, m, c, l)[1]);
    assert(look_slots(t, m, c, l).take(1).drop_last() =~= look_slots(t, m, c, l).take(0));
    assert(look_slots(t, m, c, l).take(1).last() == look_slots(t, m, c, l)[0]);
}

proof fn lemma_look_names()
    ensures
        pages::is_slot("__PRESET_CARDS__"@),
        pages::is_slot("__BASE_PILLS__"@),
        pages::is_slot("__ACCENT_SWATCHES__"@),
        pages::is_slot("__FONT_PILLS__"@),
        pages::is_slot("__DENSITY_PILLS__"@),
        pages::is_slot("__TABPOS_PILLS__"@),
        pages::is_slot("__TABFIT_PILLS__"@),
        pages::is_slot("__WALLPAPER_PILLS__"@),
        pages::is_slot("__RADIUS_PILLS__"@),
        pages::is_slot("__GLASS_PILLS__"@),
        pages::is_slot("__TABMAXW_PILLS__"@),
        pages::is_slot("__MODULE_TOGGLES__"@),
        "__BASE_PILLS__"@ != "__PRESET_CARDS__"@,
        "__ACCENT_SWATCHES__"@ != "__PRESET_CARDS__"@,
        "__ACCENT_SWATCHES__"@ != "__BASE_PILLS__"@,
        "__FONT_PILLS__"@ != "__PRESET_CARDS__"@,
        "__FONT_PILLS__"@ != "__BASE_PILLS__"@,
        "__FONT_PILLS__"@ != "__ACCENT_SWATCHES__"@,
        "__DENSITY_PILLS__"@ != "__PRESET_CARDS__"@,
        "__DENSITY_PILLS__"@ != "__BASE_PILLS__"@,
        "__DENSITY_PILLS__"@ != "__ACCENT_SWATCHES__"@,
        "__DENSITY_PILLS__"@ != "__FONT_PILLS__"@,
        "__TABPOS_PILLS__"@ != "__PRESET_CARDS__"@,
        "__TABPOS_PILLS__"@ != "__BASE_PILLS__"@,
        "__TABPOS_PILLS__"@ != "__ACCENT_SWATCHES__"@,
        "__TABPOS_PILLS__"@ != "__FONT_PILLS__"@,
        "__TABPOS_PILLS__"@ != "__DENSITY_PILLS__"@,
        "__TABFIT_PILLS__"@ != "__PRESET_CARDS__"@,
        "__TABFIT_PILLS__"@ != "__BASE_PILLS__"@,
        "__TABFIT_PILLS__"@ != "__ACCENT_SWATCHES__"@,
        "__TABFIT_PILLS__"@ != "__FONT_PILLS__"@,
        "__TABFIT_PILLS__"@ != "__DENSITY_PILLS__"@,
        "__TABFIT_PILLS__"@ != "__TABPOS_PILLS__"@,
        "__WALLPAPER_PILLS__"@ != "__PRESET_CARDS__"@,
        "__WALLPAPER_PILLS__"@ != "__BASE_PILLS__"@,
        "__WALLPAPER_PILLS__"@ != "__ACCENT_SWATCHES__"@,
        "__WALLPAPER_PILLS__"@ != "__FONT_PILLS__"@,
        "__WALLPAPER_PILLS__"@ != "__DENSITY_PILLS__"@,
        "__WALLPAPER_PILLS__"@ != "__TABPOS_PILLS__"@,
        "__WALLPAPER_PILLS__"@ != "__TABFIT_PILLS__"@,
        "__RADIUS_PILLS__"@ != "__PRESET_CARDS__"@,
        "__RADIUS_PILLS__"@ != "__BASE_PILLS__"@,
        "__RADIUS_PILLS__"@ != "__ACCENT_SWATCHES__"@,
        "__RADIUS_PILLS__"@ != "__FONT_PILLS__"@,
        "__RADIUS_PILLS__"@ != "__DENSITY_PILLS__"@,
        "__RADIUS_PILLS__"@ != "__TABPOS_PILLS__"@,
        "__RADIUS_PILLS__"@ != "__TABFIT_PILLS__"@,
        "__RADIUS_PILLS__"@ != "__WALLPAPER_PILLS__"@,
        "__GLASS_PILLS__"@ != "__PRESET_CARDS__"@,
        "__GLASS_PILLS__"@ != "__BASE_PILLS__"@,
        "__GLASS_PILLS__"@ != "__ACCENT_SWATCHES__"@,
        "__GLASS_PILLS__"@ != "__FONT_PILLS__"@,
        "__GLASS_PILLS__"@ != "__DENSITY_PILLS__"@,
        "__GLASS_PILLS__"@ != "__TABPOS_PILLS__"@,
        "__GLASS_PILLS__"@ != "__TABFIT_PILLS__"@,
        "__GLASS_PILLS__"@ != "__WALLPAPER_PILLS__"@,
        "__GLASS_PILLS__"@ != "__RADIUS_PILLS__"@,
        "__TABMAXW_PILLS__"@ != "__PRESET_CARDS__"@,
        "__TABMAXW_PILLS__"@ != "__BASE_PILLS__"@,
        "__TABMAXW_PILLS__"@ != "__ACCENT_SWATCHES__"@,
        "__TABMAXW_PILLS__"@ != "__FONT_PILLS__"@,
        "__TABMAXW_PILLS__"@ != "__DENSITY_PILLS__"@,
        "__TABMAXW_PILLS__"@ != "__TABPOS_PILLS__"@,
        "__TABMAXW_PILLS__"@ != "__TABFIT_PILLS__"@,
        "__TABMAXW_PILLS__"@ != "__WALLPAPER_PILLS__"@,
        "__TABMAXW_PILLS__"@ != "__RADIUS_PILLS__"@,
        "__TABMAXW_PILLS__"@ != "__GLASS_PILLS__"@,
        "__MODULE_TOGGLES__"@ != "__PRESET_CARDS__"@,
        "__MODULE_TOGGLES__"@ != "__BASE_PILLS__"@,
        "__MODULE_TOGGLES__"@ != "__ACCENT_SWATCHES__"@,
        "__MODULE_TOGGLES__"@ != "__FONT_PILLS__"@,
        "__MODULE_TOGGLES__"@ != "__DENSITY_PILLS__"@,
        "__MODULE_TOGGLES__"@ != "__TABPOS_PILLS__"@,
        "__MODULE_TOGGLES__"@ != "__TABFIT_PILLS__"@,
        "__MODULE_TOGGLES__"@ != "__WALLPAPER_PILLS__"@,
        "__MODULE_TOGGLES__"@ != "__RADIUS_PILLS__"@,
        "__MODULE_TOGGLES__"@ != "__GLASS_PILLS__"@,
        "__MODULE_TOGGLES__"@ != "__TABMAXW_PILLS__"@,
{
    reveal_strlit("__PRESET_CARDS__");
    assert("__PRESET_CARDS__"@.len() == 16);
    assert("__PRESET_CARDS__"@[0] == '_' && "__PRESET_CARDS__"@[1] == '_' && "__PRESET_CARDS__"@[2] == 'P' && "__PRESET_CARDS__"@[3] == 'R' && "__PRESET_CARDS__"@[4] == 'E' && "__PRESET_CARDS__"@[5] == 'S' && "__PRESET_CARDS__"@[6] == 'E' && "__PRESET_CARDS__"@[7] == 'T' && "__PRESET_CARDS__"@[8] == '_' && "__PRESET_CARDS__"@[9] == 'C' && "__PRESET_CARDS__"@[10] == 'A' && "__PRESET_CARDS__"@[11] == 'R' && "__PRESET_CARDS__"@[12] == 'D' && "__PRESET_CARDS__"@[13] == 'S' && "__PRESET_CARDS__"@[14] == '_' && "__PRESET_CARDS__"@[15] == '_');
    assert(pages::is_slot("__PRESET_CARDS__"@));
    reveal_strlit("__BASE_PILLS__");
    assert("__BASE_PILLS__"@.len() == 14);
    assert("__BASE_PILLS__"@[0] == '_' && "__BASE_PILLS__"@[1] == '_' && "__BASE_PILLS__"@[2] == 'B' && "__BASE_PILLS__"@[3] == 'A' && "__BASE_PILLS__"@[4] == 'S' && "__BASE_PILLS__"@[5] == 'E' && "__BASE_PILLS__"@[6] == '_' && "__BASE_PILLS__"@[7] == 'P' && "__BASE_PILLS__"@[8] == 'I' && "__BASE_PILLS__"@[9] == 'L' && "__BASE_PILLS__"@[10] == 'L' && "__BASE_PILLS__"@[11] == 'S' && "__BASE_PILLS__"@[12] == '_' && "__BASE_PILLS__"@[13] == '_');
    assert(pages::is_slot("__BASE_PILLS__"@));
    reveal_strlit("__ACCENT_SWATCHES__");
    assert("__ACCENT_SWATCHES__"@.len() == 19);
    assert("__ACCENT_SWATCHES__"@[0] == '_' && "__ACCENT_SWATCHES__"@[1] == '_' && "__ACCENT_SWATCHES__"@[2] == 'A' && "__ACCENT_SWATCHES__"@[3] == 'C' && "__ACCENT_SWATCHES__"@[4] == 'C' && "__ACCENT_SWATCHES__"@[5] == 'E' && "__ACCENT_SWATCHES__"@[6] == 'N' && "__ACCENT_SWATCHES__"@[7] == 'T' && "__ACCENT_SWATCHES__"@[8] == '_' && "__ACCENT_SWATCHES__"@[9] == 'S' && "__ACCENT_SWATCHES__"@[10] == 'W' && "__ACCENT_SWATCHES__"@[11] == 'A' && "__ACCENT_SWATCHES__"@[12] == 'T' && "__ACCENT_SWATCHES__"@[13] == 'C' && "__ACCENT_SWATCHES__"@[14] == 'H' && "__ACCENT_SWATCHES__"@[15] == 'E' && "__ACCENT_SWATCHES__"@[16] == 'S' && "__ACCENT_SWATCHES__"@[17] == '_' && "__ACCENT_SWATCHES__"@[18] == '_');
    assert(pages::is_slot("__ACCENT_SWATCHES__"@));
    reveal_strlit("__FONT_PILLS__");
    assert("__FONT_PILLS__"@.len() == 14);
    assert("__FONT_PILLS__"@[0] == '_' && "__FONT_PILLS__"@[1] == '_' && "__FONT_PILLS__"@[2] == 'F' && "__FONT_PILLS__"@[3] == 'O' && "__FONT_PILLS__"@[4] == 'N' && "__FONT_PILLS__"@[5] == 'T' && "__FONT_PILLS__"@[6] == '_' && "__FONT_PILLS__"@[7] == 'P' && "__FONT_PILLS__"@[8] == 'I' && "__FONT_PILLS__"@[9] == 'L' && "__FONT_PILLS__"@[10] == 'L' && "__FONT_PILLS__"@[11] == 'S' && "__FONT_PILLS__"@[12] == '_' && "__FONT_PILLS__"@[13] == '_');
    assert(pages::is_slot("__FONT_PILLS__"@));
    reveal_strlit("__DENSITY_PILLS__");
    assert("__DENSITY_PILLS__"@.len() == 17);
    assert("__DENSITY_PILLS__"@[0] == '_' && "__DENSITY_PILLS__"@[1] == '_' && "__DENSITY_PILLS__"@[2] == 'D' && "__DENSITY_PILLS__"@[3] == 'E' && "__DENSITY_PILLS__"@[4] == 'N' && "__DENSITY_PILLS__"@[5] == 'S' && "__DENSITY_PILLS__"@[6] == 'I' && "__DENSITY_PILLS__"@[7] == 'T' && "__DENSITY_PILLS__"@[8] == 'Y' && "__DENSITY_PILLS__"@[9] == '_' && "__DENSITY_PILLS__"@[10] == 'P' && "__DENSITY_PILLS__"@[11] == 'I' && "__DENSITY_PILLS__"@[12] == 'L' && "__DENSITY_PILLS__"@[13] == 'L' && "__DENSITY_PILLS__"@[14] == 'S' && "__DENSITY_PILLS__"@[15] == '_' && "__DENSITY_PILLS__"@[16] == '_');
    assert(pages::is_slot("__DENSITY_PILLS__"@));
    reveal_strlit("__TABPOS_PILLS__");
    assert("__TABPOS_PILLS__"@.len() == 16);
    assert("__TABPOS_PILLS__"@[0] == '_' && "__TABPOS_PILLS__"@[1] == '_' && "__TABPOS_PILLS__"@[2] == 'T' && "__TABPOS_PILLS__"@[3] == 'A' && "__TABPOS_PILLS__"@[4] == 'B' && "__TABPOS_PILLS__"@[5] == 'P' && "__TABPOS_PILLS__"@[6] == 'O' && "__TABPOS_PILLS__"@[7] == 'S' && "__TABPOS_PILLS__"@[8] == '_' && "__TABPOS_PILLS__"@[9] == 'P' && "__TABPOS_PILLS__"@[10] == 'I' && "__TABPOS_PILLS__"@[11] == 'L' && "__TABPOS_PILLS__"@[12] == 'L' && "__TABPOS_PILLS__"@[13] == 'S' && "__TABPOS_PILLS__"@[14] == '_' && "__TABPOS_PILLS__"@[15] == '_');
    assert(pages::is_slot("__TABPOS_PILLS__"@));
    reveal_strlit("__TABFIT_PILLS__");
    assert("__TABFIT_PILLS__"@.len() == 16);
    assert("__TABFIT_PILLS__"@[0] == '_' && "__TABFIT_PILLS__"@[1] == '_' && "__TABFIT_PILLS__"@[2] == 'T' && "__TABFIT_PILLS__"@[3] == 'A' && "__TABFIT_PILLS__"@[4] == 'B' && "__TABFIT_PILLS__"@[5] == 'F' && "__TABFIT_PILLS__"@[6] == 'I' && "__TABFIT_PILLS__"@[7] == 'T' && "__TABFIT_PILLS__"@[8] == '_' && "__TABFIT_PILLS__"@[9] == 'P' && "__TABFIT_PILLS__"@[10] == 'I' && "__TABFIT_PILLS__"@[11] == 'L' && "__TABFIT_PILLS__"@[12] == 'L' && "__TABFIT_PILLS__"@[13] == 'S' && "__TABFIT_PILLS__"@[14] == '_' && "__TABFIT_PILLS__"@[15] == '_');
    assert(pages::is_slot("__TABFIT_PILLS__"@));
    reveal_strlit("__WALLPAPER_PILLS__");
    assert("__WALLPAPER_PILLS__"@.len() == 19);
    assert("__WALLPAPER_PILLS__"@[0] == '_' && "__WALLPAPER_PILLS__"@[1] == '_' && "__WALLPAPER_PILLS__"@[2] == 'W' && "__WALLPAPER_PILLS__"@[3] == 'A' && "__WALLPAPER_PILLS__"@[4] == 'L' && "__WALLPAPER_PILLS__"@[5] == 'L' && "__WALLPAPER_PILLS__"@[6] == 'P' && "__WALLPAPER_PILLS__"@[7] == 'A' && "__WALLPAPER_PILLS__"@[8] == 'P' && "__WALLPAPER_PILLS__"@[9] == 'E' && "__WALLPAPER_PILLS__"@[10] == 'R' && "__WALLPAPER_PILLS__"@[11] == '_' && "__WALLPAPER_PILLS__"@[12] == 'P' && "__WALLPAPER_PILLS__"@[13] == 'I' && "__WALLPAPER_PILLS__"@[14] == 'L' && "__WALLPAPER_PILLS__"@[15] == 'L' && "__WALLPAPER_PILLS__"@[16] == 'S' && "__WALLPAPER_PILLS__"@[17] == '_' && "__WALLPAPER_PILLS__"@[18] == '_');
    assert(pages::is_slot("__WALLPAPER_PILLS__"@));
    reveal_strlit("__RADIUS_PILLS__");
    assert("__RADIUS_PILLS__"@.len() == 16);
    assert("__RADIUS_PILLS__"@[0] == '_' && "__RADIUS_PILLS__"@[1] == '_' && "__RADIUS_PILLS__"@[2] == 'R' && "__RADIUS_PILLS__"@[3] == 'A' && "__RADIUS_PILLS__"@[4] == 'D' && "__RADIUS_PILLS__"@[5] == 'I' && "__RADIUS_PILLS__"@[6] == 'U' && "__RADIUS_PILLS__"@[7] == 'S' && "__RADIUS_PILLS__"@[8] == '_' && "__RADIUS_PILLS__"@[9] == 'P' && "__RADIUS_PILLS__"@[10] == 'I' && "__RADIUS_PILLS__"@[11] == 'L' && "__RADIUS_PILLS__"@[12] == 'L' && "__RADIUS_PILLS__"@[13] == 'S' && "__RADIUS_PILLS__"@[14] == '_' && "__RADIUS_PILLS__"@[15] == '_');
    assert(pages::is_slot("__RADIUS_PILLS__"@));
    reveal_strlit("__GLASS_PILLS__");
    assert("__GLASS_PILLS__"@.len() == 15);
    assert("__GLASS_PILLS__"@[0] == '_' && "__GLASS_PILLS__"@[1] == '_' && "__GLASS_PILLS__"@[2] == 'G' && "__GLASS_PILLS__"@[3] == 'L' && "__GLASS_PILLS__"@[4] == 'A' && "__GLASS_PILLS__"@[5] == 'S' && "__GLASS_PILLS__"@[6] == 'S' && "__GLASS_PILLS__"@[7] == '_' && "__GLASS_PILLS__"@[8] == 'P' && "__GLASS_PILLS__"@[9] == 'I' && "__GLASS_PILLS__"@[10] == 'L' && "__GLASS_PILLS__"@[11] == 'L' && "__GLASS_PILLS__"@[12] == 'S' && "__GLASS_PILLS__"@[13] == '_' && "__GLASS_PILLS__"@[14] == '_');
    assert(pages::is_slot("__GLASS_PILLS__"@));
    reveal_strlit("__TABMAXW_PILLS__");
    assert("__TABMAXW_PILLS__"@.len() == 17);
    assert("__TABMAXW_PILLS__"@[0] == '_' && "__TABMAXW_PILLS__"@[1] == '_' && "__TABMAXW_PILLS__"@[2] == 'T' && "__TABMAXW_PILLS__"@[3] == 'A' && "__TABMAXW_PILLS__"@[4] == 'B' && "__TABMAXW_PILLS__"@[5] == 'M' && "__TABMAXW_PILLS__"@[6] == 'A' && "__TABMAXW_PILLS__"@[7] == 'X' && "__TABMAXW_PILLS__"@[8] == 'W' && "__TABMAXW_PILLS__"@[9] == '_' && "__TABMAXW_PILLS__"@[10] == 'P' && "__TABMAXW_PILLS__"@[11] == 'I' && "__TABMAXW_PILLS__"@[12] == 'L' && "__TABMAXW_PILLS__"@[13] == 'L' && "__TABMAXW_PILLS__"@[14] == 'S' && "__TABMAXW_PILLS__"@[15] == '_' && "__TABMAXW_PILLS__"@[16] == '_');
    assert(pages::is_slot("__TABMAXW_PILLS__"@));
    reveal_strlit("__MODULE_TOGGLES__");
    assert("__MODULE_TOGGLES__"@.len() == 18);
    assert("__MODULE_TOGGLES__"@[0] == '_' && "__MODULE_TOGGLES__"@[1] == '_' && "__MODULE_TOGGLES__"@[2] == 'M' && "__MODULE_TOGGLES__"@[3] == 'O' && "__MODULE_TOGGLES__"@[4] == 'D' && "__MODULE_TOGGLES__"@[5] == 'U' && "__MODULE_TOGGLES__"@[6] == 'L' && "__MODULE_TOGGLES__"@[7] == 'E' && "__MODULE_TOGGLES__"@[8] == '_' && "__MODULE_TOGGLES__"@[9] == 'T' && "__MODULE_TOGGLES__"@[10] == 'O' && "__MODULE_TOGGLES__"@[11] == 'G' && "__MODULE_TOGGLES__"@[12] == 'G' && "__MODULE_TOGGLES__"@[13] == 'L' && "__MODULE_TOGGLES__"@[14] == 'E' && "__MODULE_TOGGLES__"@[15] == 'S' && "__MODULE_TOGGLES__"@[16] == '_' && "__MODULE_TOGGLES__"@[17] == '_');
    assert(pages::is_slot("__MODULE_TOGGLES__"@));
}

proof fn lemma_look_table(t: ThemeView, m: Modules, c: CatalogView, l: LookChoices)
    ensures
        look_slots(t, m, c, l).len() == 12,
        look_slots(t, m, c, l)[0] == ("__PRESET_CARDS__"@, cards_text(l.presets@)),
        look_slots(t, m, c, l)[1] == ("__BASE_PILLS__"@, bases_text(l.bases@)),
        look_slots(t, m, c, l)[2] == ("__ACCENT_SWATCHES__"@, accents_text(l.accents@)),
        look_slots(t, m, c, l)[3] == ("__FONT_PILLS__"@, pills_text("font"@, "appearance"@, l.fonts@)),
        look_slots(t, m, c, l)[4] == ("__DENSITY_PILLS__"@, pills_text("density"@, "appearance"@, l.densities@)),
        look_slots(t, m, c, l)[5] == ("__TABPOS_PILLS__"@, pills_text("tabpos"@, "appearance"@, l.tab_positions@)),
        look_slots(t, m, c, l)[6] == ("__TABFIT_PILLS__"@, fits_text(t.tab_fit, c)),
        look_slots(t, m, c, l)[7] == ("__WALLPAPER_PILLS__"@, pills_text("wallpaper"@, "appearance"@, l.wallpapers@)),
        look_slots(t, m, c, l)[8] == ("__RADIUS_PILLS__"@, steps_text("radius"@, t.radius as u16, radius_steps(), 6)),
        look_slots(t, m, c, l)[9] == ("__GLASS_PILLS__"@, steps_text("glass"@, t.glass as u16, glass_steps(), 6)),
        look_slots(t, m, c, l)[10] == ("__TABMAXW_PILLS__"@, steps_text("tabmaxw"@, t.tab_max_w, width_steps(), 6)),
        look_slots(t, m, c, l)[11] == ("__MODULE_TOGGLES__"@, modules_text(m)),
{
    reveal(look_slots);
}

proof fn lemma_look_apart(t: ThemeView, m: Modules, c: CatalogView, l: LookChoices, i: int)
    requires
        0 <= i < 12,
    ensures
        forall|k: int| 0 <= k < 12 ==> pages::is_slot((#[trigger] look_slots(t, m, c, l)[k]).0),
        forall|k: int|
            0 <= k < 12 && k != i ==> (#[trigger] look_slots(t, m, c, l)[k]).0 != look_slots(t, m, c, l)[i].0,
{
    lemma_look_table(t, m, c, l);
    lemma_look_names();
}

/// The ready-made looks, the bases, the accents and the fonts are offered each in the slot for them.
#[verifier::rlimit(60)]
pub proof fn cards_and_swatches_go_into_their_slots(
    a: Seq<char>,
    b: Seq<char>,
    t: ThemeView,
    m: Modules,
    c: CatalogView,
    l: LookChoices,
)
    requires
        !a.contains('_'),
        !b.contains('_'),
    ensures
        pages::is_plain(cards_text(l.presets@)) ==> with_look_controls(a + "__PRESET_CARDS__"@ + b, t, m, c, l)
            == a + cards_text(l.presets@) + b,
        pages::is_plain(bases_text(l.bases@)) ==> with_look_controls(a + "__BASE_PILLS__"@ + b, t, m, c, l)
            == a + bases_text(l.bases@) + b,
        pages::is_plain(accents_text(l.accents@)) ==> with_look_controls(a + "__ACCENT_SWATCHES__"@ + b, t, m, c, l)
            == a + accents_text(l.accents@) + b,
        pages::is_plain(pills_text("font"@, "appearance"@, l.fonts@)) ==> with_look_controls(a + "__FONT_PILLS__"@ + b, t, m, c, l)
            == a + pills_text("font"@, "appearance"@, l.fonts@) + b,
{
    lemma_look_table(t, m, c, l);
    let o = look_slots(t, m, c, l);
    assert(pages::is_plain(cards_text(l.presets@)) ==> with_look_controls(a + "__PRESET_CARDS__"@ + b, t, m, c, l)
        == a + cards_text(l.presets@) + b) by {
        if pages::is_plain(cards_text(l.presets@)) {
            lemma_look_apart(t, m, c, l, 0);
            lemma_look_slots(a + "__PRESET_CARDS__"@ + b, t, m, c, l);
            pages::each_slot_gets_its_text(a, b, o, 0);
        }
    }
    assert(pages::is_plain(bases_text(l.bases@)) ==> with_look_controls(a + "__BASE_PILLS__"@ + b, t, m, c, l)
        == a + bases_text(l.bases@) + b) by {
        if pages::is_plain(bases_text(l.bases@)) {
            lemma_look_apart(t, m, c, l, 1);
            lemma_look_slots(a + "__BASE_PILLS__"@ + b, t, m, c, l);
            pages::each_slot_gets_its_text(a, b, o, 1);
        }
    }
    assert(pages::is_plain(accents_text(l.accents@)) ==> with_look_controls(a + "__ACCENT_SWATCHES__"@ + b, t, m, c, l)
        == a + accents_text(l.accents@) + b) by {
        if pages::is_plain(accents_text(l.accents@)) {
            lemma_look_apart(t, m, c, l, 2);
            lemma_look_slots(a + "__ACCENT_SWATCHES__"@ + b, t, m, c, l);
            pages::each_slot_gets_its_text(a, b, o, 2);
        }
    }
    assert(pages::is_plain(pills_text("font"@, "appearance"@, l.fonts@)) ==> with_look_controls(a + "__FONT_PILLS__"@ + b, t, m, c, l)
        == a + pills_text("font"@, "appearance"@, l.fonts@) + b) by {
        if pages::is_plain(pills_text("font"@, "appearance"@, l.fonts@)) {
            lemma_look_apart(t, m, c, l, 3);
            lemma_look_slots(a + "__FONT_PILLS__"@ + b, t, m, c, l);
            pages::each_slot_gets_its_text(a, b, o, 3);
        }
    }
}

/// The choices of density, of where and how tabs are shown and of the picture are offered each in the
/// slot for them.
#[verifier::rlimit(60)]
pub proof fn choices_go_into_their_slots(
    a: Seq<char>,
    b: Seq<char>,
    t: ThemeView,
    m: Modules,
    c: CatalogView,
    l: LookChoices,
)
    requires
        !a.contains('_'),
        !b.contains('_'),
    ensures
        pages::is_plain(pills_text("density"@, "appearance"@, l.densities@)) ==> with_look_controls(a + "__DENSITY_PILLS__"@ + b, t, m, c, l)
            == a + pills_text("density"@, "appearance"@, l.densities@) + b,
        pages::is_plain(pills_text("tabpos"@, "appearance"@, l.tab_positions@)) ==> with_look_controls(a + "__TABPOS_PILLS__"@ + b, t, m, c, l)
            == a + pills_text("tabpos"@, "appearance"@, l.tab_positions@) + b,
        pages::is_plain(fits_text(t.tab_fit, c)) ==> with_look_controls(a + "__TABFIT_PILLS__"@ + b, t, m, c, l)
            == a + fits_text(t.tab_fit, c) + b,
        pages::is_plain(pills_text("wallpaper"@, "appearance"@, l.wallpapers@)) ==> with_look_controls(a + "__WALLPAPER_PILLS__"@ + b, t, m, c, l)
            == a + pills_text("wallpaper"@, "appearance"@, l.wallpapers@) + b,
{
    lemma_look_table(t, m, c, l);
    let o = look_slots(t, m, c, l);
    assert(pages::is_plain(pills_text("density"@, "appearance"@, l.densities@)) ==> with_look_controls(a + "__DENSITY_PILLS__"@ + b, t, m, c, l)
        == a + pills_text("density"@, "appearance"@, l.densities@) + b) by {
        if pages::is_plain(pills_text("density"@, "appearance"@, l.densities@)) {
            lemma_look_apart(t, m, c, l, 4);
            lemma_look_slots(a + "__DENSITY_PILLS__"@ + b, t, m, c, l);
            pages::each_slot_gets_its_text(a, b, o, 4);
        }
    }
    assert(pages::is_plain(pills_text("tabpos"@, "appearance"@, l.tab_positions@)) ==> with_look_controls(a + "__TABPOS_PILLS__"@ + b, t, m, c, l)
        == a + pills_text("tabpos"@, "appearance"@, l.tab_positions@) + b) by {
        if pages::is_plain(pills_text("tabpos"@, "appearance"@, l.tab_positions@)) {
            lemma_look_apart(t, m, c, l, 5);
            lemma_look_slots(a + "__TABPOS_PILLS__"@ + b, t, m, c, l);
            pages::each_slot_gets_its_text(a, b, o, 5);
        }
    }
    assert(pages::is_plain(fits_text(t.tab_fit, c)) ==> with_look_controls(a + "__TABFIT_PILLS__"@ + b, t, m, c, l)
        == a + fits_text(t.tab_fit, c) + b) by {
        if pages::is_plain(fits_text(t.tab_fit, c)) {
            lemma_look_apart(t, m, c, l, 6);
            lemma_look_slots(a + "__TABFIT_PILLS__"@ + b, t, m, c, l);
            pages::each_slot_gets_its_text(a, b, o, 6);
        }
    }
    assert(pages::is_plain(pills_text("wallpaper"@, "appearance"@, l.wallpapers@)) ==> with_look_controls(a + "__WALLPAPER_PILLS__"@ + b, t, m, c, l)
        == a + pills_text("wallpaper"@, "appearance"@, l.wallpapers@) + b) by {
        if pages::is_plain(pills_text("wallpaper"@, "appearance"@, l.wallpapers@)) {
            lemma_look_apart(t, m, c, l, 7);
            lemma_look_slots(a + "__WALLPAPER_PILLS__"@ + b, t, m, c, l);
            pages::each_slot_gets_its_text(a, b, o, 7);
        }
    }
}

/// The measures and the parts of the new-tab page are offered each in the slot for them.
#[verifier::rlimit(60)]
pub proof fn measures_go_into_their_slots(
    a: Seq<char>,
    b: Seq<char>,
    t: ThemeView,
    m: Modules,
    c: CatalogView,
    l: LookChoices,
)
    requires
        !a.contains('_'),
        !b.contains('_'),
    ensures
        pages::is_plain(steps_text("radius"@, t.radius as u16, radius_steps(), 6)) ==> with_look_controls(a + "__RADIUS_PILLS__"@ + b, t, m, c, l)
            == a + steps_text("radius"@, t.radius as u16, radius_steps(), 6) + b,
        pages::is_plain(steps_text("glass"@, t.glass as u16, glass_steps(), 6)) ==> with_look_controls(a + "__GLASS_PILLS__"@ + b, t, m, c, l)
            == a + steps_text("glass"@, t.glass as u16, glass_steps(), 6) + b,
        pages::is_plain(steps_text("tabmaxw"@, t.tab_max_w, width_steps(), 6)) ==> with_look_controls(a + "__TABMAXW_PILLS__"@ + b, t, m, c, l)
            == a + steps_text("tabmaxw"@, t.tab_max_w, width_steps(), 6) + b,
        pages::is_plain(modules_text(m)) ==> with_look_controls(a + "__MODULE_TOGGLES__"@ + b, t, m, c, l)
            == a + modules_text(m) + b,
{
    lemma_look_table(t, m, c, l);
    let o = look_slots(t, m, c, l);
    assert(pages::is_plain(steps_text("radius"@, t.radius as u16, radius_steps(), 6)) ==> with_look_controls(a + "__RADIUS_PILLS__"@ + b, t, m, c, l)
        == a + steps_text("radius"@, t.radius as u16, radius_steps(), 6) + b) by {
        if pages::is_plain(steps_text("radius"@, t.radius as u16, radius_steps(), 6)) {
            lemma_look_apart(t, m, c, l, 8);
            lemma_look_slots(a + "__RADIUS_PILLS__"@ + b, t, m, c, l);
            pages::each_slot_gets_its_text(a, b, o, 8);
        }
    }
    assert(pages::is_plain(steps_text("glass"@, t.glass as u16, glass_steps(), 6)) ==> with_look_controls(a + "__GLASS_PILLS__"@ + b, t, m, c, l)
        == a + steps_text("glass"@, t.glass as u16, glass_steps(), 6) + b) by {
        if pages::is_plain(steps_text("glass"@, t.glass as u16, glass_steps(), 6)) {
            lemma_look_apart(t, m, c, l, 9);
            lemma_look_slots(a + "__GLASS_PILLS__"@ + b, t, m, c, l);
            pages::each_slot_gets_its_text(a, b, o, 9);
        }
    }
    assert(pages::is_plain(steps_text("tabmaxw"@, t.tab_max_w, width_steps(), 6)) ==> with_look_controls(a + "__TABMAXW_PILLS__"@ + b, t, m, c, l)
        == a + steps_text("tabmaxw"@, t.tab_max_w, width_steps(), 6) + b) by {
        if pages::is_plain(steps_text("tabmaxw"@, t.tab_max_w, width_steps(), 6)) {
            lemma_look_apart(t, m, c, l, 10);
            lemma_look_slots(a + "__TABMAXW_PILLS__"@ + b, t, m, c, l);
            pages::each_slot_gets_its_text(a, b, o, 10);
        }
    }
    assert(pages::is_plain(modules_text(m)) ==> with_look_controls(a + "__MODULE_TOGGLES__"@ + b, t, m, c, l)
        == a + modules_text(m) + b) by {
        if pages::is_plain(modules_text(m)) {
            lemma_look_apart(t, m, c, l, 11);
            lemma_look_slots(a + "__MODULE_TOGGLES__"@ + b, t, m, c, l);
            pages::each_slot_gets_its_text(a, b, o, 11);
        }
    }
}

} // verus!

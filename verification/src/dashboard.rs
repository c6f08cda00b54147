//! The new-tab page that the browser draws itself: what is on it, and where it leads.

use vstd::prelude::*;
use vstd::string::*;

use crate::address;
use crate::settings::Modules;
use crate::text;

verus! {

/// How many sites stand in a row of the grid.
pub const COLUMNS: usize = 5;

/// A site of the grid: its name, and the letter and the hue, in degrees, of its avatar.
pub struct Site {
    pub name: &'static str,
    pub letter: char,
    pub hue: u32,
    pub domain: &'static str,
}

/// The sites of the grid: name, letter, hue and domain.
pub open spec fn site_at(n: usize) -> Option<(Seq<char>, char, u32, Seq<char>)> {
    match n {
        0 => Some(("Figma"@, 'F', 200, "figma.com"@)),
        1 => Some(("GitHub"@, 'G', 285, "github.com"@)),
        2 => Some(("Linear"@, 'L', 270, "linear.app"@)),
        3 => Some(("Notion"@, 'N', 40, "notion.so"@)),
        4 => Some(("Vercel"@, 'V', 280, "vercel.com"@)),
        5 => Some(("Arc"@, 'A', 330, "arc.net"@)),
        6 => Some(("Raycast"@, 'R', 25, "raycast.com"@)),
        7 => Some(("Spotify"@, 'S', 145, "open.spotify.com"@)),
        8 => Some(("Reader"@, 'R', 55, "getpocket.com"@)),
        9 => Some(("Maps"@, 'M', 230, "maps.google.com"@)),
        _ => None,
    }
}

/// A site of the grid by its place.
pub fn site(n: usize) -> (r: Option<Site>)
    ensures
        match r {
            Some(s) => site_at(n) == Some((s.name@, s.letter, s.hue, s.domain@)),
            None => site_at(n) is None,
        },
{
    match n {
        0 => Some(Site { name: "Figma", letter: 'F', hue: 200, domain: "figma.com" }),
        1 => Some(Site { name: "GitHub", letter: 'G', hue: 285, domain: "github.com" }),
        2 => Some(Site { name: "Linear", letter: 'L', hue: 270, domain: "linear.app" }),
        3 => Some(Site { name: "Notion", letter: 'N', hue: 40, domain: "notion.so" }),
        4 => Some(Site { name: "Vercel", letter: 'V', hue: 280, domain: "vercel.com" }),
        5 => Some(Site { name: "Arc", letter: 'A', hue: 330, domain: "arc.net" }),
        6 => Some(Site { name: "Raycast", letter: 'R', hue: 25, domain: "raycast.com" }),
        7 => Some(Site { name: "Spotify", letter: 'S', hue: 145, domain: "open.spotify.com" }),
        8 => Some(Site { name: "Reader", letter: 'R', hue: 55, domain: "getpocket.com" }),
        9 => Some(Site { name: "Maps", letter: 'M', hue: 230, domain: "maps.google.com" }),
        _ => None,
    }
}

/// Does a row of the grid end behind this site?
pub fn ends_row(n: usize) -> (r: bool)
    ensures
        r == ((n + 1) % COLUMNS as int == 0),
{
    n % COLUMNS == COLUMNS - 1
}

/// What stands on the page, from the top down.
#[derive(Clone, Copy, Debug, PartialEq, Eq, Structural)]
pub enum Section {
    Clock,
    Search,
    Sites,
    /// The notes beside the reading list.
    NotesAndReading,
    Notes,
    Reading,
}

/// The part of a page that has one section or none.
pub open spec fn shown(on: bool, section: Section) -> Seq<Section> {
    if on {
        seq![section]
    } else {
        Seq::empty()
    }
}

/// The sections that are shown.
pub open spec fn shown_sections(m: Modules) -> Seq<Section> {
    shown(m.clock, Section::Clock) + shown(m.search, Section::Search) + shown(
        m.sites,
        Section::Sites,
    ) + shown(m.notes && m.feed, Section::NotesAndReading) + shown(
        m.notes && !m.feed,
        Section::Notes,
    ) + shown(!m.notes && m.feed, Section::Reading)
}

/// Lists the sections that are shown, from the top down.
pub fn sections(m: Modules) -> (r: Vec<Section>)
    ensures
        r@ == shown_sections(m),
{
    let mut out: Vec<Section> = Vec::new();
    if m.clock {
        out.push(Section::Clock);
    }
    if m.search {
        out.push(Section::Search);
    }
    if m.sites {
        out.push(Section::Sites);
    }
    if m.notes && m.feed {
        out.push(Section::NotesAndReading);
    } else if m.notes {
        out.push(Section::Notes);
    } else if m.feed {
        out.push(Section::Reading);
    }
    assert(out@ =~= shown_sections(m));
    out
}

/// Is something searched for with this entry?
pub open spec fn is_search(search: Seq<char>, enter: bool) -> bool {
    enter && text::trimmed(search).len() > 0
}

/// Takes the entry of the search field when Enter is pressed: it is trimmed and the field emptied,
/// unless there is nothing in it.
pub fn section_search(search: &mut String, enter: bool) -> (r: Option<String>)
    ensures
        address::optional_text(r) == if is_search(old(search)@, enter) {
            Some(text::trimmed(old(search)@))
        } else {
            None
        },
        final(search)@ == if is_search(old(search)@, enter) {
            Seq::empty()
        } else {
            old(search)@
        },
{
    if !enter {
        return None;
    }
    let entry: String = text::trim(search.as_str());
    if entry.as_str().unicode_len() == 0 {
        return None;
    }
    *search = String::new();
    assert(search@ =~= Seq::<char>::empty());
    Some(entry)
}

/// The domain of the site clicked, where the sites are shown.
pub open spec fn clicked_domain(m: Modules, clicked: Option<usize>) -> Option<Seq<char>> {
    match clicked {
        Some(n) if m.sites => match site_at(n) {
            Some((_, _, _, domain)) => Some(domain),
            None => None,
        },
        _ => None,
    }
}

/// Where the page leads: to the site clicked, or else to what is searched for. A section that is not
/// shown leads nowhere.
pub open spec fn dashboard_target(
    m: Modules,
    search: Seq<char>,
    enter: bool,
    clicked: Option<usize>,
) -> Option<Seq<char>> {
    match clicked_domain(m, clicked) {
        Some(d) => Some(d),
        None => if m.search && is_search(search, enter) {
            Some(text::trimmed(search))
        } else {
            None
        },
    }
}

/// Takes what was done on the page: an entry in the search field, and a click on a site, by its
/// place in the grid. The result is where the page leads.
pub fn draw_dashboard(
    m: Modules,
    search: &mut String,
    enter: bool,
    clicked: Option<usize>,
) -> (r: Option<String>)
    ensures
        address::optional_text(r) == dashboard_target(m, old(search)@, enter, clicked),
        final(search)@ == if m.search && is_search(old(search)@, enter) {
            Seq::empty()
        } else {
            old(search)@
        },
{
    let searched: Option<String> = if m.search {
        section_search(search, enter)
    } else {
        None
    };
    if m.sites {
        if let Some(n) = clicked {
            if let Some(s) = site(n) {
                return Some(s.domain.to_owned());
            }
        }
    }
    searched
}

/// Only a section that is shown leads anywhere.
pub proof fn only_shown_sections_lead_anywhere(
    m: Modules,
    search: Seq<char>,
    enter: bool,
    clicked: Option<usize>,
)
    requires
        dashboard_target(m, search, enter, clicked) is Some,
    ensures
        shown_sections(m).contains(Section::Sites) || shown_sections(m).contains(Section::Search),
{
    let clock = shown(m.clock, Section::Clock);
    let field = shown(m.search, Section::Search);
    if m.search {
        assert(shown_sections(m)[clock.len() as int] == Section::Search);
    } else {
        assert(shown_sections(m)[(clock.len() + field.len()) as int] == Section::Sites);
    }
}

// ---------------------------------------------------------------------------
// Laws
// ---------------------------------------------------------------------------

/// Where a section stands among all that there are, from the top down.
pub open spec fn height(s: Section) -> nat {
    match s {
        Section::Clock => 0,
        Section::Search => 1,
        Section::Sites => 2,
        Section::NotesAndReading => 3,
        Section::Notes => 3,
        Section::Reading => 3,
    }
}

/// The page shows what the user wants on it, each section once and in the same order; the notes and the
/// reading list stand side by side where both are wanted.
pub proof fn wanted_sections_are_shown(m: Modules)
    ensures
        shown_sections(m).contains(Section::Clock) == m.clock,
        shown_sections(m).contains(Section::Search) == m.search,
        shown_sections(m).contains(Section::Sites) == m.sites,
        shown_sections(m).contains(Section::NotesAndReading) == (m.notes && m.feed),
        shown_sections(m).contains(Section::Notes) == (m.notes && !m.feed),
        shown_sections(m).contains(Section::Reading) == (!m.notes && m.feed),
        forall|i: int, j: int|
            0 <= i < j < shown_sections(m).len() ==> height(#[trigger] shown_sections(m)[i]) < height(
                #[trigger] shown_sections(m)[j],
            ),
{
    let s = shown_sections(m);
    let a: int = if m.clock { 1 } else { 0 };
    let b: int = if m.search { a + 1 } else { a };
    let c: int = if m.sites { b + 1 } else { b };
    assert(m.clock ==> s[0] == Section::Clock);
    assert(m.search ==> s[a] == Section::Search);
    assert(m.sites ==> s[b] == Section::Sites);
    assert(m.notes && m.feed ==> s[c] == Section::NotesAndReading);
    assert(m.notes && !m.feed ==> s[c] == Section::Notes);
    assert(!m.notes && m.feed ==> s[c] == Section::Reading);
    assert(s.len() == c + if m.notes || m.feed { 1int } else { 0 });
}

/// A click on a site leads to its domain, and Enter in the search field to what stands there, without
/// the white space round it; a click comes first. An empty field leads nowhere.
pub proof fn the_page_leads_where_it_was_used(m: Modules, search: Seq<char>, n: usize)
    ensures
        m.sites && n == 0 ==> dashboard_target(m, search, true, Some(n)) == Some("figma.com"@),
        m.sites && n == 1 ==> dashboard_target(m, search, true, Some(n)) == Some("github.com"@),
        m.sites && n == 9 ==> dashboard_target(m, search, false, Some(n)) == Some("maps.google.com"@),
        m.search && text::trimmed(search).len() > 0 ==> dashboard_target(m, search, true, None) == Some(
            text::trimmed(search),
        ),
        m.search && !m.sites && text::trimmed(search).len() > 0 ==> dashboard_target(
            m,
            search,
            true,
            Some(n),
        ) == Some(text::trimmed(search)),
        dashboard_target(m, search, false, None) is None,
        text::trimmed(search).len() == 0 ==> dashboard_target(m, search, true, None) is None,
{
}

} // verus!

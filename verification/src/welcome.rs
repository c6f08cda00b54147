//! The welcome page: the sites visited most, the user's picture, and the parts of the page that
//! the user wants.

use vstd::prelude::*;
use vstd::string::*;

use crate::address;
use crate::codec;
use crate::codec::Rgb;
use crate::pages;
use crate::pages::Palette;
use crate::profile;
use crate::profile::{HistoryEntry, VisitView};
use crate::ranking;
use crate::reports;
use crate::settings::Modules;
use crate::text;
use crate::unicode;

verus! {

/// How many sites the welcome page shows.
pub const MAX_SITES: usize = 10;

// ---------------------------------------------------------------------------
// The picture
// ---------------------------------------------------------------------------

/// An address that can stand in a style sheet: one of a picture on the web or in the address
/// itself, with nothing in it that could end the place it stands in.
pub open spec fn is_safe_picture(w: Seq<char>) -> bool {
    &&& w.len() > 0
    &&& "http://"@.is_prefix_of(w) || "https://"@.is_prefix_of(w) || "data:"@.is_prefix_of(w)
    &&& !w.contains('"')
    &&& !w.contains(')')
    &&& !w.contains('\n')
}

/// The style for the user's picture; none where its address is not safe.
pub open spec fn picture_style(wallpaper: Seq<char>) -> Seq<char> {
    let w = text::trimmed(wallpaper);
    if is_safe_picture(w) {
        "background-image:linear-gradient(rgba(0,0,0,.35),rgba(0,0,0,.55)),url(\""@ + w
            + "\");background-size:cover;background-position:center;background-attachment:fixed;"@
    } else {
        Seq::empty()
    }
}

/// The style for the user's picture.
pub fn wallpaper_css(wallpaper: &str) -> (r: String)
    ensures
        r@ == picture_style(wallpaper@),
{
    let w: String = text::trim(wallpaper);
    let s: &str = w.as_str();
    if s.unicode_len() > 0 && (text::starts_with(s, "http://") || text::starts_with(s, "https://")
        || text::starts_with(s, "data:")) && !text::contains_char(s, '"') && !text::contains_char(
        s,
        ')',
    ) && !text::contains_char(s, '\n') {
        let mut out: String = "background-image:linear-gradient(rgba(0,0,0,.35),rgba(0,0,0,.55)),url(\"".to_owned();
        out.append(s);
        out.append(
            "\");background-size:cover;background-position:center;background-attachment:fixed;",
        );
        out
    } else {
        let out: String = String::new();
        assert(out@ =~= Seq::<char>::empty());
        out
    }
}

/// A picture's address cannot break out of the style it stands in: with a quotation mark, a
/// closing bracket or a line break in it there is no style at all.
pub proof fn pictures_stay_in_their_place(wallpaper: Seq<char>)
    requires
        text::trimmed(wallpaper).contains('"') || text::trimmed(wallpaper).contains(')')
            || text::trimmed(wallpaper).contains('\n'),
    ensures
        picture_style(wallpaper).len() == 0,
{
}

// ---------------------------------------------------------------------------
// The sites visited most
// ---------------------------------------------------------------------------

/// A site on the welcome page.
#[derive(Debug)]
pub struct Site {
    pub href: String,
    pub host: String,
    /// The hue of its icon, in degrees.
    pub hue: u32,
    pub letter: String,
    pub name: String,
}

/// `Site` as mathematical values.
#[verifier::ext_equal]
pub struct SiteView {
    pub href: Seq<char>,
    pub host: Seq<char>,
    pub hue: u32,
    pub letter: Seq<char>,
    pub name: Seq<char>,
}

impl View for Site {
    type V = SiteView;

    open spec fn view(&self) -> SiteView {
        SiteView {
            href: self.href@,
            host: self.host@,
            hue: self.hue,
            letter: self.letter@,
            name: self.name@,
        }
    }
}

/// The sites of a list.
pub open spec fn site_views(v: Seq<Site>) -> Seq<SiteView> {
    Seq::new(v.len(), |i: int| v[i]@)
}

/// The visited pages that are web pages.
pub open spec fn web_visits(h: Seq<VisitView>) -> Seq<VisitView>
    decreases h.len(),
{
    if h.len() == 0 {
        Seq::empty()
    } else if reports::is_web_address(h.last().url) {
        web_visits(h.drop_last()).push(h.last())
    } else {
        web_visits(h.drop_last())
    }
}

/// What a site is called: the title of the page visited, or the host where there is none or it is
/// that of a page that failed to load.
pub open spec fn site_title(title: Seq<char>, host: Seq<char>) -> Seq<char> {
    let t = text::trimmed(title);
    if t.len() == 0 || "Error loading"@.is_prefix_of(t) {
        host
    } else {
        title
    }
}

/// The site of a visited page.
pub open spec fn site_of(v: VisitView, host: Seq<char>) -> SiteView {
    let title = site_title(v.title, host);
    SiteView {
        href: v.url,
        host,
        hue: codec::hue(host),
        letter: unicode::icon_letter(title, true),
        name: codec::shortened(title, 14),
    }
}

/// The sites of some visited pages in order: one for each host, up to the limit. `seen` holds the
/// hosts shown already.
pub open spec fn sites_of(r: Seq<VisitView>, seen: Seq<Seq<char>>) -> Seq<SiteView>
    decreases r.len(),
{
    if r.len() == 0 || seen.len() >= MAX_SITES {
        Seq::empty()
    } else {
        match address::host_of_text(r[0].url) {
            None => sites_of(r.skip(1), seen),
            Some(h) => if seen.contains(h) {
                sites_of(r.skip(1), seen)
            } else {
                seq![site_of(r[0], h)] + sites_of(r.skip(1), seen.push(h))
            },
        }
    }
}

/// The visited web pages, from the most visited to the least.
pub open spec fn by_visits(h: Seq<VisitView>) -> Seq<VisitView> {
    profile::most_visited(web_visits(h), web_visits(h).len())
}

/// The sites visited most.
pub open spec fn top_sites_of(h: Seq<VisitView>) -> Seq<SiteView> {
    sites_of(by_visits(h), Seq::empty())
}

fn make_site(url: &str, title: &str, host: String) -> (r: Site)
    ensures
        forall|v: VisitView|
            v.url == url@ && v.title == title@ ==> r@ == #[trigger] site_of(v, host@),
{
    let t: String = text::trim(title);
    let named: String = if t.as_str().unicode_len() == 0 || text::starts_with(
        t.as_str(),
        "Error loading",
    ) {
        host.clone()
    } else {
        title.to_owned()
    };
    Site {
        href: url.to_owned(),
        hue: codec::favicon_hue(host.as_str()),
        letter: unicode::letter_for(named.as_str(), true),
        name: codec::truncate_ellipsis(named.as_str(), 14),
        host,
    }
}

fn web_entries(history: &Vec<HistoryEntry>) -> (r: (Vec<usize>, Vec<i64>))
    ensures
        r.0@.len() == r.1@.len(),
        r.0@.len() == web_visits(profile::visit_views(history@)).len(),
        forall|k: int| 0 <= k < r.0@.len() ==> (#[trigger] r.0@[k]) < history@.len(),
        forall|k: int|
            0 <= k < r.0@.len() ==> web_visits(profile::visit_views(history@))[k]
                == history@[(#[trigger] r.0@[k]) as int]@,
        forall|k: int|
            0 <= k < r.1@.len() ==> (#[trigger] r.1@[k]) as int == web_visits(
                profile::visit_views(history@),
            )[k].visits as int,
{
    let ghost all = profile::visit_views(history@);
    let mut at: Vec<usize> = Vec::new();
    let mut counts: Vec<i64> = Vec::new();
    let mut i: usize = 0;
    while i < history.len()
        invariant
            i <= history@.len(),
            all == profile::visit_views(history@),
            at@.len() == counts@.len(),
            at@.len() == web_visits(all.take(i as int)).len(),
            forall|k: int| 0 <= k < at@.len() ==> (#[trigger] at@[k]) < history@.len(),
            forall|k: int|
                0 <= k < at@.len() ==> web_visits(all.take(i as int))[k] == history@[(
                #[trigger] at@[k]) as int]@,
            forall|k: int|
                0 <= k < counts@.len() ==> (#[trigger] counts@[k]) as int == web_visits(
                    all.take(i as int),
                )[k].visits as int,
        decreases history@.len() - i,
    {
        assert(all.take(i + 1).drop_last() =~= all.take(i as int));
        assert(all.take(i + 1).last() == history@[i as int]@);
        if reports::web_address(history[i].url.as_str()) {
            at.push(i);
            counts.push(history[i].visits as i64);
        }
        i = i + 1;
    }
    assert(all.take(history@.len() as int) =~= all);
    (at, counts)
}

/// The sites visited most: web pages from the most visited to the least, one for each host.
pub fn top_sites(history: &Vec<HistoryEntry>) -> (r: Vec<Site>)
    ensures
        site_views(r@) == top_sites_of(profile::visit_views(history@)),
{
    let ghost all = profile::visit_views(history@);
    let ghost web = web_visits(all);
    let ghost r = by_visits(all);
    let found: (Vec<usize>, Vec<i64>) = web_entries(history);
    let order: Vec<usize> = ranking::rank(&found.1);
    assert(ranking::ints(found.1@) =~= profile::visit_counts(web));
    let mut out: Vec<Site> = Vec::new();
    let mut seen: Vec<String> = Vec::new();
    let mut k: usize = 0;
    assert(r.skip(0) =~= r);
    assert(text::texts(seen@) =~= Seq::<Seq<char>>::empty());
    assert(site_views(out@) + sites_of(r, Seq::empty()) =~= top_sites_of(all));
    while k < order.len() && seen.len() < MAX_SITES
        invariant
            k <= order@.len(),
            all == profile::visit_views(history@),
            web == web_visits(all),
            r == by_visits(all),
            order@.len() == web.len(),
            r.len() == web.len(),
            found.0@.len() == web.len(),
            ranking::places(order@) == ranking::ranking(profile::visit_counts(web)),
            forall|j: int| 0 <= j < order@.len() ==> (#[trigger] order@[j]) < found.0@.len(),
            forall|j: int| 0 <= j < found.0@.len() ==> (#[trigger] found.0@[j]) < history@.len(),
            forall|j: int|
                0 <= j < found.0@.len() ==> web[j] == history@[(#[trigger] found.0@[j]) as int]@,
            site_views(out@) + sites_of(r.skip(k as int), text::texts(seen@)) == top_sites_of(all),
        decreases order@.len() - k,
    {
        let ghost rest = r.skip(k as int);
        let e: &HistoryEntry = &history[found.0[order[k]]];
        assert(ranking::places(order@)[k as int] == order@[k as int]);
        assert(rest[0] == e@);
        assert(rest.skip(1) =~= r.skip(k + 1));
        match address::host_of(e.url.as_str()) {
            Some(h) => {
                if !text::is_one_of(h.as_str(), &seen) {
                    let ghost before = site_views(out@);
                    let ghost s = text::texts(seen@);
                    let ghost host = h@;
                    seen.push(h.clone());
                    assert(text::texts(seen@) =~= s.push(host));
                    let site: Site = make_site(e.url.as_str(), e.title.as_str(), h);
                    assert(site@ == site_of(e@, host));
                    out.push(site);
                    assert(site_views(out@) =~= before.push(site_of(e@, host)));
                    assert(before + (seq![site_of(e@, host)] + sites_of(
                        r.skip(k + 1),
                        s.push(host),
                    )) =~= site_views(out@) + sites_of(r.skip(k + 1), s.push(host)));
                }
            },
            None => {},
        }
        k = k + 1;
    }
    assert(text::texts(seen@).len() == seen@.len());
    assert(sites_of(r.skip(k as int), text::texts(seen@)) =~= Seq::<SiteView>::empty());
    assert(site_views(out@) + Seq::<SiteView>::empty() =~= site_views(out@));
    out
}

proof fn lemma_sites(r: Seq<VisitView>, seen: Seq<Seq<char>>)
    requires
        seen.len() <= MAX_SITES,
    ensures
        sites_of(r, seen).len() + seen.len() <= MAX_SITES,
        forall|i: int|
            0 <= i < sites_of(r, seen).len() ==> !seen.contains((#[trigger] sites_of(r, seen)[i]).host),
        forall|i: int, j: int|
            0 <= i < j < sites_of(r, seen).len() ==> (#[trigger] sites_of(r, seen)[i]).host != (
            #[trigger] sites_of(r, seen)[j]).host,
    decreases r.len(),
{
    if r.len() > 0 && seen.len() < MAX_SITES {
        match address::host_of_text(r[0].url) {
            None => {
                lemma_sites(r.skip(1), seen);
            },
            Some(h) => {
                if seen.contains(h) {
                    lemma_sites(r.skip(1), seen);
                } else {
                    let s = seen.push(h);
                    lemma_sites(r.skip(1), s);
                    let t = sites_of(r.skip(1), s);
                    let f = sites_of(r, seen);
                    assert(s.contains(h)) by {
                        assert(s[seen.len() as int] == h);
                    }
                    assert forall|x: Seq<char>| seen.contains(x) implies s.contains(x) by {
                        let k = choose|k: int| 0 <= k < seen.len() && seen[k] == x;
                        assert(s[k] == x);
                    }
                    assert forall|i: int| 1 <= i < f.len() implies #[trigger] f[i] == t[i - 1] by {}
                    assert forall|i: int| 0 <= i < f.len() implies !seen.contains(
                        (#[trigger] f[i]).host,
                    ) by {
                        if i > 0 {
                            assert(!s.contains(t[i - 1].host));
                        }
                    }
                    assert forall|i: int, j: int| 0 <= i < j < f.len() implies (#[trigger] f[i]).host
                        != (#[trigger] f[j]).host by {
                        assert(f[j] == t[j - 1]);
                        assert(!s.contains(t[j - 1].host));
                        if i > 0 {
                            assert(f[i] == t[i - 1]);
                            assert(t[i - 1].host != t[j - 1].host);
                        }
                    }
                }
            },
        }
    }
}

/// The welcome page shows at most ten sites, and no host twice.
pub proof fn top_sites_are_few_and_distinct(h: Seq<VisitView>)
    ensures
        top_sites_of(h).len() <= MAX_SITES,
        forall|i: int, j: int|
            0 <= i < j < top_sites_of(h).len() ==> (#[trigger] top_sites_of(h)[i]).host != (
            #[trigger] top_sites_of(h)[j]).host,
{
    lemma_sites(by_visits(h), Seq::empty());
}

/// A site of the set that is shown while nothing has been visited.
pub open spec fn demo_site(name: Seq<char>, letter: Seq<char>, domain: Seq<char>) -> SiteView {
    SiteView {
        href: "https://"@ + domain,
        host: domain,
        hue: codec::hue(domain),
        letter,
        name,
    }
}

/// The sites that are shown while nothing has been visited.
pub open spec fn demo_sites() -> Seq<SiteView> {
    seq![
        demo_site("Figma"@, "F"@, "figma.com"@),
        demo_site("GitHub"@, "G"@, "github.com"@),
        demo_site("Linear"@, "L"@, "linear.app"@),
        demo_site("Notion"@, "N"@, "notion.so"@),
        demo_site("Vercel"@, "V"@, "vercel.com"@),
        demo_site("Arc"@, "A"@, "arc.net"@),
        demo_site("Raycast"@, "R"@, "raycast.com"@),
        demo_site("Spotify"@, "S"@, "open.spotify.com"@),
        demo_site("Reader"@, "R"@, "getpocket.com"@),
        demo_site("Maps"@, "M"@, "maps.google.com"@),
    ]
}

fn make_demo(name: &str, letter: &str, domain: &str) -> (r: Site)
    ensures
        r@ == demo_site(name@, letter@, domain@),
{
    let mut href: String = "https://".to_owned();
    href.append(domain);
    Site {
        href,
        host: domain.to_owned(),
        hue: codec::favicon_hue(domain),
        letter: letter.to_owned(),
        name: name.to_owned(),
    }
}

/// The sites on the welcome page: those visited most, or a set to start with.
pub open spec fn shown_sites(h: Seq<VisitView>) -> Seq<SiteView> {
    if top_sites_of(h).len() == 0 {
        demo_sites()
    } else {
        top_sites_of(h)
    }
}

/// The sites on the welcome page.
pub fn sites_to_show(history: &Vec<HistoryEntry>) -> (r: Vec<Site>)
    ensures
        site_views(r@) == shown_sites(profile::visit_views(history@)),
{
    let top: Vec<Site> = top_sites(history);
    assert(site_views(top@).len() == top@.len());
    if top.len() > 0 {
        return top;
    }
    let mut out: Vec<Site> = Vec::new();
    out.push(make_demo("Figma", "F", "figma.com"));
    out.push(make_demo("GitHub", "G", "github.com"));
    out.push(make_demo("Linear", "L", "linear.app"));
    out.push(make_demo("Notion", "N", "notion.so"));
    out.push(make_demo("Vercel", "V", "vercel.com"));
    out.push(make_demo("Arc", "A", "arc.net"));
    out.push(make_demo("Raycast", "R", "raycast.com"));
    out.push(make_demo("Spotify", "S", "open.spotify.com"));
    out.push(make_demo("Reader", "R", "getpocket.com"));
    out.push(make_demo("Maps", "M", "maps.google.com"));
    assert(site_views(out@) =~= demo_sites());
    out
}

// ---------------------------------------------------------------------------
// The page
// ---------------------------------------------------------------------------

/// A site's tile: its letter on its colour, under its icon where there is one.
pub open spec fn tile_text(s: SiteView, colour: Rgb) -> Seq<char> {
    "<a class=\"tile\" href=\""@ + codec::html(s.href)
        + "\"><span class=\"av\" style=\"background:"@ + codec::colour_text(colour) + "\">"@
        + codec::html(s.letter) + "<img src=\"gator://favicon/"@ + codec::html(s.host)
        + "\" alt=\"\" loading=\"lazy\" onerror=\"this.remove()\" onload=\"this.classList.add('on')\"></span><span class=\"nm\">"@
        + codec::html(s.name) + "</span></a>"@
}

fn write_tile(s: &Site, colour: Rgb) -> (r: String)
    ensures
        r@ == tile_text(s@, colour),
{
    let mut out: String = "<a class=\"tile\" href=\"".to_owned();
    out.append(codec::html_escape(s.href.as_str()).as_str());
    out.append("\"><span class=\"av\" style=\"background:");
    out.append(codec::color_hex(colour).as_str());
    out.append("\">");
    out.append(codec::html_escape(s.letter.as_str()).as_str());
    out.append("<img src=\"gator://favicon/");
    out.append(codec::html_escape(s.host.as_str()).as_str());
    out.append(
        "\" alt=\"\" loading=\"lazy\" onerror=\"this.remove()\" onload=\"this.classList.add('on')\"></span><span class=\"nm\">",
    );
    out.append(codec::html_escape(s.name.as_str()).as_str());
    out.append("</span></a>");
    out
}

/// The tiles of some sites.
pub open spec fn tiles_text(s: Seq<SiteView>, colours: Seq<Rgb>) -> Seq<char>
    decreases s.len(),
{
    if s.len() == 0 {
        Seq::empty()
    } else {
        tiles_text(s.drop_last(), colours) + tile_text(s.last(), colours[s.len() - 1])
    }
}

fn write_tiles(sites: &Vec<Site>, colours: &Vec<Rgb>) -> (r: String)
    requires
        sites@.len() == colours@.len(),
    ensures
        r@ == tiles_text(site_views(sites@), colours@),
{
    let ghost all = site_views(sites@);
    let mut out: String = String::new();
    let mut i: usize = 0;
    assert(out@ =~= tiles_text(all.take(0), colours@));
    while i < sites.len()
        invariant
            i <= sites@.len(),
            sites@.len() == colours@.len(),
            all == site_views(sites@),
            out@ == tiles_text(all.take(i as int), colours@),
        decreases sites@.len() - i,
    {
        assert(all.take(i + 1).drop_last() =~= all.take(i as int));
        assert(all.take(i + 1).last() == all[i as int]);
        out.append(write_tile(&sites[i], colours[i]).as_str());
        i = i + 1;
    }
    assert(all.take(sites@.len() as int) =~= all);
    out
}

/// The mark on a part of the page that the user does not want.
pub open spec fn hidden_mark(on: bool) -> Seq<char> {
    if on {
        ""@
    } else {
        "hidden"@
    }
}

fn mark_hidden(on: bool) -> (r: &'static str)
    ensures
        r@ == hidden_mark(on),
{
    if on {
        ""
    } else {
        "hidden"
    }
}

/// The keys that call up the command palette, as the page shows them.
pub open spec fn palette_keys(mac: bool) -> Seq<char> {
    if mac {
        "\u{2318}K"@
    } else {
        "Ctrl K"@
    }
}

/// The welcome page, from its template.
pub open spec fn welcome_text(
    template: Seq<char>,
    wallpaper: Seq<char>,
    modules: Modules,
    tiles: Seq<char>,
    mac: bool,
    p: Palette,
) -> Seq<char> {
    let t = text::replaced(template, "__WALLPAPER__"@, picture_style(wallpaper));
    let t = text::replaced(t, "__TOPSITES__"@, tiles);
    let t = text::replaced(t, "__CLOCK_HIDE__"@, hidden_mark(modules.clock));
    let t = text::replaced(t, "__SEARCH_HIDE__"@, hidden_mark(modules.search));
    let t = text::replaced(t, "__KBD__"@, palette_keys(mac));
    let t = text::replaced(t, "__SITES_HIDE__"@, hidden_mark(modules.sites));
    let t = text::replaced(t, "__NOTES_HIDE__"@, hidden_mark(modules.notes));
    let t = text::replaced(t, "__FEED_HIDE__"@, hidden_mark(modules.feed));
    pages::coloured(t, p)
}

/// The welcome page, from its template. `colours` holds the colour of each site's icon.
pub fn render_gator_welcome(
    template: &str,
    wallpaper: &str,
    modules: Modules,
    sites: &Vec<Site>,
    colours: &Vec<Rgb>,
    mac: bool,
    p: &Palette,
) -> (r: String)
    requires
        sites@.len() == colours@.len(),
    ensures
        r@ == welcome_text(
            template@,
            wallpaper@,
            modules,
            tiles_text(site_views(sites@), colours@),
            mac,
            *p,
        ),
{
    let tiles: String = write_tiles(sites, colours);
    let keys: &str = if mac {
        "\u{2318}K"
    } else {
        "Ctrl K"
    };
    let t: String = pages::fill(template, "__WALLPAPER__", wallpaper_css(wallpaper).as_str());
    let t: String = pages::fill(t.as_str(), "__TOPSITES__", tiles.as_str());
    let t: String = pages::fill(t.as_str(), "__CLOCK_HIDE__", mark_hidden(modules.clock));
    let t: String = pages::fill(t.as_str(), "__SEARCH_HIDE__", mark_hidden(modules.search));
    let t: String = pages::fill(t.as_str(), "__KBD__", keys);
    let t: String = pages::fill(t.as_str(), "__SITES_HIDE__", mark_hidden(modules.sites));
    let t: String = pages::fill(t.as_str(), "__NOTES_HIDE__", mark_hidden(modules.notes));
    let t: String = pages::fill(t.as_str(), "__FEED_HIDE__", mark_hidden(modules.feed));
    pages::themed(t.as_str(), p)
}

// ---------------------------------------------------------------------------
// Laws
// ---------------------------------------------------------------------------

proof fn lemma_sites_come_from_visits(r: Seq<VisitView>, seen: Seq<Seq<char>>, k: int)
    requires
        0 <= k < sites_of(r, seen).len(),
    ensures
        exists|j: int|
            0 <= j < r.len() && address::host_of_text((#[trigger] r[j]).url) is Some && sites_of(r, seen)[k]
                == site_of(r[j], address::host_of_text(r[j].url)->0),
    decreases r.len(),
{
    let rest = r.skip(1);
    match address::host_of_text(r[0].url) {
        None => {
            lemma_sites_come_from_visits(rest, seen, k);
            let j = choose|j: int|
                0 <= j < rest.len() && address::host_of_text((#[trigger] rest[j]).url) is Some && sites_of(
                    rest,
                    seen,
                )[k] == site_of(rest[j], address::host_of_text(rest[j].url)->0);
            assert(r[j + 1] == rest[j]);
        },
        Some(h) => {
            if seen.contains(h) {
                lemma_sites_come_from_visits(rest, seen, k);
                let j = choose|j: int|
                    0 <= j < rest.len() && address::host_of_text((#[trigger] rest[j]).url) is Some
                        && sites_of(rest, seen)[k] == site_of(
                        rest[j],
                        address::host_of_text(rest[j].url)->0,
                    );
                assert(r[j + 1] == rest[j]);
            } else if k == 0 {
                assert(sites_of(r, seen)[0] == site_of(r[0], h));
            } else {
                let more = seen.push(h);
                lemma_sites_come_from_visits(rest, more, k - 1);
                let j = choose|j: int|
                    0 <= j < rest.len() && address::host_of_text((#[trigger] rest[j]).url) is Some
                        && sites_of(rest, more)[k - 1] == site_of(
                        rest[j],
                        address::host_of_text(rest[j].url)->0,
                    );
                assert(r[j + 1] == rest[j]);
                assert(sites_of(r, seen)[k] == sites_of(rest, more)[k - 1]);
            }
        },
    }
}

proof fn lemma_hosts_have_sites(r: Seq<VisitView>, seen: Seq<Seq<char>>, j: int)
    requires
        0 <= j < r.len(),
        address::host_of_text(r[j].url) is Some,
        seen.len() + sites_of(r, seen).len() < 10,
    ensures
        seen.contains(address::host_of_text(r[j].url)->0) || exists|k: int|
            0 <= k < sites_of(r, seen).len() && (#[trigger] sites_of(r, seen)[k]).host
                == address::host_of_text(r[j].url)->0,
    decreases r.len(),
{
    let rest = r.skip(1);
    let want = address::host_of_text(r[j].url)->0;
    if j > 0 {
        assert(rest[j - 1] == r[j]);
    }
    match address::host_of_text(r[0].url) {
        None => {
            lemma_hosts_have_sites(rest, seen, j - 1);
        },
        Some(h) => {
            if seen.contains(h) {
                if j > 0 {
                    lemma_hosts_have_sites(rest, seen, j - 1);
                }
            } else {
                let more = seen.push(h);
                assert(sites_of(r, seen)[0].host == h);
                if j > 0 {
                    lemma_hosts_have_sites(rest, more, j - 1);
                    if more.contains(want) {
                        let i = choose|i: int| 0 <= i < more.len() && more[i] == want;
                        if i < seen.len() {
                            assert(seen[i] == want);
                        }
                    } else {
                        let k = choose|k: int|
                            0 <= k < sites_of(rest, more).len() && (#[trigger] sites_of(rest, more)[k]).host
                                == want;
                        assert(sites_of(r, seen)[k + 1] == sites_of(rest, more)[k]);
                    }
                }
            }
        },
    }
}

proof fn lemma_web_visits(h: Seq<VisitView>)
    ensures
        web_visits(h) == h.filter(
            |v: VisitView| "http://"@.is_prefix_of(v.url) || "https://"@.is_prefix_of(v.url),
        ),
    decreases h.len(),
{
    reveal(Seq::filter);
    if h.len() > 0 {
        lemma_web_visits(h.drop_last());
    }
}

/// Every site on the welcome page was visited: it leads to the address of a web page of the history and
/// has that page's host.
pub proof fn shown_sites_were_visited(h: Seq<VisitView>, k: int)
    requires
        0 <= k < top_sites_of(h).len(),
    ensures
        exists|v: VisitView| #[trigger]
            h.contains(v) && ("http://"@.is_prefix_of(v.url) || "https://"@.is_prefix_of(v.url))
                && top_sites_of(h)[k].href == v.url && Some(top_sites_of(h)[k].host)
                == address::host_of_text(v.url),
{
    let w = web_visits(h);
    let r = by_visits(h);
    lemma_sites_come_from_visits(r, Seq::empty(), k);
    let j = choose|j: int|
        0 <= j < r.len() && address::host_of_text((#[trigger] r[j]).url) is Some && sites_of(
            r,
            Seq::empty(),
        )[k] == site_of(r[j], address::host_of_text(r[j].url)->0);
    let keys = profile::visit_counts(w);
    ranking::ranking_is_stable(keys, keys.len());
    let at = ranking::ranking(keys)[j];
    assert(r[j] == w[at]);
    lemma_web_visits(h);
    let p = |v: VisitView| "http://"@.is_prefix_of(v.url) || "https://"@.is_prefix_of(v.url);
    assert(w == h.filter(p));
    h.lemma_filter_contains_rev(p, w[at]);
    h.lemma_filter_pred(p, at);
}

/// Every host of a web page that was visited has its site, as long as there is room.
pub proof fn visited_hosts_are_shown(h: Seq<VisitView>, i: int)
    requires
        0 <= i < h.len(),
        "http://"@.is_prefix_of(h[i].url) || "https://"@.is_prefix_of(h[i].url),
        address::host_of_text(h[i].url) is Some,
        top_sites_of(h).len() < 10,
    ensures
        exists|k: int|
            0 <= k < top_sites_of(h).len() && Some((#[trigger] top_sites_of(h)[k]).host)
                == address::host_of_text(h[i].url),
{
    let w = web_visits(h);
    lemma_web_visits(h);
    let p = |v: VisitView| "http://"@.is_prefix_of(v.url) || "https://"@.is_prefix_of(v.url);
    assert(w == h.filter(p));
    h.lemma_filter_contains(p, i);
    let at = choose|at: int| 0 <= at < w.len() && w[at] == h[i];
    let keys = profile::visit_counts(w);
    ranking::ranking_is_stable(keys, keys.len());
    let order = ranking::ranking(keys);
    assert(order.contains(at));
    let j = choose|j: int| 0 <= j < order.len() && order[j] == at;
    assert(by_visits(h)[j] == h[i]);
    lemma_hosts_have_sites(by_visits(h), Seq::empty(), j);
}

/// The web page that was visited most is the first site.
pub proof fn the_most_visited_page_is_the_first_site(h: Seq<VisitView>, i: int)
    requires
        0 <= i < h.len(),
        "http://"@.is_prefix_of(h[i].url) || "https://"@.is_prefix_of(h[i].url),
        address::host_of_text(h[i].url) is Some,
        forall|k: int|
            0 <= k < h.len() && (#[trigger] h[k]) != h[i] && ("http://"@.is_prefix_of(h[k].url)
                || "https://"@.is_prefix_of(h[k].url)) ==> h[k].visits < h[i].visits,
    ensures
        top_sites_of(h).len() > 0,
        top_sites_of(h)[0].href == h[i].url,
        Some(top_sites_of(h)[0].host) == address::host_of_text(h[i].url),
{
    let w = web_visits(h);
    lemma_web_visits(h);
    let p = |v: VisitView| "http://"@.is_prefix_of(v.url) || "https://"@.is_prefix_of(v.url);
    assert(w == h.filter(p));
    h.lemma_filter_contains(p, i);
    let at = choose|at: int| 0 <= at < w.len() && w[at] == h[i];
    let keys = profile::visit_counts(w);
    ranking::ranking_is_stable(keys, keys.len());
    let order = ranking::ranking(keys);
    assert(order.contains(at));
    let j = choose|j: int| 0 <= j < order.len() && order[j] == at;
    let first = w[order[0]];
    h.lemma_filter_contains_rev(p, first);
    h.lemma_filter_pred(p, order[0]);
    let k = choose|k: int| 0 <= k < h.len() && h[k] == first;
    if j > 0 {
        assert(ranking::precedes(keys, order[0], order[j]));
        assert(keys[order[0]] == first.visits && keys[order[j]] == h[i].visits);
    }
    assert(first == h[i]);
    let r = by_visits(h);
    assert(r[0] == h[i]);
    assert(sites_of(r, Seq::empty())[0] == site_of(r[0], address::host_of_text(r[0].url)->0));
}

/// A site is called by the title of its page, cut where it is long; one whose page has no title, or
/// failed to load, is called by its host.
pub proof fn sites_are_called_by_their_title(v: VisitView, host: Seq<char>)
    ensures
        site_of(v, host).href == v.url,
        site_of(v, host).host == host,
        text::trimmed(v.title).len() > 0 && !"Error loading"@.is_prefix_of(text::trimmed(v.title))
            && v.title.len() <= 14 ==> site_of(v, host).name == v.title,
        text::trimmed(v.title).len() > 0 && !"Error loading"@.is_prefix_of(text::trimmed(v.title))
            && v.title.len() > 14 ==> site_of(v, host).name == v.title.take(13).push('…'),
        text::trimmed(v.title).len() == 0 && host.len() <= 14 ==> site_of(v, host).name == host,
        "Error loading"@.is_prefix_of(text::trimmed(v.title)) && host.len() <= 14 ==> site_of(v, host).name
            == host,
{
}

/// A picture from the web, or one that is its own address, is shown behind the page; any other is not.
pub proof fn safe_pictures_are_shown(w: Seq<char>)
    requires
        text::trimmed(w) == w,
    ensures
        ("http://"@.is_prefix_of(w) || "https://"@.is_prefix_of(w) || "data:"@.is_prefix_of(w))
            && !w.contains('"') && !w.contains(')') && !w.contains('\n') ==> picture_style(w)
            == "background-image:linear-gradient(rgba(0,0,0,.35),rgba(0,0,0,.55)),url(\""@ + w
            + "\");background-size:cover;background-position:center;background-attachment:fixed;"@,
        !"http://"@.is_prefix_of(w) && !"https://"@.is_prefix_of(w) && !"data:"@.is_prefix_of(w)
            ==> picture_style(w).len() == 0,
{
    reveal_strlit("http://");
    reveal_strlit("https://");
    reveal_strlit("data:");
}

/// The slots of the welcome page.
pub open spec fn is_welcome_slot(s: Seq<char>) -> bool {
    s == "__WALLPAPER__"@ || s == "__TOPSITES__"@ || s == "__CLOCK_HIDE__"@ || s == "__SEARCH_HIDE__"@ || s == "__KBD__"@ || s == "__SITES_HIDE__"@ || s == "__NOTES_HIDE__"@ || s == "__FEED_HIDE__"@
}

proof fn lemma_welcome_names()
    ensures
        pages::is_slot("__WALLPAPER__"@),
        pages::is_slot("__TOPSITES__"@),
        pages::is_slot("__CLOCK_HIDE__"@),
        pages::is_slot("__SEARCH_HIDE__"@),
        pages::is_slot("__KBD__"@),
        pages::is_slot("__SITES_HIDE__"@),
        pages::is_slot("__NOTES_HIDE__"@),
        pages::is_slot("__FEED_HIDE__"@),
        "__TOPSITES__"@ != "__WALLPAPER__"@,
        "__CLOCK_HIDE__"@ != "__WALLPAPER__"@,
        "__CLOCK_HIDE__"@ != "__TOPSITES__"@,
        "__SEARCH_HIDE__"@ != "__WALLPAPER__"@,
        "__SEARCH_HIDE__"@ != "__TOPSITES__"@,
        "__SEARCH_HIDE__"@ != "__CLOCK_HIDE__"@,
        "__KBD__"@ != "__WALLPAPER__"@,
        "__KBD__"@ != "__TOPSITES__"@,
        "__KBD__"@ != "__CLOCK_HIDE__"@,
        "__KBD__"@ != "__SEARCH_HIDE__"@,
        "__SITES_HIDE__"@ != "__WALLPAPER__"@,
        "__SITES_HIDE__"@ != "__TOPSITES__"@,
        "__SITES_HIDE__"@ != "__CLOCK_HIDE__"@,
        "__SITES_HIDE__"@ != "__SEARCH_HIDE__"@,
        "__SITES_HIDE__"@ != "__KBD__"@,
        "__NOTES_HIDE__"@ != "__WALLPAPER__"@,
        "__NOTES_HIDE__"@ != "__TOPSITES__"@,
        "__NOTES_HIDE__"@ != "__CLOCK_HIDE__"@,
        "__NOTES_HIDE__"@ != "__SEARCH_HIDE__"@,
        "__NOTES_HIDE__"@ != "__KBD__"@,
        "__NOTES_HIDE__"@ != "__SITES_HIDE__"@,
        "__FEED_HIDE__"@ != "__WALLPAPER__"@,
        "__FEED_HIDE__"@ != "__TOPSITES__"@,
        "__FEED_HIDE__"@ != "__CLOCK_HIDE__"@,
        "__FEED_HIDE__"@ != "__SEARCH_HIDE__"@,
        "__FEED_HIDE__"@ != "__KBD__"@,
        "__FEED_HIDE__"@ != "__SITES_HIDE__"@,
        "__FEED_HIDE__"@ != "__NOTES_HIDE__"@,
{
    reveal_strlit("__WALLPAPER__");
    assert("__WALLPAPER__"@.len() == 13);
    assert("__WALLPAPER__"@[0] == '_' && "__WALLPAPER__"@[1] == '_' && "__WALLPAPER__"@[2] == 'W' && "__WALLPAPER__"@[3] == 'A' && "__WALLPAPER__"@[4] == 'L' && "__WALLPAPER__"@[5] == 'L' && "__WALLPAPER__"@[6] == 'P' && "__WALLPAPER__"@[7] == 'A' && "__WALLPAPER__"@[8] == 'P' && "__WALLPAPER__"@[9] == 'E' && "__WALLPAPER__"@[10] == 'R' && "__WALLPAPER__"@[11] == '_' && "__WALLPAPER__"@[12] == '_');
    assert(pages::is_slot("__WALLPAPER__"@));
    reveal_strlit("__TOPSITES__");
    assert("__TOPSITES__"@.len() == 12);
    assert("__TOPSITES__"@[0] == '_' && "__TOPSITES__"@[1] == '_' && "__TOPSITES__"@[2] == 'T' && "__TOPSITES__"@[3] == 'O' && "__TOPSITES__"@[4] == 'P' && "__TOPSITES__"@[5] == 'S' && "__TOPSITES__"@[6] == 'I' && "__TOPSITES__"@[7] == 'T' && "__TOPSITES__"@[8] == 'E' && "__TOPSITES__"@[9] == 'S' && "__TOPSITES__"@[10] == '_' && "__TOPSITES__"@[11] == '_');
    assert(pages::is_slot("__TOPSITES__"@));
    reveal_strlit("__CLOCK_HIDE__");
    assert("__CLOCK_HIDE__"@.len() == 14);
    assert("__CLOCK_HIDE__"@[0] == '_' && "__CLOCK_HIDE__"@[1] == '_' && "__CLOCK_HIDE__"@[2] == 'C' && "__CLOCK_HIDE__"@[3] == 'L' && "__CLOCK_HIDE__"@[4] == 'O' && "__CLOCK_HIDE__"@[5] == 'C' && "__CLOCK_HIDE__"@[6] == 'K' && "__CLOCK_HIDE__"@[7] == '_' && "__CLOCK_HIDE__"@[8] == 'H' && "__CLOCK_HIDE__"@[9] == 'I' && "__CLOCK_HIDE__"@[10] == 'D' && "__CLOCK_HIDE__"@[11] == 'E' && "__CLOCK_HIDE__"@[12] == '_' && "__CLOCK_HIDE__"@[13] == '_');
    assert(pages::is_slot("__CLOCK_HIDE__"@));
    reveal_strlit("__SEARCH_HIDE__");
    assert("__SEARCH_HIDE__"@.len() == 15);
    assert("__SEARCH_HIDE__"@[0] == '_' && "__SEARCH_HIDE__"@[1] == '_' && "__SEARCH_HIDE__"@[2] == 'S' && "__SEARCH_HIDE__"@[3] == 'E' && "__SEARCH_HIDE__"@[4] == 'A' && "__SEARCH_HIDE__"@[5] == 'R' && "__SEARCH_HIDE__"@[6] == 'C' && "__SEARCH_HIDE__"@[7] == 'H' && "__SEARCH_HIDE__"@[8] == '_' && "__SEARCH_HIDE__"@[9] == 'H' && "__SEARCH_HIDE__"@[10] == 'I' && "__SEARCH_HIDE__"@[11] == 'D' && "__SEARCH_HIDE__"@[12] == 'E' && "__SEARCH_HIDE__"@[13] == '_' && "__SEARCH_HIDE__"@[14] == '_');
    assert(pages::is_slot("__SEARCH_HIDE__"@));
    reveal_strlit("__KBD__");
    assert("__KBD__"@.len() == 7);
    assert("__KBD__"@[0] == '_' && "__KBD__"@[1] == '_' && "__KBD__"@[2] == 'K' && "__KBD__"@[3] == 'B' && "__KBD__"@[4] == 'D' && "__KBD__"@[5] == '_' && "__KBD__"@[6] == '_');
    assert(pages::is_slot("__KBD__"@));
    reveal_strlit("__SITES_HIDE__");
    assert("__SITES_HIDE__"@.len() == 14);
    assert("__SITES_HIDE__"@[0] == '_' && "__SITES_HIDE__"@[1] == '_' && "__SITES_HIDE__"@[2] == 'S' && "__SITES_HIDE__"@[3] == 'I' && "__SITES_HIDE__"@[4] == 'T' && "__SITES_HIDE__"@[5] == 'E' && "__SITES_HIDE__"@[6] == 'S' && "__SITES_HIDE__"@[7] == '_' && "__SITES_HIDE__"@[8] == 'H' && "__SITES_HIDE__"@[9] == 'I' && "__SITES_HIDE__"@[10] == 'D' && "__SITES_HIDE__"@[11] == 'E' && "__SITES_HIDE__"@[12] == '_' && "__SITES_HIDE__"@[13] == '_');
    assert(pages::is_slot("__SITES_HIDE__"@));
    reveal_strlit("__NOTES_HIDE__");
    assert("__NOTES_HIDE__"@.len() == 14);
    assert("__NOTES_HIDE__"@[0] == '_' && "__NOTES_HIDE__"@[1] == '_' && "__NOTES_HIDE__"@[2] == 'N' && "__NOTES_HIDE__"@[3] == 'O' && "__NOTES_HIDE__"@[4] == 'T' && "__NOTES_HIDE__"@[5] == 'E' && "__NOTES_HIDE__"@[6] == 'S' && "__NOTES_HIDE__"@[7] == '_' && "__NOTES_HIDE__"@[8] == 'H' && "__NOTES_HIDE__"@[9] == 'I' && "__NOTES_HIDE__"@[10] == 'D' && "__NOTES_HIDE__"@[11] == 'E' && "__NOTES_HIDE__"@[12] == '_' && "__NOTES_HIDE__"@[13] == '_');
    assert(pages::is_slot("__NOTES_HIDE__"@));
    reveal_strlit("__FEED_HIDE__");
    assert("__FEED_HIDE__"@.len() == 13);
    assert("__FEED_HIDE__"@[0] == '_' && "__FEED_HIDE__"@[1] == '_' && "__FEED_HIDE__"@[2] == 'F' && "__FEED_HIDE__"@[3] == 'E' && "__FEED_HIDE__"@[4] == 'E' && "__FEED_HIDE__"@[5] == 'D' && "__FEED_HIDE__"@[6] == '_' && "__FEED_HIDE__"@[7] == 'H' && "__FEED_HIDE__"@[8] == 'I' && "__FEED_HIDE__"@[9] == 'D' && "__FEED_HIDE__"@[10] == 'E' && "__FEED_HIDE__"@[11] == '_' && "__FEED_HIDE__"@[12] == '_');
    assert(pages::is_slot("__FEED_HIDE__"@));
}

#[verifier::rlimit(60)]
proof fn lemma_welcome_slot(
    a: Seq<char>,
    slot: Seq<char>,
    b: Seq<char>,
    with: Seq<char>,
    wallpaper: Seq<char>,
    modules: Modules,
    tiles: Seq<char>,
    mac: bool,
    p: Palette,
)
    requires
        !a.contains('_'),
        !b.contains('_'),
        pages::is_plain(with),
        is_welcome_slot(slot),
        slot == "__WALLPAPER__"@ ==> with == picture_style(wallpaper),
        slot == "__TOPSITES__"@ ==> with == tiles,
        slot == "__CLOCK_HIDE__"@ ==> with == hidden_mark(modules.clock),
        slot == "__SEARCH_HIDE__"@ ==> with == hidden_mark(modules.search),
        slot == "__KBD__"@ ==> with == palette_keys(mac),
        slot == "__SITES_HIDE__"@ ==> with == hidden_mark(modules.sites),
        slot == "__NOTES_HIDE__"@ ==> with == hidden_mark(modules.notes),
        slot == "__FEED_HIDE__"@ ==> with == hidden_mark(modules.feed),
    ensures
        welcome_text(a + slot + b, wallpaper, modules, tiles, mac, p) == a + with + b,
{
    lemma_welcome_names();
    pages::lemma_plain_whole(a, with, b);
    pages::lemma_fills(a, slot, b, "__WALLPAPER__"@, picture_style(wallpaper));
    pages::lemma_no_slot(a + with + b, "__WALLPAPER__"@, picture_style(wallpaper));
    pages::lemma_fills(a, slot, b, "__TOPSITES__"@, tiles);
    pages::lemma_no_slot(a + with + b, "__TOPSITES__"@, tiles);
    pages::lemma_fills(a, slot, b, "__CLOCK_HIDE__"@, hidden_mark(modules.clock));
    pages::lemma_no_slot(a + with + b, "__CLOCK_HIDE__"@, hidden_mark(modules.clock));
    pages::lemma_fills(a, slot, b, "__SEARCH_HIDE__"@, hidden_mark(modules.search));
    pages::lemma_no_slot(a + with + b, "__SEARCH_HIDE__"@, hidden_mark(modules.search));
    pages::lemma_fills(a, slot, b, "__KBD__"@, palette_keys(mac));
    pages::lemma_no_slot(a + with + b, "__KBD__"@, palette_keys(mac));
    pages::lemma_fills(a, slot, b, "__SITES_HIDE__"@, hidden_mark(modules.sites));
    pages::lemma_no_slot(a + with + b, "__SITES_HIDE__"@, hidden_mark(modules.sites));
    pages::lemma_fills(a, slot, b, "__NOTES_HIDE__"@, hidden_mark(modules.notes));
    pages::lemma_no_slot(a + with + b, "__NOTES_HIDE__"@, hidden_mark(modules.notes));
    pages::lemma_fills(a, slot, b, "__FEED_HIDE__"@, hidden_mark(modules.feed));
    pages::lemma_no_slot(a + with + b, "__FEED_HIDE__"@, hidden_mark(modules.feed));
    pages::pages_without_slots_stay(a + with + b, p);
}

/// A part of the welcome page that the user does not want is marked as hidden, and any other is not;
/// the sites and the keys of the command palette go where they belong.
pub proof fn the_welcome_page_shows_what_is_wanted(
    a: Seq<char>,
    b: Seq<char>,
    wallpaper: Seq<char>,
    modules: Modules,
    tiles: Seq<char>,
    mac: bool,
    p: Palette,
)
    requires
        !a.contains('_'),
        !b.contains('_'),
        pages::is_plain(tiles),
    ensures
        modules.clock ==> welcome_text(a + "__CLOCK_HIDE__"@ + b, wallpaper, modules, tiles, mac, p) == a + b,
        !modules.clock ==> welcome_text(a + "__CLOCK_HIDE__"@ + b, wallpaper, modules, tiles, mac, p) == a
            + "hidden"@ + b,
        modules.search ==> welcome_text(a + "__SEARCH_HIDE__"@ + b, wallpaper, modules, tiles, mac, p) == a + b,
        !modules.search ==> welcome_text(a + "__SEARCH_HIDE__"@ + b, wallpaper, modules, tiles, mac, p) == a
            + "hidden"@ + b,
        modules.sites ==> welcome_text(a + "__SITES_HIDE__"@ + b, wallpaper, modules, tiles, mac, p) == a + b,
        !modules.sites ==> welcome_text(a + "__SITES_HIDE__"@ + b, wallpaper, modules, tiles, mac, p) == a
            + "hidden"@ + b,
        modules.notes ==> welcome_text(a + "__NOTES_HIDE__"@ + b, wallpaper, modules, tiles, mac, p) == a + b,
        !modules.notes ==> welcome_text(a + "__NOTES_HIDE__"@ + b, wallpaper, modules, tiles, mac, p) == a
            + "hidden"@ + b,
        modules.feed ==> welcome_text(a + "__FEED_HIDE__"@ + b, wallpaper, modules, tiles, mac, p) == a + b,
        !modules.feed ==> welcome_text(a + "__FEED_HIDE__"@ + b, wallpaper, modules, tiles, mac, p) == a
            + "hidden"@ + b,
        welcome_text(a + "__TOPSITES__"@ + b, wallpaper, modules, tiles, mac, p) == a + tiles + b,
        mac ==> welcome_text(a + "__KBD__"@ + b, wallpaper, modules, tiles, mac, p) == a
            + "\u{2318}K"@ + b,
        !mac ==> welcome_text(a + "__KBD__"@ + b, wallpaper, modules, tiles, mac, p) == a + "Ctrl K"@
            + b,
{
    lemma_welcome_names();
    reveal_strlit("");
    reveal_strlit("hidden");
    reveal_strlit("Ctrl K");
    reveal_strlit("\u{2318}K");
    assert(a + ""@ + b =~= a + b);
    pages::lemma_plain_alone(""@);
    pages::lemma_plain_alone("hidden"@);
    pages::lemma_plain_alone("Ctrl K"@);
    pages::lemma_plain_alone("\u{2318}K"@);
    lemma_welcome_slot(a, "__TOPSITES__"@, b, tiles, wallpaper, modules, tiles, mac, p);
    lemma_welcome_slot(a, "__CLOCK_HIDE__"@, b, hidden_mark(modules.clock), wallpaper, modules, tiles, mac, p);
    lemma_welcome_slot(a, "__SEARCH_HIDE__"@, b, hidden_mark(modules.search), wallpaper, modules, tiles, mac, p);
    lemma_welcome_slot(a, "__KBD__"@, b, palette_keys(mac), wallpaper, modules, tiles, mac, p);
    lemma_welcome_slot(a, "__SITES_HIDE__"@, b, hidden_mark(modules.sites), wallpaper, modules, tiles, mac, p);
    lemma_welcome_slot(a, "__NOTES_HIDE__"@, b, hidden_mark(modules.notes), wallpaper, modules, tiles, mac, p);
    lemma_welcome_slot(a, "__FEED_HIDE__"@, b, hidden_mark(modules.feed), wallpaper, modules, tiles, mac, p);
}

/// The tiles stand one after the other, each in the colour at its place.
pub proof fn each_site_has_its_tile(s: Seq<SiteView>, x: SiteView, colours: Seq<Rgb>)
    requires
        s.len() < colours.len(),
    ensures
        tiles_text(Seq::empty(), colours).len() == 0,
        tiles_text(s.push(x), colours) == tiles_text(s, colours) + tile_text(x, colours[s.len() as int]),
{
    assert(s.push(x).drop_last() =~= s);
}

} // verus!

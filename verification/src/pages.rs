//! Internal pages: what each says, and how the browser's colours get into it.

use vstd::prelude::*;
use vstd::string::*;

use crate::addons;
use crate::addons::{Addon, AddonView, Registry};
use crate::address;
use crate::codec;
use crate::codec::Rgb;
use crate::json;
use crate::json::Json;
use crate::number;
use crate::profile;
use crate::profile::{HistoryEntry, Profile, VisitView};
use crate::settings::Settings;
use crate::text;
use crate::unicode;

verus! {

// ---------------------------------------------------------------------------
// Templates and colours
// ---------------------------------------------------------------------------

/// The colours of the browser's look.
#[derive(Clone, Copy, Debug, PartialEq, Eq, Structural)]
pub struct Palette {
    pub bg: Rgb,
    pub bg2: Rgb,
    pub elev: Rgb,
    pub border: Rgb,
    pub text: Rgb,
    pub muted: Rgb,
    pub accent: Rgb,
}

/// Puts a text into every slot of this name.
pub fn fill(page: &str, slot: &str, with: &str) -> (r: String)
    ensures
        r@ == text::replaced(page@, slot@, with@),
{
    if slot.unicode_len() == 0 {
        return page.to_owned();
    }
    text::replace(page, slot, with)
}

/// The three channels of a colour, with commas between.
pub open spec fn channels(c: Rgb) -> Seq<char> {
    number::decimal(c.red as nat) + ", "@ + number::decimal(c.green as nat) + ", "@
        + number::decimal(c.blue as nat)
}

fn write_channels(c: Rgb) -> (r: String)
    ensures
        r@ == channels(c),
{
    let mut out: String = number::decimal_string(c.red as u64);
    out.append(", ");
    out.append(number::decimal_string(c.green as u64).as_str());
    out.append(", ");
    out.append(number::decimal_string(c.blue as u64).as_str());
    out
}

/// A page with the browser's colours in the slots for them.
pub open spec fn coloured(page: Seq<char>, p: Palette) -> Seq<char> {
    let t = text::replaced(page, "__BG__"@, codec::colour_text(p.bg));
    let t = text::replaced(t, "__PANEL__"@, codec::colour_text(p.bg2));
    let t = text::replaced(t, "__ELEV__"@, codec::colour_text(p.elev));
    let t = text::replaced(t, "__LINE__"@, codec::colour_text(p.border));
    let t = text::replaced(t, "__FG__"@, codec::colour_text(p.text));
    let t = text::replaced(t, "__MUTED__"@, codec::colour_text(p.muted));
    let t = text::replaced(t, "__ACCENT__"@, codec::colour_text(p.accent));
    text::replaced(t, "__ACCENT_RGB__"@, channels(p.accent))
}

/// Puts the browser's colours into a page.
pub fn themed(page: &str, p: &Palette) -> (r: String)
    ensures
        r@ == coloured(page@, *p),
{
    let t: String = fill(page, "__BG__", codec::color_hex(p.bg).as_str());
    let t: String = fill(t.as_str(), "__PANEL__", codec::color_hex(p.bg2).as_str());
    let t: String = fill(t.as_str(), "__ELEV__", codec::color_hex(p.elev).as_str());
    let t: String = fill(t.as_str(), "__LINE__", codec::color_hex(p.border).as_str());
    let t: String = fill(t.as_str(), "__FG__", codec::color_hex(p.text).as_str());
    let t: String = fill(t.as_str(), "__MUTED__", codec::color_hex(p.muted).as_str());
    let t: String = fill(t.as_str(), "__ACCENT__", codec::color_hex(p.accent).as_str());
    fill(t.as_str(), "__ACCENT_RGB__", write_channels(p.accent).as_str())
}

/// A page that shows a list, from its template.
pub open spec fn list_page(
    template: Seq<char>,
    accent: Seq<char>,
    rows: Seq<char>,
    p: Palette,
) -> Seq<char> {
    coloured(
        text::replaced(
            text::replaced(template, "__ACCENT__"@, accent),
            "__ROWS__"@,
            rows,
        ),
        p,
    )
}

/// A page that shows a list, from its template.
pub fn fill_list_page(template: &str, accent: &str, rows: &str, p: &Palette) -> (r: String)
    ensures
        r@ == list_page(template@, accent@, rows@, *p),
{
    let t: String = fill(template, "__ACCENT__", accent);
    let t: String = fill(t.as_str(), "__ROWS__", rows);
    themed(t.as_str(), p)
}

/// Rows in the box that holds a list.
pub open spec fn boxed(rows: Seq<char>) -> Seq<char> {
    "<div class=\"list\">"@ + rows + "</div>"@
}

/// Puts rows into the box that holds a list.
pub fn box_rows(rows: &str) -> (r: String)
    ensures
        r@ == boxed(rows@),
{
    let mut out: String = "<div class=\"list\">".to_owned();
    out.append(rows);
    out.append("</div>");
    out
}

// ---------------------------------------------------------------------------
// The page of blocked requests
// ---------------------------------------------------------------------------

/// Blocked requests of one host.
pub type Group = (Seq<char>, Seq<Seq<char>>);

/// The groups with one more request, in its host's group. A new group goes to its place in the
/// order of the hosts.
pub open spec fn filed(g: Seq<Group>, host: Seq<char>, url: Seq<char>) -> Seq<Group>
    decreases g.len(),
{
    if g.len() == 0 {
        seq![(host, seq![url])]
    } else if g[0].0 == host {
        g.update(0, (host, g[0].1.push(url)))
    } else if text::sorts_before(host, g[0].0) {
        seq![(host, seq![url])] + g
    } else {
        seq![g[0]] + filed(g.skip(1), host, url)
    }
}

/// The host under which a blocked request is listed.
pub open spec fn listed_host(url: Seq<char>) -> Seq<char> {
    match address::host_of_text(url) {
        Some(h) => h,
        None => "(other)"@,
    }
}

/// Blocked requests by their hosts.
pub open spec fn by_host(log: Seq<Seq<char>>) -> Seq<Group>
    decreases log.len(),
{
    if log.len() == 0 {
        Seq::empty()
    } else {
        filed(by_host(log.drop_last()), listed_host(log.last()), log.last())
    }
}

/// The groups as values.
pub open spec fn group_views(v: Seq<(String, Vec<String>)>) -> Seq<Group> {
    Seq::new(v.len(), |i: int| (v[i].0@, text::texts(v[i].1@)))
}

fn file_under(g: &mut Vec<(String, Vec<String>)>, host: &str, url: &str)
    ensures
        group_views(final(g)@) == filed(group_views(old(g)@), host@, url@),
{
    let ghost all = group_views(g@);
    let mut i: usize = 0;
    assert(all.skip(0) =~= all);
    assert(all.take(0) + filed(all.skip(0), host@, url@) =~= filed(all, host@, url@));
    while i < g.len()
        invariant
            i <= g@.len(),
            all == group_views(g@),
            all == group_views(old(g)@),
            filed(all, host@, url@) == all.take(i as int) + filed(
                all.skip(i as int),
                host@,
                url@,
            ),
        decreases g@.len() - i,
    {
        let ghost rest = all.skip(i as int);
        assert(rest[0] == all[i as int]);
        assert(all[i as int] == (g@[i as int].0@, text::texts(g@[i as int].1@)));
        if text::same(g[i].0.as_str(), host) {
            let ghost urls = text::texts(g@[i as int].1@);
            g[i].1.push(url.to_owned());
            assert(text::texts(g@[i as int].1@) =~= urls.push(url@));
            assert(group_views(g@) =~= all.update(i as int, (host@, urls.push(url@))));
            assert(group_views(g@) =~= all.take(i as int) + rest.update(
                0,
                (host@, urls.push(url@)),
            ));
            return;
        }
        if text::is_before(host, g[i].0.as_str()) {
            let mut urls: Vec<String> = Vec::new();
            urls.push(url.to_owned());
            assert(text::texts(urls@) =~= seq![url@]);
            g.insert(i, (host.to_owned(), urls));
            assert(group_views(g@) =~= all.take(i as int) + (seq![(host@, seq![url@])] + rest));
            return;
        }
        assert(rest.skip(1) =~= all.skip(i + 1));
        assert(all.take(i as int) + (seq![rest[0]] + filed(all.skip(i + 1), host@, url@))
            =~= all.take(i + 1) + filed(all.skip(i + 1), host@, url@));
        i = i + 1;
    }
    let mut urls: Vec<String> = Vec::new();
    urls.push(url.to_owned());
    assert(text::texts(urls@) =~= seq![url@]);
    g.push((host.to_owned(), urls));
    assert(all.skip(i as int) =~= Seq::<Group>::empty());
    assert(group_views(g@) =~= all.take(i as int) + seq![(host@, seq![url@])]);
}

/// Blocked requests by their hosts.
pub fn group_by_host(log: &Vec<String>) -> (r: Vec<(String, Vec<String>)>)
    ensures
        group_views(r@) == by_host(text::texts(log@)),
{
    let ghost all = text::texts(log@);
    let mut out: Vec<(String, Vec<String>)> = Vec::new();
    let mut i: usize = 0;
    assert(group_views(out@) =~= by_host(all.take(0)));
    while i < log.len()
        invariant
            i <= log@.len(),
            all == text::texts(log@),
            group_views(out@) == by_host(all.take(i as int)),
        decreases log@.len() - i,
    {
        assert(all.take(i + 1).drop_last() =~= all.take(i as int));
        assert(all.take(i + 1).last() == all[i as int]);
        let host: String = match address::host_of(log[i].as_str()) {
            Some(h) => h,
            None => "(other)".to_owned(),
        };
        file_under(&mut out, host.as_str(), log[i].as_str());
        i = i + 1;
    }
    assert(all.take(log@.len() as int) =~= all);
    out
}

/// How many requests the groups hold.
pub open spec fn total(g: Seq<Group>) -> nat
    decreases g.len(),
{
    if g.len() == 0 {
        0
    } else {
        g[0].1.len() + total(g.skip(1))
    }
}

proof fn lemma_filed_total(g: Seq<Group>, host: Seq<char>, url: Seq<char>)
    ensures
        total(filed(g, host, url)) == total(g) + 1,
    decreases g.len(),
{
    let f = filed(g, host, url);
    if g.len() == 0 {
        assert(f.skip(1) =~= Seq::<Group>::empty());
        assert(total(f.skip(1)) == 0);
    } else if g[0].0 == host {
        assert(f.skip(1) =~= g.skip(1));
    } else if text::sorts_before(host, g[0].0) {
        assert(f.skip(1) =~= g);
    } else {
        lemma_filed_total(g.skip(1), host, url);
        assert(f.skip(1) =~= filed(g.skip(1), host, url));
    }
}

proof fn lemma_order_is_total(a: Seq<char>, b: Seq<char>)
    requires
        a != b,
        !text::sorts_before(a, b),
    ensures
        text::sorts_before(b, a),
    decreases a.len(),
{
    if a.len() > 0 && b.len() > 0 && a[0] == b[0] {
        if a.skip(1) == b.skip(1) {
            assert(a =~= seq![a[0]] + a.skip(1));
            assert(b =~= seq![b[0]] + b.skip(1));
        }
        lemma_order_is_total(a.skip(1), b.skip(1));
    } else if a.len() == 0 && b.len() == 0 {
        assert(a =~= b);
    }
}

proof fn lemma_order_is_transitive(a: Seq<char>, b: Seq<char>, c: Seq<char>)
    requires
        text::sorts_before(a, b),
        text::sorts_before(b, c),
    ensures
        text::sorts_before(a, c),
    decreases a.len(),
{
    if a.len() > 0 && b.len() > 0 && c.len() > 0 && a[0] == b[0] && b[0] == c[0] {
        lemma_order_is_transitive(a.skip(1), b.skip(1), c.skip(1));
    }
}

/// The hosts of the groups are in order, and none comes twice.
pub open spec fn in_order(g: Seq<Group>) -> bool {
    forall|i: int, j: int|
        0 <= i < j < g.len() ==> text::sorts_before((#[trigger] g[i]).0, (#[trigger] g[j]).0)
}

proof fn lemma_filed_in_order(g: Seq<Group>, host: Seq<char>, url: Seq<char>, low: Seq<char>)
    requires
        in_order(g),
    ensures
        in_order(filed(g, host, url)),
        (text::sorts_before(low, host) && (forall|i: int|
            0 <= i < g.len() ==> text::sorts_before(low, (#[trigger] g[i]).0))) ==> (forall|i: int|
            0 <= i < filed(g, host, url).len() ==> text::sorts_before(
                low,
                (#[trigger] filed(g, host, url)[i]).0,
            )),
    decreases g.len(),
{
    let f = filed(g, host, url);
    if g.len() > 0 && g[0].0 != host {
        if text::sorts_before(host, g[0].0) {
            assert forall|i: int, j: int| 0 <= i < j < f.len() implies text::sorts_before(
                (#[trigger] f[i]).0,
                (#[trigger] f[j]).0,
            ) by {
                if i == 0 && j > 1 {
                    assert(text::sorts_before(g[0].0, g[j - 1].0));
                    lemma_order_is_transitive(host, g[0].0, g[j - 1].0);
                } else if i > 0 {
                    assert(text::sorts_before(g[i - 1].0, g[j - 1].0));
                }
            }
            assert forall|i: int| 1 <= i < f.len() implies #[trigger] f[i] == g[i - 1] by {}
        } else {
            let r = g.skip(1);
            assert forall|i: int, j: int| 0 <= i < j < r.len() implies text::sorts_before(
                (#[trigger] r[i]).0,
                (#[trigger] r[j]).0,
            ) by {
                assert(text::sorts_before(g[i + 1].0, g[j + 1].0));
            }
            lemma_order_is_total(host, g[0].0);
            assert forall|i: int| 0 <= i < r.len() implies text::sorts_before(
                g[0].0,
                (#[trigger] r[i]).0,
            ) by {
                assert(text::sorts_before(g[0].0, g[i + 1].0));
            }
            lemma_filed_in_order(r, host, url, g[0].0);
            let t = filed(r, host, url);
            assert forall|i: int, j: int| 0 <= i < j < f.len() implies text::sorts_before(
                (#[trigger] f[i]).0,
                (#[trigger] f[j]).0,
            ) by {
                assert(f[j] == t[j - 1]);
                if i > 0 {
                    assert(f[i] == t[i - 1]);
                    assert(text::sorts_before(t[i - 1].0, t[j - 1].0));
                }
            }
            if text::sorts_before(low, host) && (forall|i: int|
                0 <= i < g.len() ==> text::sorts_before(low, (#[trigger] g[i]).0)) {
                assert forall|i: int| 0 <= i < f.len() implies text::sorts_before(
                    low,
                    (#[trigger] f[i]).0,
                ) by {
                    if i > 0 {
                        assert(f[i] == t[i - 1]);
                        assert(text::sorts_before(g[0].0, t[i - 1].0));
                        assert(text::sorts_before(low, g[0].0));
                        lemma_order_is_transitive(low, g[0].0, t[i - 1].0);
                    }
                }
            }
        }
    }
}

/// The receipt lists the hosts in order, each of them once.
pub proof fn the_receipt_is_in_order(log: Seq<Seq<char>>)
    ensures
        in_order(by_host(log)),
    decreases log.len(),
{
    if log.len() > 0 {
        the_receipt_is_in_order(log.drop_last());
        lemma_filed_in_order(
            by_host(log.drop_last()),
            listed_host(log.last()),
            log.last(),
            Seq::empty(),
        );
    }
}

/// The receipt leaves nothing out: the groups hold as many requests as were blocked.
pub proof fn the_receipt_is_complete(log: Seq<Seq<char>>)
    ensures
        total(by_host(log)) == log.len(),
    decreases log.len(),
{
    if log.len() > 0 {
        the_receipt_is_complete(log.drop_last());
        lemma_filed_total(by_host(log.drop_last()), listed_host(log.last()), log.last());
    }
}

/// Items of a list of addresses.
pub open spec fn item_text(urls: Seq<Seq<char>>) -> Seq<char>
    decreases urls.len(),
{
    if urls.len() == 0 {
        Seq::empty()
    } else {
        item_text(urls.drop_last()) + ("<li>"@ + codec::html(urls.last()) + "</li>"@)
    }
}

fn write_items(urls: &Vec<String>) -> (r: String)
    ensures
        r@ == item_text(text::texts(urls@)),
{
    let ghost all = text::texts(urls@);
    let mut out: String = String::new();
    let mut i: usize = 0;
    assert(out@ =~= item_text(all.take(0)));
    while i < urls.len()
        invariant
            i <= urls@.len(),
            all == text::texts(urls@),
            out@ == item_text(all.take(i as int)),
        decreases urls@.len() - i,
    {
        assert(all.take(i + 1).drop_last() =~= all.take(i as int));
        assert(all.take(i + 1).last() == all[i as int]);
        let mut row: String = "<li>".to_owned();
        row.append(codec::html_escape(urls[i].as_str()).as_str());
        row.append("</li>");
        out.append(row.as_str());
        i = i + 1;
    }
    assert(all.take(urls@.len() as int) =~= all);
    out
}

/// One host's blocked requests, as they are shown.
pub open spec fn group_text(g: Group) -> Seq<char> {
    "<details><summary><span>"@ + codec::html(g.0) + "</span><span class=\"n\">"@
        + number::decimal(g.1.len()) + "</span></summary><ul>"@ + item_text(g.1)
        + "</ul></details>"@
}

/// The blocked requests, as they are shown.
pub open spec fn groups_text(g: Seq<Group>) -> Seq<char>
    decreases g.len(),
{
    if g.len() == 0 {
        Seq::empty()
    } else {
        groups_text(g.drop_last()) + group_text(g.last())
    }
}

fn write_groups(g: &Vec<(String, Vec<String>)>) -> (r: String)
    ensures
        r@ == groups_text(group_views(g@)),
{
    let ghost all = group_views(g@);
    let mut out: String = String::new();
    let mut i: usize = 0;
    assert(out@ =~= groups_text(all.take(0)));
    while i < g.len()
        invariant
            i <= g@.len(),
            all == group_views(g@),
            out@ == groups_text(all.take(i as int)),
        decreases g@.len() - i,
    {
        assert(all.take(i + 1).drop_last() =~= all.take(i as int));
        assert(all.take(i + 1).last() == all[i as int]);
        assert(text::texts(g@[i as int].1@).len() == g@[i as int].1@.len());
        let mut row: String = "<details><summary><span>".to_owned();
        row.append(codec::html_escape(g[i].0.as_str()).as_str());
        row.append("</span><span class=\"n\">");
        row.append(number::decimal_string(g[i].1.len() as u64).as_str());
        row.append("</span></summary><ul>");
        row.append(write_items(&g[i].1).as_str());
        row.append("</ul></details>");
        assert(row@ == group_text(all[i as int]));
        out.append(row.as_str());
        i = i + 1;
    }
    assert(all.take(g@.len() as int) =~= all);
    out
}

/// The page of blocked requests.
pub open spec fn receipt_text(log: Seq<Seq<char>>, p: Palette) -> Seq<char> {
    let body = if log.len() == 0 {
        "<p class=\"empty\">Nothing was blocked on that page.</p>"@
    } else {
        groups_text(by_host(log))
    };
    coloured(
        "<!doctype html><html lang=\"en\"><head><meta charset=\"utf-8\"><title>Block receipt</title><style>:root{--accent:__ACCENT__;--bg:__BG__;--panel:__PANEL__;--line:__LINE__;--fg:__FG__;--muted:__MUTED__;}*{box-sizing:border-box}body{background:var(--bg);color:var(--fg);font:15px/1.5 system-ui,-apple-system,sans-serif;max-width:760px;margin:0 auto;padding:8vh 24px}h1{font-size:26px;margin:0 0 4px}.sub{color:var(--muted);margin:0 0 28px;font-size:14px}details{background:var(--panel);border:1px solid var(--line);border-radius:12px;padding:12px 16px;margin:8px 0}summary{cursor:pointer;display:flex;justify-content:space-between;align-items:center;list-style:none;font-weight:600}.n{color:var(--accent);font:13px ui-monospace,monospace}ul{margin:10px 0 0;padding-left:18px;color:var(--muted);font:12px ui-monospace,monospace;word-break:break-all}li{margin:3px 0}.empty{color:var(--muted)}</style></head><body><h1>Block receipt</h1><p class=\"sub\">"@
            + number::decimal(log.len())
            + " request(s) the ad/tracker blocker stopped on the page you were viewing, grouped by host. Computed on-device; nothing left the machine.</p>"@
            + body + "</body></html>"@,
        p,
    )
}

/// The page of blocked requests.
pub fn render_gator_why(log: &Vec<String>, p: &Palette) -> (r: String)
    ensures
        r@ == receipt_text(text::texts(log@), *p),
{
    assert(text::texts(log@).len() == log@.len());
    let body: String = if log.len() == 0 {
        "<p class=\"empty\">Nothing was blocked on that page.</p>".to_owned()
    } else {
        write_groups(&group_by_host(log))
    };
    let mut page: String = "<!doctype html><html lang=\"en\"><head><meta charset=\"utf-8\"><title>Block receipt</title><style>:root{--accent:__ACCENT__;--bg:__BG__;--panel:__PANEL__;--line:__LINE__;--fg:__FG__;--muted:__MUTED__;}*{box-sizing:border-box}body{background:var(--bg);color:var(--fg);font:15px/1.5 system-ui,-apple-system,sans-serif;max-width:760px;margin:0 auto;padding:8vh 24px}h1{font-size:26px;margin:0 0 4px}.sub{color:var(--muted);margin:0 0 28px;font-size:14px}details{background:var(--panel);border:1px solid var(--line);border-radius:12px;padding:12px 16px;margin:8px 0}summary{cursor:pointer;display:flex;justify-content:space-between;align-items:center;list-style:none;font-weight:600}.n{color:var(--accent);font:13px ui-monospace,monospace}ul{margin:10px 0 0;padding-left:18px;color:var(--muted);font:12px ui-monospace,monospace;word-break:break-all}li{margin:3px 0}.empty{color:var(--muted)}</style></head><body><h1>Block receipt</h1><p class=\"sub\">".to_owned();
    page.append(number::decimal_string(log.len() as u64).as_str());
    page.append(
        " request(s) the ad/tracker blocker stopped on the page you were viewing, grouped by host. Computed on-device; nothing left the machine.</p>",
    );
    page.append(body.as_str());
    page.append("</body></html>");
    themed(page.as_str(), p)
}

// ---------------------------------------------------------------------------
// Taking one's data along
// ---------------------------------------------------------------------------

/// The page that offers the user's data to take along.
pub open spec fn export_text(bookmarks: nat, visits: nat, p: Palette) -> Seq<char> {
    coloured(
        "<!doctype html><html lang=\"en\"><head><meta charset=\"utf-8\"><title>Export your data</title><style>:root{--accent:__ACCENT__;--bg:__BG__;--panel:__PANEL__;--line:__LINE__;--fg:__FG__;--muted:__MUTED__;}*{box-sizing:border-box}body{background:var(--bg);color:var(--fg);font:15px/1.6 system-ui,-apple-system,sans-serif;max-width:640px;margin:0 auto;padding:9vh 24px}h1{font-size:28px;margin:0 0 6px}p{color:var(--muted)}.fg{color:var(--fg)}a.btn{display:inline-block;margin:22px 0 8px;background:var(--accent);color:#fff;text-decoration:none;font-weight:600;padding:12px 20px;border-radius:11px}ul{color:var(--muted);font-size:14px;line-height:1.8}.note{margin-top:26px;font-size:13px;color:var(--muted);border-top:1px solid var(--line);padding-top:16px}</style></head><body><h1>Export your data</h1><p>Your data is yours. Download a portable, human-readable copy — no account, no lock-in.</p><ul><li><span class=\"fg\">"@
            + number::decimal(bookmarks)
            + "</span> bookmarks</li><li><span class=\"fg\">"@ + number::decimal(visits)
            + "</span> history entries</li><li>chrome settings &amp; theme</li></ul><a class=\"btn\" href=\"gator://export?get=all\">Download everything (.json)</a><p class=\"note\">Not yet included: saved passwords (in the encrypted vault — a separate encrypted-archive export is planned) and the new-tab notes/reading-list (stored in the page's own localStorage).</p></body></html>"@,
        p,
    )
}

/// The page that offers the user's data to take along.
pub fn render_gator_export(bookmarks: usize, visits: usize, p: &Palette) -> (r: String)
    ensures
        r@ == export_text(bookmarks as nat, visits as nat, *p),
{
    let mut page: String = "<!doctype html><html lang=\"en\"><head><meta charset=\"utf-8\"><title>Export your data</title><style>:root{--accent:__ACCENT__;--bg:__BG__;--panel:__PANEL__;--line:__LINE__;--fg:__FG__;--muted:__MUTED__;}*{box-sizing:border-box}body{background:var(--bg);color:var(--fg);font:15px/1.6 system-ui,-apple-system,sans-serif;max-width:640px;margin:0 auto;padding:9vh 24px}h1{font-size:28px;margin:0 0 6px}p{color:var(--muted)}.fg{color:var(--fg)}a.btn{display:inline-block;margin:22px 0 8px;background:var(--accent);color:#fff;text-decoration:none;font-weight:600;padding:12px 20px;border-radius:11px}ul{color:var(--muted);font-size:14px;line-height:1.8}.note{margin-top:26px;font-size:13px;color:var(--muted);border-top:1px solid var(--line);padding-top:16px}</style></head><body><h1>Export your data</h1><p>Your data is yours. Download a portable, human-readable copy — no account, no lock-in.</p><ul><li><span class=\"fg\">".to_owned();
    page.append(number::decimal_string(bookmarks as u64).as_str());
    page.append("</span> bookmarks</li><li><span class=\"fg\">");
    page.append(number::decimal_string(visits as u64).as_str());
    page.append(
        "</span> history entries</li><li>chrome settings &amp; theme</li></ul><a class=\"btn\" href=\"gator://export?get=all\">Download everything (.json)</a><p class=\"note\">Not yet included: saved passwords (in the encrypted vault — a separate encrypted-archive export is planned) and the new-tab notes/reading-list (stored in the page's own localStorage).</p></body></html>",
    );
    themed(page.as_str(), p)
}

/// A member of an object, by its place, its name and a text that it holds.
pub open spec fn has_text(m: Seq<(String, Json)>, i: int, name: Seq<char>, value: Seq<char>) -> bool {
    m[i].0@ == name && (m[i].1 matches Json::Text(s) && s@ == value)
}

/// A member of an object, by its place, its name and a number that it holds.
pub open spec fn has_number(m: Seq<(String, Json)>, i: int, name: Seq<char>, value: nat) -> bool {
    m[i].0@ == name && (m[i].1 matches Json::Number(s) && s@ == number::decimal(value))
}

/// A bookmark, as it is taken along.
pub open spec fn is_mark_record(j: Json, b: profile::MarkView) -> bool {
    j matches Json::Object(m) && m@.len() == 2 && has_text(m@, 0, "url"@, b.url) && has_text(
        m@,
        1,
        "title"@,
        b.title,
    )
}

/// A visited page, as it is taken along.
pub open spec fn is_visit_record(j: Json, h: VisitView) -> bool {
    j matches Json::Object(m) && m@.len() == 3 && has_text(m@, 0, "url"@, h.url) && has_text(
        m@,
        1,
        "title"@,
        h.title,
    ) && has_number(m@, 2, "visits"@, h.visits as nat)
}

/// The settings, as they are taken along.
pub open spec fn is_settings_record(j: Json, s: Settings) -> bool {
    j matches Json::Object(m) && m@.len() == 5 && has_text(m@, 0, "search"@, s.search@) && has_text(
        m@,
        1,
        "accent"@,
        s.accent@,
    ) && m@[2].0@ == "dark"@ && m@[2].1 == Json::Bool(s.dark) && m@[3].0@ == "block_ads"@
        && m@[3].1 == Json::Bool(s.block_ads) && has_text(m@, 4, "wallpaper"@, s.wallpaper@)
}

/// Everything that is taken along: the format, the settings, every bookmark and every visited
/// page, in order. Passwords are no part of it.
pub open spec fn is_export(j: Json, p: Profile, s: Settings) -> bool {
    &&& j matches Json::Object(m)
    &&& m@.len() == 5
    &&& has_text(m@, 0, "format"@, "navgator-export"@)
    &&& has_number(m@, 1, "version"@, 1)
    &&& m@[2].0@ == "settings"@
    &&& is_settings_record(m@[2].1, s)
    &&& m@[3].0@ == "bookmarks"@
    &&& m@[3].1 matches Json::List(b)
    &&& b@.len() == p.bookmarks@.len()
    &&& (forall|i: int|
        0 <= i < b@.len() ==> is_mark_record(#[trigger] b@[i], p.bookmarks@[i]@))
    &&& m@[4].0@ == "history"@
    &&& m@[4].1 matches Json::List(h)
    &&& h@.len() == p.history@.len()
    &&& (forall|i: int|
        0 <= i < h@.len() ==> is_visit_record(#[trigger] h@[i], p.history@[i]@))
}

fn text_member(name: &str, value: &str) -> (r: (String, Json))
    ensures
        r.0@ == name@,
        r.1 matches Json::Text(s) && s@ == value@,
{
    (name.to_owned(), Json::Text(value.to_owned()))
}

fn number_member(name: &str, value: u64) -> (r: (String, Json))
    ensures
        r.0@ == name@,
        r.1 matches Json::Number(s) && s@ == number::decimal(value as nat),
{
    (name.to_owned(), Json::Number(number::decimal_string(value)))
}

fn mark_records(p: &Profile) -> (r: Vec<Json>)
    ensures
        r@.len() == p.bookmarks@.len(),
        forall|i: int| 0 <= i < r@.len() ==> is_mark_record(#[trigger] r@[i], p.bookmarks@[i]@),
{
    let mut out: Vec<Json> = Vec::new();
    let mut i: usize = 0;
    while i < p.bookmarks.len()
        invariant
            i <= p.bookmarks@.len(),
            out@.len() == i,
            forall|j: int| 0 <= j < i ==> is_mark_record(#[trigger] out@[j], p.bookmarks@[j]@),
        decreases p.bookmarks@.len() - i,
    {
        let mut m: Vec<(String, Json)> = Vec::new();
        m.push(text_member("url", p.bookmarks[i].url.as_str()));
        m.push(text_member("title", p.bookmarks[i].title.as_str()));
        out.push(Json::Object(m));
        i = i + 1;
    }
    out
}

fn visit_records(p: &Profile) -> (r: Vec<Json>)
    ensures
        r@.len() == p.history@.len(),
        forall|i: int| 0 <= i < r@.len() ==> is_visit_record(#[trigger] r@[i], p.history@[i]@),
{
    let mut out: Vec<Json> = Vec::new();
    let mut i: usize = 0;
    while i < p.history.len()
        invariant
            i <= p.history@.len(),
            out@.len() == i,
            forall|j: int| 0 <= j < i ==> is_visit_record(#[trigger] out@[j], p.history@[j]@),
        decreases p.history@.len() - i,
    {
        let mut m: Vec<(String, Json)> = Vec::new();
        m.push(text_member("url", p.history[i].url.as_str()));
        m.push(text_member("title", p.history[i].title.as_str()));
        m.push(number_member("visits", p.history[i].visits as u64));
        out.push(Json::Object(m));
        i = i + 1;
    }
    out
}

/// The document that holds everything that is taken along.
pub fn export_document(p: &Profile, s: &Settings) -> (r: Json)
    ensures
        is_export(r, *p, *s),
{
    let mut own: Vec<(String, Json)> = Vec::new();
    own.push(text_member("search", s.search.as_str()));
    own.push(text_member("accent", s.accent.as_str()));
    own.push(("dark".to_owned(), Json::Bool(s.dark)));
    own.push(("block_ads".to_owned(), Json::Bool(s.block_ads)));
    own.push(text_member("wallpaper", s.wallpaper.as_str()));
    let mut m: Vec<(String, Json)> = Vec::new();
    m.push(text_member("format", "navgator-export"));
    m.push(number_member("version", 1));
    m.push(("settings".to_owned(), Json::Object(own)));
    m.push(("bookmarks".to_owned(), Json::List(mark_records(p))));
    m.push(("history".to_owned(), Json::List(visit_records(p))));
    Json::Object(m)
}

/// Everything that is taken along, as a file.
pub fn export_json(p: &Profile, s: &Settings) -> (r: String)
    ensures
        exists|doc: Json|
            #![trigger json::normal_json(doc)]
            is_export(doc, *p, *s) && r@ == json::pretty_json(json::normal_json(doc)),
{
    let doc: Json = export_document(p, s);
    json::to_pretty(&doc)
}

// ---------------------------------------------------------------------------
// The page that takes the place of a crashed one
// ---------------------------------------------------------------------------

/// The page that takes the place of a crashed one, from its template. Without an address it leads
/// back to the welcome page; without a reason it gives a general one.
pub open spec fn crash_text(
    template: Seq<char>,
    accent: Seq<char>,
    url: Seq<char>,
    reason: Seq<char>,
    p: Palette,
) -> Seq<char> {
    let shown = if url.len() == 0 {
        "about:blank"@
    } else {
        url
    };
    let href = if url.len() == 0 {
        address::WELCOME_URL@
    } else {
        url
    };
    let why = if text::trimmed(reason).len() == 0 {
        "The renderer process exited unexpectedly."@
    } else {
        reason
    };
    let t = text::replaced(template, "__ACCENT__"@, accent);
    let t = text::replaced(t, "__CRASH_HREF__"@, codec::html(href));
    let t = text::replaced(t, "__CRASH_URL__"@, codec::html(shown));
    coloured(text::replaced(t, "__CRASH_REASON__"@, codec::html(why)), p)
}

/// The page that takes the place of a crashed one.
pub fn render_gator_crash(template: &str, accent: &str, url: &str, reason: &str, p: &Palette) -> (r:
    String)
    ensures
        r@ == crash_text(template@, accent@, url@, reason@, *p),
{
    let gone: bool = url.unicode_len() == 0;
    let shown: &str = if gone {
        "about:blank"
    } else {
        url
    };
    let href: &str = if gone {
        address::WELCOME_URL
    } else {
        url
    };
    let why: &str = if text::trim(reason).as_str().unicode_len() == 0 {
        "The renderer process exited unexpectedly."
    } else {
        reason
    };
    let t: String = fill(template, "__ACCENT__", accent);
    let t: String = fill(t.as_str(), "__CRASH_HREF__", codec::html_escape(href).as_str());
    let t: String = fill(t.as_str(), "__CRASH_URL__", codec::html_escape(shown).as_str());
    let t: String = fill(t.as_str(), "__CRASH_REASON__", codec::html_escape(why).as_str());
    themed(t.as_str(), p)
}

// ---------------------------------------------------------------------------
// The page of saved passwords
// ---------------------------------------------------------------------------

/// A saved login: where and as whom. The password itself is never shown.
#[derive(Debug)]
pub struct Login {
    pub origin: String,
    pub username: String,
}

/// The logins of a list.
pub open spec fn login_views(v: Seq<Login>) -> Seq<(Seq<char>, Seq<char>)> {
    Seq::new(v.len(), |i: int| (v[i].origin@, v[i].username@))
}

/// The part of an origin after `://`, up to another one; the whole where there is none.
pub open spec fn after_scheme(o: Seq<char>) -> Seq<char> {
    let i = text::upto_text(o, "://"@) as int;
    if i >= o.len() {
        o
    } else {
        let rest = o.skip(i + 3);
        rest.take(text::upto_text(rest, "://"@) as int)
    }
}

fn bare_origin(o: &str) -> (r: String)
    ensures
        r@ == after_scheme(o@),
{
    proof {
        reveal_strlit("://");
    }
    let v: Vec<char> = text::chars_of(o);
    let i: usize = text::find_text_from(&v, 0, "://");
    assert(v@.skip(0) =~= v@);
    if i >= v.len() {
        return o.to_owned();
    }
    proof {
        lemma_found(v@, "://"@);
    }
    let j: usize = text::find_text_from(&v, i + 3, "://");
    let r: String = text::string_between(&v, i + 3, j);
    assert(r@ =~= after_scheme(o@));
    r
}

proof fn lemma_found(s: Seq<char>, p: Seq<char>)
    requires
        p.len() > 0,
        text::upto_text(s, p) < s.len(),
    ensures
        text::upto_text(s, p) + p.len() <= s.len(),
    decreases s.len(),
{
    if !p.is_prefix_of(s) {
        lemma_found(s.skip(1), p);
    }
}

/// A row of the page of saved passwords.
pub open spec fn login_row(l: (Seq<char>, Seq<char>), i: nat) -> Seq<char> {
    "<div class=\"row\"><span class=\"ico\">"@ + codec::html(
        unicode::icon_letter(after_scheme(l.0), false),
    ) + "</span><div class=\"meta\"><div class=\"name\">"@ + codec::html(after_scheme(l.0))
        + "</div><div class=\"path\">"@ + codec::html(l.1)
        + " · ••••••••</div></div><a class=\"rm\" href=\"gator://passwords?remove="@
        + number::decimal(i) + "\">Remove</a></div>"@
}

/// The rows of the page of saved passwords.
pub open spec fn login_rows(l: Seq<(Seq<char>, Seq<char>)>) -> Seq<char>
    decreases l.len(),
{
    if l.len() == 0 {
        Seq::empty()
    } else {
        login_rows(l.drop_last()) + login_row(l.last(), (l.len() - 1) as nat)
    }
}

fn write_login_rows(list: &Vec<Login>) -> (r: String)
    ensures
        r@ == login_rows(login_views(list@)),
{
    let ghost all = login_views(list@);
    let mut out: String = String::new();
    let mut i: usize = 0;
    assert(out@ =~= login_rows(all.take(0)));
    while i < list.len()
        invariant
            i <= list@.len(),
            all == login_views(list@),
            out@ == login_rows(all.take(i as int)),
        decreases list@.len() - i,
    {
        assert(all.take(i + 1).drop_last() =~= all.take(i as int));
        assert(all.take(i + 1).last() == all[i as int]);
        let host: String = bare_origin(list[i].origin.as_str());
        let mut row: String = "<div class=\"row\"><span class=\"ico\">".to_owned();
        row.append(
            codec::html_escape(unicode::letter_for(host.as_str(), false).as_str()).as_str(),
        );
        row.append("</span><div class=\"meta\"><div class=\"name\">");
        row.append(codec::html_escape(host.as_str()).as_str());
        row.append("</div><div class=\"path\">");
        row.append(codec::html_escape(list[i].username.as_str()).as_str());
        row.append(
            " · ••••••••</div></div><a class=\"rm\" href=\"gator://passwords?remove=",
        );
        row.append(number::decimal_string(i as u64).as_str());
        row.append("\">Remove</a></div>");
        assert(row@ == login_row(all[i as int], i as nat));
        out.append(row.as_str());
        i = i + 1;
    }
    assert(all.take(list@.len() as int) =~= all);
    out
}

/// What the page of saved passwords shows; nothing is listed while the store is locked.
pub open spec fn login_list(unlocked: bool, l: Seq<(Seq<char>, Seq<char>)>) -> Seq<char> {
    if !unlocked {
        "<p class=\"empty\">The password store is locked. Unlock it in <strong>Settings → Passwords</strong>.</p>"@
    } else if l.len() == 0 {
        "<p class=\"empty\">No saved logins yet. On a login page, click 🔑 in the toolbar to save one.</p>"@
    } else {
        boxed(login_rows(l))
    }
}

/// A locked store shows nothing of what is in it.
pub proof fn locked_passwords_stay_hidden(
    a: Seq<(Seq<char>, Seq<char>)>,
    b: Seq<(Seq<char>, Seq<char>)>,
)
    ensures
        login_list(false, a) == login_list(false, b),
{
}

/// The page of saved passwords, from its template.
pub fn render_gator_passwords(
    template: &str,
    accent: &str,
    unlocked: bool,
    list: &Vec<Login>,
    p: &Palette,
) -> (r: String)
    ensures
        r@ == list_page(template@, accent@, login_list(unlocked, login_views(list@)), *p),
{
    assert(login_views(list@).len() == list@.len());
    let rows: String = if !unlocked {
        "<p class=\"empty\">The password store is locked. Unlock it in <strong>Settings → Passwords</strong>.</p>".to_owned()
    } else if list.len() == 0 {
        "<p class=\"empty\">No saved logins yet. On a login page, click 🔑 in the toolbar to save one.</p>".to_owned()
    } else {
        box_rows(write_login_rows(list).as_str())
    };
    fill_list_page(template, accent, rows.as_str(), p)
}

/// The login that a link asks to remove: the one of this number, if there is one.
pub fn login_to_remove(list: &Vec<Login>, remove: Option<usize>) -> (r: Option<(String, String)>)
    ensures
        match r {
            Some(k) => remove is Some && remove->0 < list@.len() && (k.0@, k.1@) == login_views(
                list@,
            )[remove->0 as int],
            None => remove is None || remove->0 >= list@.len(),
        },
{
    match remove {
        Some(i) => {
            if i < list.len() {
                Some((list[i].origin.clone(), list[i].username.clone()))
            } else {
                None
            }
        },
        None => None,
    }
}

// ---------------------------------------------------------------------------
// The page of add-ons
// ---------------------------------------------------------------------------

/// The texts of a list, each written for a page.
pub open spec fn html_all(v: Seq<Seq<char>>) -> Seq<Seq<char>> {
    Seq::new(v.len(), |i: int| codec::html(v[i]))
}

/// A row of the page of add-ons. `granted` is what the add-on's grants are called.
pub open spec fn addon_row(a: AddonView, granted: Seq<char>) -> Seq<char> {
    "<div class=\"row\"><span class=\"ico\">"@ + codec::html(unicode::icon_letter(a.name, true))
        + "</span><div class=\"meta\"><div class=\"name\">"@ + codec::html(a.name)
        + "<span class=\"ver\">v"@ + codec::html(a.version)
        + "</span></div><div class=\"path\">"@ + (if a.matches.len() == 0 {
        "no sites"@
    } else {
        text::joined(html_all(addons::descriptions(a.matches)), ", "@)
    }) + "</div><div class=\"perms\">"@ + (if a.granted.bare() {
        "no extra capabilities"@
    } else {
        codec::html(granted)
    }) + "</div></div>"@ + (if a.enabled {
        "<a class=\"pill on\" href=\"gator://extensions?disable="@ + a.id + "\">Enabled</a>"@
    } else {
        "<a class=\"pill\" href=\"gator://extensions?enable="@ + a.id + "\">Disabled</a>"@
    }) + "<a class=\"rm\" href=\"gator://extensions?remove="@ + a.id + "\">Remove</a></div>"@
}

fn write_addon_row(a: &Addon, granted: &str) -> (r: String)
    ensures
        r@ == addon_row(a@, granted@),
{
    let mut out: String = "<div class=\"row\"><span class=\"ico\">".to_owned();
    out.append(codec::html_escape(unicode::letter_for(a.name.as_str(), true).as_str()).as_str());
    out.append("</span><div class=\"meta\"><div class=\"name\">");
    out.append(codec::html_escape(a.name.as_str()).as_str());
    out.append("<span class=\"ver\">v");
    out.append(codec::html_escape(a.version.as_str()).as_str());
    out.append("</span></div><div class=\"path\">");
    if a.matches.len() == 0 {
        out.append("no sites");
    } else {
        let sites: Vec<String> = addons::describe_all(&a.matches);
        let escaped: Vec<String> = escape_all(&sites);
        out.append(text::join(&escaped, ", ").as_str());
    }
    out.append("</div><div class=\"perms\">");
    if a.granted.is_empty() {
        out.append("no extra capabilities");
    } else {
        out.append(codec::html_escape(granted).as_str());
    }
    out.append("</div></div>");
    let mut toggle: String = if a.enabled {
        "<a class=\"pill on\" href=\"gator://extensions?disable=".to_owned()
    } else {
        "<a class=\"pill\" href=\"gator://extensions?enable=".to_owned()
    };
    toggle.append(a.id.as_str());
    if a.enabled {
        toggle.append("\">Enabled</a>");
    } else {
        toggle.append("\">Disabled</a>");
    }
    out.append(toggle.as_str());
    out.append("<a class=\"rm\" href=\"gator://extensions?remove=");
    out.append(a.id.as_str());
    out.append("\">Remove</a></div>");
    out
}

fn escape_all(v: &Vec<String>) -> (r: Vec<String>)
    ensures
        text::texts(r@) == html_all(text::texts(v@)),
{
    let ghost all = html_all(text::texts(v@));
    let mut out: Vec<String> = Vec::new();
    let mut i: usize = 0;
    assert(text::texts(out@) =~= all.take(0));
    while i < v.len()
        invariant
            i <= v@.len(),
            all == html_all(text::texts(v@)),
            text::texts(out@) == all.take(i as int),
        decreases v@.len() - i,
    {
        let ghost before = text::texts(out@);
        out.push(codec::html_escape(v[i].as_str()));
        assert(text::texts(out@) =~= before.push(all[i as int]));
        assert(all.take(i + 1) =~= before.push(all[i as int]));
        i = i + 1;
    }
    assert(all.take(v@.len() as int) =~= all);
    out
}

/// The text at this place; empty past the end.
pub open spec fn text_at(v: Seq<Seq<char>>, i: int) -> Seq<char> {
    if 0 <= i < v.len() {
        v[i]
    } else {
        Seq::empty()
    }
}

/// The rows of the page of add-ons.
pub open spec fn addon_rows(e: Seq<AddonView>, granted: Seq<Seq<char>>) -> Seq<char>
    decreases e.len(),
{
    if e.len() == 0 {
        Seq::empty()
    } else {
        addon_rows(e.drop_last(), granted) + addon_row(e.last(), text_at(granted, e.len() - 1))
    }
}

/// What the page of add-ons shows.
pub open spec fn addon_list(e: Seq<AddonView>, granted: Seq<Seq<char>>) -> Seq<char> {
    if e.len() == 0 {
        "<p class=\"empty\">No userscripts installed. Drop a <code>*.user.js</code> file into the userscripts folder, then relaunch — you'll be asked to approve it.</p>"@
    } else {
        boxed(addon_rows(e, granted))
    }
}

/// The page of add-ons, from its template. `granted` holds what each add-on's grants are called.
pub fn render_gator_extensions(
    template: &str,
    accent: &str,
    reg: &Registry,
    granted: &Vec<String>,
    p: &Palette,
) -> (r: String)
    ensures
        r@ == list_page(template@, accent@, addon_list(reg@, text::texts(granted@)), *p),
{
    let ghost e = reg@;
    let ghost g = text::texts(granted@);
    assert(e.len() == reg.addons@.len());
    if reg.addons.len() == 0 {
        return fill_list_page(
            template,
            accent,
            "<p class=\"empty\">No userscripts installed. Drop a <code>*.user.js</code> file into the userscripts folder, then relaunch — you'll be asked to approve it.</p>",
            p,
        );
    }
    let mut out: String = String::new();
    let mut i: usize = 0;
    assert(out@ =~= addon_rows(e.take(0), g));
    while i < reg.addons.len()
        invariant
            i <= reg.addons@.len(),
            e == addons::addon_views(reg.addons@),
            g == text::texts(granted@),
            out@ == addon_rows(e.take(i as int), g),
        decreases reg.addons@.len() - i,
    {
        assert(e.take(i + 1).drop_last() =~= e.take(i as int));
        assert(e.take(i + 1).last() == reg.addons@[i as int]@);
        let called: String = if i < granted.len() {
            granted[i].clone()
        } else {
            String::new()
        };
        assert(called@ =~= text_at(g, i as int));
        out.append(write_addon_row(&reg.addons[i], called.as_str()).as_str());
        i = i + 1;
    }
    assert(e.take(reg.addons@.len() as int) =~= e);
    fill_list_page(template, accent, box_rows(out.as_str()).as_str(), p)
}

// ---------------------------------------------------------------------------
// The page of visited pages
// ---------------------------------------------------------------------------

/// An address that the page of visited pages leaves out.
pub open spec fn is_left_out(url: Seq<char>) -> bool {
    "gator:"@.is_prefix_of(url) || "about:"@.is_prefix_of(url) || "data:"@.is_prefix_of(url)
        || "file:"@.is_prefix_of(url)
}

/// A row of the page of visited pages.
pub open spec fn visit_row(h: VisitView) -> Seq<char> {
    let title = if text::trimmed(h.title).len() == 0 {
        h.url
    } else {
        h.title
    };
    "<a class=\"row\" href=\""@ + codec::html(h.url) + "\"><span class=\"t\">"@ + codec::html(
        codec::shortened(title, 80),
    ) + "</span><span class=\"u\">"@ + codec::html(h.url) + "</span></a>"@
}

/// The rows of the page of visited pages: the latest first, each address once, and no internal
/// ones. `h` is what is left to show and `seen` the addresses shown already.
pub open spec fn visit_rows(h: Seq<VisitView>, seen: Seq<Seq<char>>) -> Seq<char>
    decreases h.len(),
{
    if h.len() == 0 {
        Seq::empty()
    } else if is_left_out(h.last().url) || seen.contains(h.last().url) {
        visit_rows(h.drop_last(), seen)
    } else {
        visit_row(h.last()) + visit_rows(h.drop_last(), seen.push(h.last().url))
    }
}

/// What the page of visited pages shows.
pub open spec fn visit_list(h: Seq<VisitView>) -> Seq<char> {
    let rows = visit_rows(h, Seq::empty());
    if rows.len() == 0 {
        "<p class=\"empty\">No history yet. Pages you visit will appear here.</p>"@
    } else {
        boxed(rows)
    }
}

fn left_out(url: &str) -> (r: bool)
    ensures
        r == is_left_out(url@),
{
    text::starts_with(url, "gator:") || text::starts_with(url, "about:") || text::starts_with(
        url,
        "data:",
    ) || text::starts_with(url, "file:")
}

fn write_visit_row(e: &HistoryEntry) -> (r: String)
    ensures
        r@ == visit_row(e@),
{
    let title: &str = if text::trim(e.title.as_str()).as_str().unicode_len() == 0 {
        e.url.as_str()
    } else {
        e.title.as_str()
    };
    let mut row: String = "<a class=\"row\" href=\"".to_owned();
    row.append(codec::html_escape(e.url.as_str()).as_str());
    row.append("\"><span class=\"t\">");
    row.append(codec::html_escape(codec::truncate_ellipsis(title, 80).as_str()).as_str());
    row.append("</span><span class=\"u\">");
    row.append(codec::html_escape(e.url.as_str()).as_str());
    row.append("</span></a>");
    row
}

/// The page of visited pages, from its template.
pub fn render_gator_history(
    template: &str,
    accent: &str,
    history: &Vec<HistoryEntry>,
    p: &Palette,
) -> (r: String)
    ensures
        r@ == list_page(template@, accent@, visit_list(profile::visit_views(history@)), *p),
{
    let ghost all = profile::visit_views(history@);
    let ghost want = visit_rows(all, Seq::empty());
    let mut out: String = String::new();
    let mut seen: Vec<String> = Vec::new();
    let mut n: usize = history.len();
    assert(text::texts(seen@) =~= Seq::<Seq<char>>::empty());
    assert(all.take(n as int) =~= all);
    assert(out@ + visit_rows(all, Seq::empty()) =~= want);
    while n > 0
        invariant
            n <= history@.len(),
            all == profile::visit_views(history@),
            out@ + visit_rows(all.take(n as int), text::texts(seen@)) == want,
        decreases n,
    {
        let ghost rest = all.take(n as int);
        assert(rest.drop_last() =~= all.take(n - 1));
        assert(rest.last() == history@[n - 1]@);
        let e: &HistoryEntry = &history[n - 1];
        if !left_out(e.url.as_str()) && !text::is_one_of(e.url.as_str(), &seen) {
            let ghost before = out@;
            let ghost s = text::texts(seen@);
            out.append(write_visit_row(e).as_str());
            seen.push(e.url.clone());
            assert(text::texts(seen@) =~= s.push(e.url@));
            assert(before + (visit_row(e@) + visit_rows(all.take(n - 1), s.push(e.url@)))
                =~= out@ + visit_rows(all.take(n - 1), s.push(e.url@)));
        }
        n = n - 1;
    }
    assert(out@ + Seq::<char>::empty() =~= out@);
    assert(out@ == want);
    let rows: String = if out.as_str().unicode_len() == 0 {
        "<p class=\"empty\">No history yet. Pages you visit will appear here.</p>".to_owned()
    } else {
        box_rows(out.as_str())
    };
    fill_list_page(template, accent, rows.as_str(), p)
}

// ---------------------------------------------------------------------------
// The page about the browser
// ---------------------------------------------------------------------------

/// The page about the browser, from its template.
pub fn render_gator_about(template: &str, accent: &str, version: &str, p: &Palette) -> (r: String)
    ensures
        r@ == coloured(
            text::replaced(
                text::replaced(template@, "__ACCENT__"@, accent@),
                "__VERSION__"@,
                version@,
            ),
            *p,
        ),
{
    let t: String = fill(template, "__ACCENT__", accent);
    let t: String = fill(t.as_str(), "__VERSION__", version);
    themed(t.as_str(), p)
}

// ---------------------------------------------------------------------------
// Laws
// ---------------------------------------------------------------------------

/// A slot of a page: a name between two underscores on each side, with none doubled inside.
pub open spec fn is_slot(s: Seq<char>) -> bool {
    &&& s.len() >= 6
    &&& s[0] == '_' && s[1] == '_' && s[s.len() - 2] == '_' && s[s.len() - 1] == '_'
    &&& forall|k: int| 1 <= k < s.len() - 2 ==> !(#[trigger] s[k] == '_' && s[k + 1] == '_')
}

/// A text without two underscores side by side, such as every slot has at its ends.
pub open spec fn is_plain(s: Seq<char>) -> bool {
    forall|k: int| 0 <= k < s.len() - 1 ==> !(#[trigger] s[k] == '_' && s[k + 1] == '_')
}

/// A page without two underscores side by side has no slot to fill.
pub proof fn lemma_no_slot(s: Seq<char>, q: Seq<char>, r: Seq<char>)
    requires
        is_slot(q),
        is_plain(s),
    ensures
        text::replaced(s, q, r) == s,
{
    assert forall|k: int| !#[trigger] text::occurs_at(s, q, k) by {
        if text::occurs_at(s, q, k) {
            let w = s.subrange(k, k + q.len());
            assert(w[0] == s[k] && w[1] == s[k + 1]);
        }
    }
    text::each_copy_is_replaced(s, q, r, 0);
}

/// A page with one slot: filling it puts the text there, and filling another changes nothing.
pub proof fn lemma_fills(a: Seq<char>, p: Seq<char>, b: Seq<char>, q: Seq<char>, r: Seq<char>)
    requires
        is_slot(p),
        is_slot(q),
        !a.contains('_'),
        !b.contains('_'),
    ensures
        p == q ==> text::replaced(a + p + b, q, r) == a + r + b,
        p != q ==> text::replaced(a + p + b, q, r) == a + p + b,
{
    let s = a + p + b;
    let n = a.len() as int;
    assert forall|k: int| text::occurs_at(s, q, k) implies k == n && p == q by {
        let w = s.subrange(k, k + q.len());
        let m = q.len() as int;
        assert(w[0] == s[k] && w[1] == s[k + 1] && w[m - 2] == s[k + m - 2] && w[m - 1] == s[k + m - 1]);
        if k < n {
            assert(s[k] == a[k]);
            assert(a.contains('_'));
        }
        if k + m > n + p.len() {
            assert(s[k + m - 1] == b[k + m - 1 - n - p.len()]);
            assert(b.contains('_'));
        }
        assert(s[k] == p[k - n] && s[k + 1] == p[k - n + 1]);
        if k > n {
            assert(!(p[k - n] == '_' && p[k - n + 1] == '_'));
        }
        if m < p.len() {
            assert(s[n + m - 2] == p[m - 2] && s[n + m - 1] == p[m - 2 + 1]);
            assert(!(p[m - 2] == '_' && p[m - 2 + 1] == '_'));
        }
        assert(w =~= p);
    }
    if p == q {
        assert(s.subrange(n, n + p.len()) =~= p);
        assert(text::occurs_at(s, q, n));
        text::each_copy_is_replaced(s, q, r, n);
        assert(s.take(n) =~= a);
        assert(s.skip(n + q.len()) =~= b);
        assert forall|k: int| 0 <= k < b.len() - 1 implies !(#[trigger] b[k] == '_' && b[k + 1] == '_') by {
            assert(b.contains(b[k]));
        }
        lemma_no_slot(b, q, r);
    } else {
        text::each_copy_is_replaced(s, q, r, 0);
    }
}

/// A text without underscores between others without has none side by side.
pub proof fn lemma_plain_whole(a: Seq<char>, with: Seq<char>, b: Seq<char>)
    requires
        !a.contains('_'),
        !b.contains('_'),
        is_plain(with),
    ensures
        is_plain(a + with + b),
{
    let s = a + with + b;
    let n = a.len() as int;
    let m = with.len() as int;
    assert forall|k: int| 0 <= k < s.len() - 1 implies !(#[trigger] s[k] == '_' && s[k + 1] == '_') by {
        if k < n {
            assert(s[k] == a[k]);
            assert(a.contains(a[k]));
        } else if k + 1 < n + m {
            assert(s[k] == with[k - n] && s[k + 1] == with[k - n + 1]);
            assert(!(with[k - n] == '_' && with[k - n + 1] == '_'));
        } else {
            assert(s[k + 1] == b[k + 1 - n - m]);
            assert(b.contains(b[k + 1 - n - m]));
        }
    }
}

/// A text without any underscore is plain.
pub proof fn lemma_plain_alone(s: Seq<char>)
    requires
        !s.contains('_'),
    ensures
        is_plain(s),
{
    assert forall|k: int| 0 <= k < s.len() - 1 implies !(#[trigger] s[k] == '_' && s[k + 1] == '_') by {
        assert(s.contains(s[k]));
    }
}

proof fn lemma_colour_names()
    ensures
        is_slot("__BG__"@),
        is_slot("__PANEL__"@),
        is_slot("__ELEV__"@),
        is_slot("__LINE__"@),
        is_slot("__FG__"@),
        is_slot("__MUTED__"@),
        is_slot("__ACCENT__"@),
        is_slot("__ACCENT_RGB__"@),
        "__PANEL__"@ != "__BG__"@,
        "__ELEV__"@ != "__BG__"@,
        "__ELEV__"@ != "__PANEL__"@,
        "__LINE__"@ != "__BG__"@,
        "__LINE__"@ != "__PANEL__"@,
        "__LINE__"@ != "__ELEV__"@,
        "__FG__"@ != "__BG__"@,
        "__FG__"@ != "__PANEL__"@,
        "__FG__"@ != "__ELEV__"@,
        "__FG__"@ != "__LINE__"@,
        "__MUTED__"@ != "__BG__"@,
        "__MUTED__"@ != "__PANEL__"@,
        "__MUTED__"@ != "__ELEV__"@,
        "__MUTED__"@ != "__LINE__"@,
        "__MUTED__"@ != "__FG__"@,
        "__ACCENT__"@ != "__BG__"@,
        "__ACCENT__"@ != "__PANEL__"@,
        "__ACCENT__"@ != "__ELEV__"@,
        "__ACCENT__"@ != "__LINE__"@,
        "__ACCENT__"@ != "__FG__"@,
        "__ACCENT__"@ != "__MUTED__"@,
        "__ACCENT_RGB__"@ != "__BG__"@,
        "__ACCENT_RGB__"@ != "__PANEL__"@,
        "__ACCENT_RGB__"@ != "__ELEV__"@,
        "__ACCENT_RGB__"@ != "__LINE__"@,
        "__ACCENT_RGB__"@ != "__FG__"@,
        "__ACCENT_RGB__"@ != "__MUTED__"@,
        "__ACCENT_RGB__"@ != "__ACCENT__"@,
{
    reveal_strlit("__BG__");
    assert("__BG__"@.len() == 6);
    assert("__BG__"@[0] == '_' && "__BG__"@[1] == '_' && "__BG__"@[2] == 'B' && "__BG__"@[3] == 'G' && "__BG__"@[4] == '_' && "__BG__"@[5] == '_');
    assert(is_slot("__BG__"@));
    reveal_strlit("__PANEL__");
    assert("__PANEL__"@.len() == 9);
    assert("__PANEL__"@[0] == '_' && "__PANEL__"@[1] == '_' && "__PANEL__"@[2] == 'P' && "__PANEL__"@[3] == 'A' && "__PANEL__"@[4] == 'N' && "__PANEL__"@[5] == 'E' && "__PANEL__"@[6] == 'L' && "__PANEL__"@[7] == '_' && "__PANEL__"@[8] == '_');
    assert(is_slot("__PANEL__"@));
    reveal_strlit("__ELEV__");
    assert("__ELEV__"@.len() == 8);
    assert("__ELEV__"@[0] == '_' && "__ELEV__"@[1] == '_' && "__ELEV__"@[2] == 'E' && "__ELEV__"@[3] == 'L' && "__ELEV__"@[4] == 'E' && "__ELEV__"@[5] == 'V' && "__ELEV__"@[6] == '_' && "__ELEV__"@[7] == '_');
    assert(is_slot("__ELEV__"@));
    reveal_strlit("__LINE__");
    assert("__LINE__"@.len() == 8);
    assert("__LINE__"@[0] == '_' && "__LINE__"@[1] == '_' && "__LINE__"@[2] == 'L' && "__LINE__"@[3] == 'I' && "__LINE__"@[4] == 'N' && "__LINE__"@[5] == 'E' && "__LINE__"@[6] == '_' && "__LINE__"@[7] == '_');
    assert(is_slot("__LINE__"@));
    reveal_strlit("__FG__");
    assert("__FG__"@.len() == 6);
    assert("__FG__"@[0] == '_' && "__FG__"@[1] == '_' && "__FG__"@[2] == 'F' && "__FG__"@[3] == 'G' && "__FG__"@[4] == '_' && "__FG__"@[5] == '_');
    assert(is_slot("__FG__"@));
    reveal_strlit("__MUTED__");
    assert("__MUTED__"@.len() == 9);
    assert("__MUTED__"@[0] == '_' && "__MUTED__"@[1] == '_' && "__MUTED__"@[2] == 'M' && "__MUTED__"@[3] == 'U' && "__MUTED__"@[4] == 'T' && "__MUTED__"@[5] == 'E' && "__MUTED__"@[6] == 'D' && "__MUTED__"@[7] == '_' && "__MUTED__"@[8] == '_');
    assert(is_slot("__MUTED__"@));
    reveal_strlit("__ACCENT__");
    assert("__ACCENT__"@.len() == 10);
    assert("__ACCENT__"@[0] == '_' && "__ACCENT__"@[1] == '_' && "__ACCENT__"@[2] == 'A' && "__ACCENT__"@[3] == 'C' && "__ACCENT__"@[4] == 'C' && "__ACCENT__"@[5] == 'E' && "__ACCENT__"@[6] == 'N' && "__ACCENT__"@[7] == 'T' && "__ACCENT__"@[8] == '_' && "__ACCENT__"@[9] == '_');
    assert(is_slot("__ACCENT__"@));
    reveal_strlit("__ACCENT_RGB__");
    assert("__ACCENT_RGB__"@.len() == 14);
    assert("__ACCENT_RGB__"@[0] == '_' && "__ACCENT_RGB__"@[1] == '_' && "__ACCENT_RGB__"@[2] == 'A' && "__ACCENT_RGB__"@[3] == 'C' && "__ACCENT_RGB__"@[4] == 'C' && "__ACCENT_RGB__"@[5] == 'E' && "__ACCENT_RGB__"@[6] == 'N' && "__ACCENT_RGB__"@[7] == 'T' && "__ACCENT_RGB__"@[8] == '_' && "__ACCENT_RGB__"@[9] == 'R' && "__ACCENT_RGB__"@[10] == 'G' && "__ACCENT_RGB__"@[11] == 'B' && "__ACCENT_RGB__"@[12] == '_' && "__ACCENT_RGB__"@[13] == '_');
    assert(is_slot("__ACCENT_RGB__"@));
}

/// The slots for the browser's colours.
pub open spec fn is_colour_slot(s: Seq<char>) -> bool {
    s == "__BG__"@ || s == "__PANEL__"@ || s == "__ELEV__"@ || s == "__LINE__"@ || s == "__FG__"@ || s == "__MUTED__"@ || s == "__ACCENT__"@ || s == "__ACCENT_RGB__"@
}

proof fn lemma_colour_is_plain(c: Rgb)
    ensures
        !codec::colour_text(c).contains('_'),
        !channels(c).contains('_'),
{
    codec::colour_round_trip(c);
    codec::css_hex_is_inert(codec::colour_text(c));
    number::lemma_decimal(c.red as nat);
    number::lemma_decimal(c.green as nat);
    number::lemma_decimal(c.blue as nat);
    reveal_strlit(", ");
    let r = number::decimal(c.red as nat);
    let g = number::decimal(c.green as nat);
    let b = number::decimal(c.blue as nat);
    assert(", "@.len() == 2 && ", "@[0] == ',' && ", "@[1] == ' ');
    assert forall|i: int| 0 <= i < channels(c).len() implies #[trigger] channels(c)[i] != '_' by {
        let s = channels(c);
        if i < r.len() {
            assert(s[i] == r[i]);
            assert(number::is_digit(r[i]));
        } else if i < r.len() + 2 {
            assert(s[i] == ", "@[i - r.len()]);
        } else if i < r.len() + 2 + g.len() {
            assert(s[i] == g[i - r.len() - 2]);
            assert(number::is_digit(g[i - r.len() - 2]));
        } else if i < r.len() + 4 + g.len() {
            assert(s[i] == ", "@[i - r.len() - 2 - g.len()]);
        } else {
            assert(s[i] == b[i - r.len() - 4 - g.len()]);
            assert(number::is_digit(b[i - r.len() - 4 - g.len()]));
        }
    }
}

#[verifier::rlimit(60)]
proof fn lemma_coloured_slot(a: Seq<char>, slot: Seq<char>, b: Seq<char>, with: Seq<char>, p: Palette)
    requires
        !a.contains('_'),
        !b.contains('_'),
        is_colour_slot(slot),
        slot == "__BG__"@ ==> with == codec::colour_text(p.bg),
        slot == "__PANEL__"@ ==> with == codec::colour_text(p.bg2),
        slot == "__ELEV__"@ ==> with == codec::colour_text(p.elev),
        slot == "__LINE__"@ ==> with == codec::colour_text(p.border),
        slot == "__FG__"@ ==> with == codec::colour_text(p.text),
        slot == "__MUTED__"@ ==> with == codec::colour_text(p.muted),
        slot == "__ACCENT__"@ ==> with == codec::colour_text(p.accent),
        slot == "__ACCENT_RGB__"@ ==> with == channels(p.accent),
    ensures
        coloured(a + slot + b, p) == a + with + b,
{
    lemma_colour_names();
    lemma_colour_is_plain(p.bg);
    lemma_colour_is_plain(p.bg2);
    lemma_colour_is_plain(p.elev);
    lemma_colour_is_plain(p.border);
    lemma_colour_is_plain(p.text);
    lemma_colour_is_plain(p.muted);
    lemma_colour_is_plain(p.accent);
    lemma_plain_alone(with);
    lemma_plain_whole(a, with, b);
    lemma_fills(a, slot, b, "__BG__"@, codec::colour_text(p.bg));
    lemma_no_slot(a + with + b, "__BG__"@, codec::colour_text(p.bg));
    lemma_fills(a, slot, b, "__PANEL__"@, codec::colour_text(p.bg2));
    lemma_no_slot(a + with + b, "__PANEL__"@, codec::colour_text(p.bg2));
    lemma_fills(a, slot, b, "__ELEV__"@, codec::colour_text(p.elev));
    lemma_no_slot(a + with + b, "__ELEV__"@, codec::colour_text(p.elev));
    lemma_fills(a, slot, b, "__LINE__"@, codec::colour_text(p.border));
    lemma_no_slot(a + with + b, "__LINE__"@, codec::colour_text(p.border));
    lemma_fills(a, slot, b, "__FG__"@, codec::colour_text(p.text));
    lemma_no_slot(a + with + b, "__FG__"@, codec::colour_text(p.text));
    lemma_fills(a, slot, b, "__MUTED__"@, codec::colour_text(p.muted));
    lemma_no_slot(a + with + b, "__MUTED__"@, codec::colour_text(p.muted));
    lemma_fills(a, slot, b, "__ACCENT__"@, codec::colour_text(p.accent));
    lemma_no_slot(a + with + b, "__ACCENT__"@, codec::colour_text(p.accent));
    lemma_fills(a, slot, b, "__ACCENT_RGB__"@, channels(p.accent));
    lemma_no_slot(a + with + b, "__ACCENT_RGB__"@, channels(p.accent));
}

/// A page without slots stays as it is.
pub proof fn pages_without_slots_stay(s: Seq<char>, p: Palette)
    requires
        is_plain(s),
    ensures
        coloured(s, p) == s,
{
    lemma_colour_names();
    lemma_no_slot(s, "__BG__"@, codec::colour_text(p.bg));
    lemma_no_slot(s, "__PANEL__"@, codec::colour_text(p.bg2));
    lemma_no_slot(s, "__ELEV__"@, codec::colour_text(p.elev));
    lemma_no_slot(s, "__LINE__"@, codec::colour_text(p.border));
    lemma_no_slot(s, "__FG__"@, codec::colour_text(p.text));
    lemma_no_slot(s, "__MUTED__"@, codec::colour_text(p.muted));
    lemma_no_slot(s, "__ACCENT__"@, codec::colour_text(p.accent));
    lemma_no_slot(s, "__ACCENT_RGB__"@, channels(p.accent));
}

/// Each of the browser's colours goes into the slot that is named for it, and the rest of the page stays
/// as it is.
pub proof fn colours_go_into_their_slots(a: Seq<char>, b: Seq<char>, p: Palette)
    requires
        !a.contains('_'),
        !b.contains('_'),
    ensures
        coloured(a + "__BG__"@ + b, p) == a + codec::colour_text(p.bg) + b,
        coloured(a + "__PANEL__"@ + b, p) == a + codec::colour_text(p.bg2) + b,
        coloured(a + "__ELEV__"@ + b, p) == a + codec::colour_text(p.elev) + b,
        coloured(a + "__LINE__"@ + b, p) == a + codec::colour_text(p.border) + b,
        coloured(a + "__FG__"@ + b, p) == a + codec::colour_text(p.text) + b,
        coloured(a + "__MUTED__"@ + b, p) == a + codec::colour_text(p.muted) + b,
        coloured(a + "__ACCENT__"@ + b, p) == a + codec::colour_text(p.accent) + b,
        coloured(a + "__ACCENT_RGB__"@ + b, p) == a + channels(p.accent) + b,
{
    lemma_colour_names();
    lemma_coloured_slot(a, "__BG__"@, b, codec::colour_text(p.bg), p);
    lemma_coloured_slot(a, "__PANEL__"@, b, codec::colour_text(p.bg2), p);
    lemma_coloured_slot(a, "__ELEV__"@, b, codec::colour_text(p.elev), p);
    lemma_coloured_slot(a, "__LINE__"@, b, codec::colour_text(p.border), p);
    lemma_coloured_slot(a, "__FG__"@, b, codec::colour_text(p.text), p);
    lemma_coloured_slot(a, "__MUTED__"@, b, codec::colour_text(p.muted), p);
    lemma_coloured_slot(a, "__ACCENT__"@, b, codec::colour_text(p.accent), p);
    lemma_coloured_slot(a, "__ACCENT_RGB__"@, b, channels(p.accent), p);
}

/// A blocked request is filed under its own host.
pub open spec fn is_filed(g: Seq<Group>, host: Seq<char>, url: Seq<char>) -> bool {
    exists|k: int| 0 <= k < g.len() && (#[trigger] g[k]).0 == host && g[k].1.contains(url)
}

proof fn lemma_filed(g: Seq<Group>, host: Seq<char>, url: Seq<char>, h: Seq<char>, u: Seq<char>)
    ensures
        is_filed(filed(g, host, url), h, u) <==> is_filed(g, h, u) || (h == host && u == url),
    decreases g.len(),
{
    let f = filed(g, host, url);
    if g.len() == 0 {
        assert(f[0].0 == host && f[0].1 =~= seq![url]);
        assert(f[0].1[0] == url);
        if is_filed(f, h, u) {
            let k = choose|k: int| 0 <= k < f.len() && (#[trigger] f[k]).0 == h && f[k].1.contains(u);
        }
    } else if g[0].0 == host {
        assert(f[0].1 == g[0].1.push(url));
        assert(g[0].1.push(url)[g[0].1.len() as int] == url);
        if is_filed(f, h, u) {
            let k = choose|k: int| 0 <= k < f.len() && (#[trigger] f[k]).0 == h && f[k].1.contains(u);
            if k > 0 {
                assert(f[k] == g[k]);
            } else {
                let j = choose|j: int| 0 <= j < f[0].1.len() && f[0].1[j] == u;
                if j < g[0].1.len() {
                    assert(g[0].1[j] == u);
                    assert(g[0].1.contains(u));
                }
            }
        }
        if is_filed(g, h, u) {
            let k = choose|k: int| 0 <= k < g.len() && (#[trigger] g[k]).0 == h && g[k].1.contains(u);
            if k > 0 {
                assert(f[k] == g[k]);
            } else {
                let j = choose|j: int| 0 <= j < g[0].1.len() && g[0].1[j] == u;
                assert(f[0].1[j] == u);
            }
        }
        if h == host && u == url {
            assert(f[0].1.contains(url));
        }
    } else if text::sorts_before(host, g[0].0) {
        assert(f[0].1[0] == url);
        if is_filed(f, h, u) {
            let k = choose|k: int| 0 <= k < f.len() && (#[trigger] f[k]).0 == h && f[k].1.contains(u);
            if k > 0 {
                assert(g[k - 1] == f[k]);
            }
        }
        if is_filed(g, h, u) {
            let k = choose|k: int| 0 <= k < g.len() && (#[trigger] g[k]).0 == h && g[k].1.contains(u);
            assert(f[k + 1] == g[k]);
        }
        if h == host && u == url {
            assert(f[0].1.contains(url));
        }
    } else {
        let t = g.skip(1);
        lemma_filed(t, host, url, h, u);
        let ft = filed(t, host, url);
        if is_filed(f, h, u) {
            let k = choose|k: int| 0 <= k < f.len() && (#[trigger] f[k]).0 == h && f[k].1.contains(u);
            if k > 0 {
                assert(ft[k - 1] == f[k]);
            } else {
                assert(g[0] == f[0]);
            }
            if k > 0 && is_filed(t, h, u) {
                let j = choose|j: int| 0 <= j < t.len() && (#[trigger] t[j]).0 == h && t[j].1.contains(u);
                assert(g[j + 1] == t[j]);
            }
        }
        if is_filed(g, h, u) {
            let k = choose|k: int| 0 <= k < g.len() && (#[trigger] g[k]).0 == h && g[k].1.contains(u);
            if k > 0 {
                assert(t[k - 1] == g[k]);
            } else {
                assert(f[0] == g[0]);
            }
        }
        if is_filed(ft, h, u) {
            let j = choose|j: int| 0 <= j < ft.len() && (#[trigger] ft[j]).0 == h && ft[j].1.contains(u);
            assert(f[j + 1] == ft[j]);
        }
    }
}

/// The receipt lists every blocked request under its host, and nothing that was not blocked, nor
/// anything under another host.
pub proof fn blocked_requests_are_under_their_host(log: Seq<Seq<char>>, host: Seq<char>, url: Seq<char>)
    ensures
        is_filed(by_host(log), host, url) <==> log.contains(url) && host == match address::host_of_text(
            url,
        ) {
            Some(h) => h,
            None => "(other)"@,
        },
    decreases log.len(),
{
    if log.len() == 0 {
        assert(by_host(log).len() == 0);
    } else {
        let d = log.drop_last();
        blocked_requests_are_under_their_host(d, host, url);
        lemma_filed(by_host(d), listed_host(log.last()), log.last(), host, url);
        if log.contains(url) {
            let i = choose|i: int| 0 <= i < log.len() && log[i] == url;
            if i < d.len() {
                assert(d[i] == url);
            }
        }
        if d.contains(url) {
            let i = choose|i: int| 0 <= i < d.len() && d[i] == url;
            assert(log[i] == url);
        }
        assert(log[log.len() - 1] == log.last());
    }
}

/// A host's part of the receipt names it, says how many of its requests were stopped, and lists them
/// one after the other.
pub proof fn the_receipt_names_what_was_stopped(host: Seq<char>, urls: Seq<Seq<char>>, url: Seq<char>)
    ensures
        group_text((host, urls)) == "<details><summary><span>"@ + codec::html(host)
            + "</span><span class=\"n\">"@ + number::decimal(urls.len()) + "</span></summary><ul>"@
            + item_text(urls) + "</ul></details>"@,
        item_text(urls.push(url)) == item_text(urls) + "<li>"@ + codec::html(url) + "</li>"@,
{
    assert(urls.push(url).drop_last() =~= urls);
    assert(item_text(urls) + ("<li>"@ + codec::html(url) + "</li>"@) =~= item_text(urls) + "<li>"@
        + codec::html(url) + "</li>"@);
}

/// The page of visited pages shows the latest visit first and an address once; the browser's own pages,
/// blank ones, files and pages that are their own address are left out.
pub proof fn the_latest_visit_is_shown_first(h: Seq<VisitView>, v: VisitView, seen: Seq<Seq<char>>)
    ensures
        visit_rows(h.push(v), seen) == if "gator:"@.is_prefix_of(v.url) || "about:"@.is_prefix_of(v.url)
            || "data:"@.is_prefix_of(v.url) || "file:"@.is_prefix_of(v.url) || seen.contains(v.url) {
            visit_rows(h, seen)
        } else {
            visit_row(v) + visit_rows(h, seen.push(v.url))
        },
        visit_rows(Seq::empty(), seen).len() == 0,
{
    assert(h.push(v).drop_last() =~= h);
}

/// A visited page that is shown links to its address, under its title or, where that is blank, under
/// the address itself; a long title is cut.
pub proof fn visits_are_shown_by_their_title(v: VisitView)
    ensures
        text::trimmed(v.title).len() > 0 && v.title.len() <= 80 ==> visit_row(v)
            == "<a class=\"row\" href=\""@ + codec::html(v.url) + "\"><span class=\"t\">"@ + codec::html(
            v.title,
        ) + "</span><span class=\"u\">"@ + codec::html(v.url) + "</span></a>"@,
        text::trimmed(v.title).len() == 0 && v.url.len() <= 80 ==> visit_row(v)
            == "<a class=\"row\" href=\""@ + codec::html(v.url) + "\"><span class=\"t\">"@ + codec::html(
            v.url,
        ) + "</span><span class=\"u\">"@ + codec::html(v.url) + "</span></a>"@,
        text::trimmed(v.title).len() > 0 && v.title.len() > 80 ==> visit_row(v)
            == "<a class=\"row\" href=\""@ + codec::html(v.url) + "\"><span class=\"t\">"@ + codec::html(
            v.title.take(79).push('…'),
        ) + "</span><span class=\"u\">"@ + codec::html(v.url) + "</span></a>"@,
{
}

/// The rows of a list go into the slot for them; so does the accent, which comes before the browser's
/// own.
pub proof fn rows_go_into_their_slot(
    a: Seq<char>,
    b: Seq<char>,
    accent: Seq<char>,
    rows: Seq<char>,
    p: Palette,
)
    requires
        !a.contains('_'),
        !b.contains('_'),
        is_plain(rows),
        is_plain(accent),
    ensures
        list_page(a + "__ROWS__"@ + b, accent, rows, p) == a + rows + b,
        list_page(a + "__ACCENT__"@ + b, accent, rows, p) == a + accent + b,
{
    reveal_strlit("__ROWS__");
    assert("__ROWS__"@.len() == 8);
    assert("__ROWS__"@[0] == '_' && "__ROWS__"@[1] == '_' && "__ROWS__"@[2] == 'R' && "__ROWS__"@[3] == 'O' && "__ROWS__"@[4] == 'W' && "__ROWS__"@[5] == 'S' && "__ROWS__"@[6] == '_' && "__ROWS__"@[7] == '_');
    assert(is_slot("__ROWS__"@));
    reveal_strlit("__ACCENT__");
    assert("__ACCENT__"@.len() == 10);
    assert("__ACCENT__"@[0] == '_' && "__ACCENT__"@[1] == '_' && "__ACCENT__"@[2] == 'A' && "__ACCENT__"@[3] == 'C' && "__ACCENT__"@[4] == 'C' && "__ACCENT__"@[5] == 'E' && "__ACCENT__"@[6] == 'N' && "__ACCENT__"@[7] == 'T' && "__ACCENT__"@[8] == '_' && "__ACCENT__"@[9] == '_');
    assert(is_slot("__ACCENT__"@));
    lemma_plain_whole(a, rows, b);
    lemma_plain_whole(a, accent, b);
    lemma_fills(a, "__ROWS__"@, b, "__ACCENT__"@, accent);
    lemma_fills(a, "__ROWS__"@, b, "__ROWS__"@, rows);
    lemma_fills(a, "__ACCENT__"@, b, "__ACCENT__"@, accent);
    lemma_no_slot(a + accent + b, "__ROWS__"@, rows);
    pages_without_slots_stay(a + rows + b, p);
    pages_without_slots_stay(a + accent + b, p);
}

/// The page of a crash shows the address that crashed and leads back to it, and says why; without an
/// address it leads to the welcome page, and without a reason it says that the page ended unexpectedly.
pub proof fn a_crash_is_explained(
    a: Seq<char>,
    b: Seq<char>,
    accent: Seq<char>,
    url: Seq<char>,
    reason: Seq<char>,
    p: Palette,
)
    requires
        !a.contains('_'),
        !b.contains('_'),
        is_plain(codec::html(url)),
        is_plain(codec::html(reason)),
        url.len() > 0,
        text::trimmed(reason).len() > 0,
    ensures
        crash_text(a + "__CRASH_URL__"@ + b, accent, url, reason, p) == a + codec::html(url) + b,
        crash_text(a + "__CRASH_HREF__"@ + b, accent, url, reason, p) == a + codec::html(url) + b,
        crash_text(a + "__CRASH_REASON__"@ + b, accent, url, reason, p) == a + codec::html(reason) + b,
{
    reveal_strlit("__ROWS__");
    assert("__ROWS__"@.len() == 8);
    assert("__ROWS__"@[0] == '_' && "__ROWS__"@[1] == '_' && "__ROWS__"@[2] == 'R' && "__ROWS__"@[3] == 'O' && "__ROWS__"@[4] == 'W' && "__ROWS__"@[5] == 'S' && "__ROWS__"@[6] == '_' && "__ROWS__"@[7] == '_');
    assert(is_slot("__ROWS__"@));
    reveal_strlit("__VERSION__");
    assert("__VERSION__"@.len() == 11);
    assert("__VERSION__"@[0] == '_' && "__VERSION__"@[1] == '_' && "__VERSION__"@[2] == 'V' && "__VERSION__"@[3] == 'E' && "__VERSION__"@[4] == 'R' && "__VERSION__"@[5] == 'S' && "__VERSION__"@[6] == 'I' && "__VERSION__"@[7] == 'O' && "__VERSION__"@[8] == 'N' && "__VERSION__"@[9] == '_' && "__VERSION__"@[10] == '_');
    assert(is_slot("__VERSION__"@));
    reveal_strlit("__CRASH_HREF__");
    assert("__CRASH_HREF__"@.len() == 14);
    assert("__CRASH_HREF__"@[0] == '_' && "__CRASH_HREF__"@[1] == '_' && "__CRASH_HREF__"@[2] == 'C' && "__CRASH_HREF__"@[3] == 'R' && "__CRASH_HREF__"@[4] == 'A' && "__CRASH_HREF__"@[5] == 'S' && "__CRASH_HREF__"@[6] == 'H' && "__CRASH_HREF__"@[7] == '_' && "__CRASH_HREF__"@[8] == 'H' && "__CRASH_HREF__"@[9] == 'R' && "__CRASH_HREF__"@[10] == 'E' && "__CRASH_HREF__"@[11] == 'F' && "__CRASH_HREF__"@[12] == '_' && "__CRASH_HREF__"@[13] == '_');
    assert(is_slot("__CRASH_HREF__"@));
    reveal_strlit("__CRASH_URL__");
    assert("__CRASH_URL__"@.len() == 13);
    assert("__CRASH_URL__"@[0] == '_' && "__CRASH_URL__"@[1] == '_' && "__CRASH_URL__"@[2] == 'C' && "__CRASH_URL__"@[3] == 'R' && "__CRASH_URL__"@[4] == 'A' && "__CRASH_URL__"@[5] == 'S' && "__CRASH_URL__"@[6] == 'H' && "__CRASH_URL__"@[7] == '_' && "__CRASH_URL__"@[8] == 'U' && "__CRASH_URL__"@[9] == 'R' && "__CRASH_URL__"@[10] == 'L' && "__CRASH_URL__"@[11] == '_' && "__CRASH_URL__"@[12] == '_');
    assert(is_slot("__CRASH_URL__"@));
    reveal_strlit("__CRASH_REASON__");
    assert("__CRASH_REASON__"@.len() == 16);
    assert("__CRASH_REASON__"@[0] == '_' && "__CRASH_REASON__"@[1] == '_' && "__CRASH_REASON__"@[2] == 'C' && "__CRASH_REASON__"@[3] == 'R' && "__CRASH_REASON__"@[4] == 'A' && "__CRASH_REASON__"@[5] == 'S' && "__CRASH_REASON__"@[6] == 'H' && "__CRASH_REASON__"@[7] == '_' && "__CRASH_REASON__"@[8] == 'R' && "__CRASH_REASON__"@[9] == 'E' && "__CRASH_REASON__"@[10] == 'A' && "__CRASH_REASON__"@[11] == 'S' && "__CRASH_REASON__"@[12] == 'O' && "__CRASH_REASON__"@[13] == 'N' && "__CRASH_REASON__"@[14] == '_' && "__CRASH_REASON__"@[15] == '_');
    assert(is_slot("__CRASH_REASON__"@));
    reveal_strlit("__ACCENT__");
    assert("__ACCENT__"@.len() == 10);
    assert("__ACCENT__"@[0] == '_' && "__ACCENT__"@[1] == '_' && "__ACCENT__"@[2] == 'A' && "__ACCENT__"@[3] == 'C' && "__ACCENT__"@[4] == 'C' && "__ACCENT__"@[5] == 'E' && "__ACCENT__"@[6] == 'N' && "__ACCENT__"@[7] == 'T' && "__ACCENT__"@[8] == '_' && "__ACCENT__"@[9] == '_');
    assert(is_slot("__ACCENT__"@));
    lemma_plain_whole(a, codec::html(url), b);
    lemma_plain_whole(a, codec::html(reason), b);
    let u = codec::html(url);
    let w = codec::html(reason);
    lemma_fills(a, "__CRASH_URL__"@, b, "__ACCENT__"@, accent);
    lemma_fills(a, "__CRASH_HREF__"@, b, "__ACCENT__"@, accent);
    lemma_fills(a, "__CRASH_REASON__"@, b, "__ACCENT__"@, accent);
    lemma_fills(a, "__CRASH_URL__"@, b, "__CRASH_HREF__"@, u);
    lemma_fills(a, "__CRASH_HREF__"@, b, "__CRASH_HREF__"@, u);
    lemma_fills(a, "__CRASH_REASON__"@, b, "__CRASH_HREF__"@, u);
    lemma_fills(a, "__CRASH_URL__"@, b, "__CRASH_URL__"@, u);
    lemma_fills(a, "__CRASH_REASON__"@, b, "__CRASH_URL__"@, u);
    lemma_fills(a, "__CRASH_REASON__"@, b, "__CRASH_REASON__"@, w);
    lemma_no_slot(a + u + b, "__CRASH_URL__"@, u);
    lemma_no_slot(a + u + b, "__CRASH_REASON__"@, w);
    pages_without_slots_stay(a + u + b, p);
    pages_without_slots_stay(a + w + b, p);
}

/// A crash without an address or a reason is told of in general words, and leads to the welcome page.
pub proof fn a_bare_crash_is_explained(
    a: Seq<char>,
    b: Seq<char>,
    accent: Seq<char>,
    url: Seq<char>,
    reason: Seq<char>,
    p: Palette,
)
    requires
        !a.contains('_'),
        !b.contains('_'),
        url.len() > 0,
        text::trimmed(reason).len() == 0,
    ensures
        crash_text(a + "__CRASH_REASON__"@ + b, accent, url, reason, p) == a
            + "The renderer process exited unexpectedly."@ + b,
        crash_text(a + "__CRASH_URL__"@ + b, accent, Seq::empty(), reason, p) == a + "about:blank"@ + b,
        crash_text(a + "__CRASH_HREF__"@ + b, accent, Seq::empty(), reason, p) == a
            + "gator://welcome"@ + b,
{
    reveal_strlit("__ROWS__");
    assert("__ROWS__"@.len() == 8);
    assert("__ROWS__"@[0] == '_' && "__ROWS__"@[1] == '_' && "__ROWS__"@[2] == 'R' && "__ROWS__"@[3] == 'O' && "__ROWS__"@[4] == 'W' && "__ROWS__"@[5] == 'S' && "__ROWS__"@[6] == '_' && "__ROWS__"@[7] == '_');
    assert(is_slot("__ROWS__"@));
    reveal_strlit("__VERSION__");
    assert("__VERSION__"@.len() == 11);
    assert("__VERSION__"@[0] == '_' && "__VERSION__"@[1] == '_' && "__VERSION__"@[2] == 'V' && "__VERSION__"@[3] == 'E' && "__VERSION__"@[4] == 'R' && "__VERSION__"@[5] == 'S' && "__VERSION__"@[6] == 'I' && "__VERSION__"@[7] == 'O' && "__VERSION__"@[8] == 'N' && "__VERSION__"@[9] == '_' && "__VERSION__"@[10] == '_');
    assert(is_slot("__VERSION__"@));
    reveal_strlit("__CRASH_HREF__");
    assert("__CRASH_HREF__"@.len() == 14);
    assert("__CRASH_HREF__"@[0] == '_' && "__CRASH_HREF__"@[1] == '_' && "__CRASH_HREF__"@[2] == 'C' && "__CRASH_HREF__"@[3] == 'R' && "__CRASH_HREF__"@[4] == 'A' && "__CRASH_HREF__"@[5] == 'S' && "__CRASH_HREF__"@[6] == 'H' && "__CRASH_HREF__"@[7] == '_' && "__CRASH_HREF__"@[8] == 'H' && "__CRASH_HREF__"@[9] == 'R' && "__CRASH_HREF__"@[10] == 'E' && "__CRASH_HREF__"@[11] == 'F' && "__CRASH_HREF__"@[12] == '_' && "__CRASH_HREF__"@[13] == '_');
    assert(is_slot("__CRASH_HREF__"@));
    reveal_strlit("__CRASH_URL__");
    assert("__CRASH_URL__"@.len() == 13);
    assert("__CRASH_URL__"@[0] == '_' && "__CRASH_URL__"@[1] == '_' && "__CRASH_URL__"@[2] == 'C' && "__CRASH_URL__"@[3] == 'R' && "__CRASH_URL__"@[4] == 'A' && "__CRASH_URL__"@[5] == 'S' && "__CRASH_URL__"@[6] == 'H' && "__CRASH_URL__"@[7] == '_' && "__CRASH_URL__"@[8] == 'U' && "__CRASH_URL__"@[9] == 'R' && "__CRASH_URL__"@[10] == 'L' && "__CRASH_URL__"@[11] == '_' && "__CRASH_URL__"@[12] == '_');
    assert(is_slot("__CRASH_URL__"@));
    reveal_strlit("__CRASH_REASON__");
    assert("__CRASH_REASON__"@.len() == 16);
    assert("__CRASH_REASON__"@[0] == '_' && "__CRASH_REASON__"@[1] == '_' && "__CRASH_REASON__"@[2] == 'C' && "__CRASH_REASON__"@[3] == 'R' && "__CRASH_REASON__"@[4] == 'A' && "__CRASH_REASON__"@[5] == 'S' && "__CRASH_REASON__"@[6] == 'H' && "__CRASH_REASON__"@[7] == '_' && "__CRASH_REASON__"@[8] == 'R' && "__CRASH_REASON__"@[9] == 'E' && "__CRASH_REASON__"@[10] == 'A' && "__CRASH_REASON__"@[11] == 'S' && "__CRASH_REASON__"@[12] == 'O' && "__CRASH_REASON__"@[13] == 'N' && "__CRASH_REASON__"@[14] == '_' && "__CRASH_REASON__"@[15] == '_');
    assert(is_slot("__CRASH_REASON__"@));
    reveal_strlit("__ACCENT__");
    assert("__ACCENT__"@.len() == 10);
    assert("__ACCENT__"@[0] == '_' && "__ACCENT__"@[1] == '_' && "__ACCENT__"@[2] == 'A' && "__ACCENT__"@[3] == 'C' && "__ACCENT__"@[4] == 'C' && "__ACCENT__"@[5] == 'E' && "__ACCENT__"@[6] == 'N' && "__ACCENT__"@[7] == 'T' && "__ACCENT__"@[8] == '_' && "__ACCENT__"@[9] == '_');
    assert(is_slot("__ACCENT__"@));
    reveal_strlit("The renderer process exited unexpectedly.");
    reveal_strlit("about:blank");
    reveal_strlit("gator://welcome");
    let none = Seq::<char>::empty();
    let u = codec::html(url);
    let w = "The renderer process exited unexpectedly."@;
    let shown = "about:blank"@;
    let home = "gator://welcome"@;
    assert(address::WELCOME_URL@ == home);
    codec::html_keeps_plain_text(w);
    codec::html_keeps_plain_text(shown);
    codec::html_keeps_plain_text(home);
    lemma_plain_alone(w);
    lemma_plain_alone(shown);
    lemma_plain_alone(home);
    lemma_plain_whole(a, w, b);
    lemma_plain_whole(a, shown, b);
    lemma_plain_whole(a, home, b);
    lemma_fills(a, "__CRASH_URL__"@, b, "__ACCENT__"@, accent);
    lemma_fills(a, "__CRASH_HREF__"@, b, "__ACCENT__"@, accent);
    lemma_fills(a, "__CRASH_REASON__"@, b, "__ACCENT__"@, accent);
    lemma_fills(a, "__CRASH_URL__"@, b, "__CRASH_HREF__"@, home);
    lemma_fills(a, "__CRASH_HREF__"@, b, "__CRASH_HREF__"@, home);
    lemma_fills(a, "__CRASH_REASON__"@, b, "__CRASH_HREF__"@, u);
    lemma_fills(a, "__CRASH_URL__"@, b, "__CRASH_URL__"@, shown);
    lemma_fills(a, "__CRASH_REASON__"@, b, "__CRASH_URL__"@, u);
    lemma_fills(a, "__CRASH_REASON__"@, b, "__CRASH_REASON__"@, w);
    lemma_no_slot(a + home + b, "__CRASH_URL__"@, shown);
    lemma_no_slot(a + home + b, "__CRASH_REASON__"@, w);
    lemma_no_slot(a + shown + b, "__CRASH_REASON__"@, w);
    pages_without_slots_stay(a + home + b, p);
    pages_without_slots_stay(a + shown + b, p);
    pages_without_slots_stay(a + w + b, p);
}

/// An add-on that is on is offered to be switched off, and one that is off to be switched on, each by
/// its own name; and it can be removed by its name.
pub proof fn addons_are_offered_the_other_switch(a: AddonView, granted: Seq<char>, tail: Seq<char>)
    requires
        tail == (if a.enabled {
            "<a class=\"pill on\" href=\"gator://extensions?disable="@ + a.id + "\">Enabled</a>"@
        } else {
            "<a class=\"pill\" href=\"gator://extensions?enable="@ + a.id + "\">Disabled</a>"@
        }) + "<a class=\"rm\" href=\"gator://extensions?remove="@ + a.id + "\">Remove</a></div>"@,
    ensures
        addon_row(a, granted).len() >= tail.len(),
        addon_row(a, granted).skip(addon_row(a, granted).len() - tail.len()) == tail,
{
    let row = addon_row(a, granted);
    let front = row.take(row.len() - tail.len());
    assert(row =~= front + tail);
}

/// Each add-on has its row, in order, with the grants that stand at its place.
pub proof fn each_addon_has_its_row(e: Seq<AddonView>, a: AddonView, granted: Seq<Seq<char>>)
    ensures
        addon_rows(Seq::empty(), granted).len() == 0,
        e.len() < granted.len() ==> addon_rows(e.push(a), granted) == addon_rows(e, granted) + addon_row(
            a,
            granted[e.len() as int],
        ),
{
    assert(e.push(a).drop_last() =~= e);
}

/// Each saved login has its row, in order, and can be removed by its place.
pub proof fn each_login_has_its_row(
    l: Seq<(Seq<char>, Seq<char>)>,
    origin: Seq<char>,
    name: Seq<char>,
    tail: Seq<char>,
)
    requires
        tail == codec::html(name) + " · ••••••••</div></div><a class=\"rm\" href=\"gator://passwords?remove="@
            + number::decimal(l.len()) + "\">Remove</a></div>"@,
    ensures
        login_rows(Seq::empty()).len() == 0,
        login_rows(l).is_prefix_of(login_rows(l.push((origin, name)))),
        login_rows(l.push((origin, name))).len() >= login_rows(l).len() + tail.len(),
        login_rows(l.push((origin, name))).skip(login_rows(l.push((origin, name))).len() - tail.len())
            == tail,
{
    let m = l.push((origin, name));
    assert(m.drop_last() =~= l);
    let row = login_row((origin, name), l.len());
    assert(login_rows(m) == login_rows(l) + row);
    let front = row.take(row.len() - tail.len());
    assert(row =~= front + tail);
    assert(login_rows(m) =~= (login_rows(l) + front) + tail);
}

/// What is taken along holds every bookmark and every visited page, with address and title, and the
/// settings; the numbers of visits go with the pages.
pub proof fn everything_is_taken_along(j: Json, m: Vec<(String, Json)>, p: Profile, s: Settings, i: int)
    requires
        is_export(j, p, s),
        j == Json::Object(m),
    ensures
        m@[0].0@ == "format"@ && (m@[0].1 matches Json::Text(t) && t@ == "navgator-export"@),
        m@[1].0@ == "version"@ && (m@[1].1 matches Json::Number(t) && t@ == number::decimal(1)),
        m@[2].0@ == "settings"@ && (m@[2].1 matches Json::Object(o) && o@[0].0@ == "search"@ && (
        o@[0].1 matches Json::Text(t) && t@ == s.search@)),
        m@[2].1 matches Json::Object(o) ==> o@[2].0@ == "dark"@ && o@[2].1 == Json::Bool(s.dark)
            && o@[3].0@ == "block_ads"@ && o@[3].1 == Json::Bool(s.block_ads),
        m@[3].0@ == "bookmarks"@ && (m@[3].1 matches Json::List(b) && b@.len() == p.bookmarks@.len()),
        m@[4].0@ == "history"@ && (m@[4].1 matches Json::List(h) && h@.len() == p.history@.len()),
        0 <= i < p.bookmarks@.len() ==> (m@[3].1 matches Json::List(b) && (b@[i] matches Json::Object(o)
            && o@[0].0@ == "url"@ && (o@[0].1 matches Json::Text(t) && t@ == p.bookmarks@[i].url@)
            && o@[1].0@ == "title"@ && (o@[1].1 matches Json::Text(t) && t@ == p.bookmarks@[i].title@))),
        0 <= i < p.history@.len() ==> (m@[4].1 matches Json::List(h) && (h@[i] matches Json::Object(o)
            && o@[0].0@ == "url"@ && (o@[0].1 matches Json::Text(t) && t@ == p.history@[i].url@)
            && o@[1].0@ == "title"@ && (o@[1].1 matches Json::Text(t) && t@ == p.history@[i].title@)
            && o@[2].0@ == "visits"@ && (o@[2].1 matches Json::Number(t) && t@ == number::decimal(
            p.history@[i].visits as nat,
        )))),
{
    if 0 <= i < p.bookmarks@.len() {
        assert(m@[3].1 matches Json::List(b) && is_mark_record(b@[i], p.bookmarks@[i]@));
    }
    if 0 <= i < p.history@.len() {
        assert(m@[4].1 matches Json::List(h) && is_visit_record(h@[i], p.history@[i]@));
    }
}

/// A page with several slots filled, one after the other: each slot with the text that belongs to it.
pub open spec fn filled_in(page: Seq<char>, slots: Seq<(Seq<char>, Seq<char>)>) -> Seq<char>
    decreases slots.len(),
{
    if slots.len() == 0 {
        page
    } else {
        text::replaced(filled_in(page, slots.drop_last()), slots.last().0, slots.last().1)
    }
}

/// Where the slots have different names, a page with one of them has the text that belongs to it in its
/// place, whatever the order in which they are filled.
pub proof fn each_slot_gets_its_text(
    a: Seq<char>,
    b: Seq<char>,
    slots: Seq<(Seq<char>, Seq<char>)>,
    i: int,
)
    requires
        0 <= i < slots.len(),
        forall|k: int| 0 <= k < slots.len() ==> is_slot((#[trigger] slots[k]).0),
        forall|k: int| 0 <= k < slots.len() && k != i ==> (#[trigger] slots[k]).0 != slots[i].0,
        !a.contains('_'),
        !b.contains('_'),
        is_plain(slots[i].1),
    ensures
        filled_in(a + slots[i].0 + b, slots) == a + slots[i].1 + b,
    decreases slots.len(),
{
    let rest = slots.drop_last();
    let page = a + slots[i].0 + b;
    lemma_fills(a, slots[i].0, b, slots.last().0, slots.last().1);
    if i == slots.len() - 1 {
        lemma_untouched(a, b, slots[i].0, rest);
    } else {
        assert(rest[i] == slots[i]);
        each_slot_gets_its_text(a, b, rest, i);
        lemma_plain_whole(a, slots[i].1, b);
        lemma_no_slot(a + slots[i].1 + b, slots.last().0, slots.last().1);
    }
}

proof fn lemma_untouched(a: Seq<char>, b: Seq<char>, name: Seq<char>, slots: Seq<(Seq<char>, Seq<char>)>)
    requires
        forall|k: int| 0 <= k < slots.len() ==> is_slot((#[trigger] slots[k]).0) && slots[k].0 != name,
        is_slot(name),
        !a.contains('_'),
        !b.contains('_'),
    ensures
        filled_in(a + name + b, slots) == a + name + b,
    decreases slots.len(),
{
    if slots.len() > 0 {
        lemma_untouched(a, b, name, slots.drop_last());
        lemma_fills(a, name, b, slots.last().0, slots.last().1);
    }
}

} // verus!

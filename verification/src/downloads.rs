//! Downloads: what is on its way, what has arrived, and how that is shown.

use vstd::prelude::*;
use vstd::string::*;

use crate::codec;
use crate::pages;
use crate::pages::Palette;
use crate::text;
use crate::unicode;

verus! {

/// A file that is or was downloaded.
#[derive(Debug)]
pub struct Download {
    pub url: String,
    pub path: String,
    pub done: bool,
    pub success: bool,
}

/// `Download` as mathematical values.
#[verifier::ext_equal]
pub struct DownloadView {
    pub url: Seq<char>,
    pub path: Seq<char>,
    pub done: bool,
    pub success: bool,
}

impl View for Download {
    type V = DownloadView;

    open spec fn view(&self) -> DownloadView {
        DownloadView {
            url: self.url@,
            path: self.path@,
            done: self.done,
            success: self.success,
        }
    }
}

/// The downloads of a list.
pub open spec fn download_views(v: Seq<Download>) -> Seq<DownloadView> {
    Seq::new(v.len(), |i: int| v[i]@)
}

/// What follows the last slash of a path.
pub open spec fn file_name_of(path: Seq<char>) -> Seq<char>
    decreases path.len(),
{
    if path.len() == 0 || path.last() == '/' {
        Seq::empty()
    } else {
        file_name_of(path.drop_last()).push(path.last())
    }
}

/// What follows the last slash of a path.
pub fn file_name(path: &str) -> (r: String)
    ensures
        r@ == file_name_of(path@),
{
    let v: Vec<char> = text::chars_of(path);
    let mut i: usize = v.len();
    assert(v@.take(i as int) =~= v@);
    assert(file_name_of(v@.take(i as int)) + v@.skip(i as int) =~= file_name_of(v@));
    while i > 0 && v[i - 1] != '/'
        invariant
            i <= v@.len(),
            v@ == path@,
            file_name_of(path@) == file_name_of(v@.take(i as int)) + v@.skip(i as int),
        decreases i,
    {
        let ghost s = v@.take(i as int);
        assert(s.drop_last() =~= v@.take(i - 1));
        assert(s.last() == v@[i - 1]);
        assert(file_name_of(s.drop_last()).push(s.last()) + v@.skip(i as int) =~= file_name_of(
            v@.take(i - 1),
        ) + v@.skip(i - 1));
        i = i - 1;
    }
    proof {
        let s = v@.take(i as int);
        if i > 0 {
            assert(s.last() == v@[i - 1]);
        }
        assert(file_name_of(s) =~= Seq::<char>::empty());
        assert(Seq::<char>::empty() + v@.skip(i as int) =~= v@.skip(i as int));
    }
    let r: String = text::string_between(&v, i, v.len());
    assert(r@ =~= v@.skip(i as int));
    r
}

proof fn lemma_file_name(path: Seq<char>)
    ensures
        !file_name_of(path).contains('/'),
    decreases path.len(),
{
    if path.len() > 0 && path.last() != '/' {
        let r = file_name_of(path.drop_last());
        lemma_file_name(path.drop_last());
        let n = r.push(path.last());
        assert forall|i: int| 0 <= i < n.len() implies n[i] != '/' by {
            if i < r.len() {
                assert(n[i] == r[i]);
            }
        }
    }
}

/// A file's name has no slash in it.
pub proof fn file_names_have_no_slash(path: Seq<char>)
    ensures
        !file_name_of(path).contains('/'),
{
    lemma_file_name(path);
}

// ---------------------------------------------------------------------------
// What happens to downloads
// ---------------------------------------------------------------------------

/// The place of the first download to this path.
pub open spec fn place_for(d: Seq<DownloadView>, path: Seq<char>) -> Option<int>
    decreases d.len(),
{
    if d.len() == 0 {
        None
    } else {
        match place_for(d.drop_last(), path) {
            Some(i) => Some(i),
            None => if d.last().path == path {
                Some(d.len() - 1)
            } else {
                None
            },
        }
    }
}

proof fn lemma_place_for(d: Seq<DownloadView>, path: Seq<char>)
    ensures
        place_for(d, path) matches Some(i) ==> 0 <= i < d.len() && d[i].path == path && forall|
            j: int,
        |
            0 <= j < i ==> (#[trigger] d[j]).path != path,
        place_for(d, path) is None ==> forall|j: int|
            0 <= j < d.len() ==> (#[trigger] d[j]).path != path,
    decreases d.len(),
{
    if d.len() > 0 {
        lemma_place_for(d.drop_last(), path);
        assert forall|j: int| 0 <= j < d.len() - 1 implies d.drop_last()[j] == d[j] by {}
    }
}

/// The downloads once one has ended: the first to its path is marked.
pub open spec fn ended(d: Seq<DownloadView>, path: Seq<char>, success: bool) -> Seq<DownloadView> {
    match place_for(d, path) {
        Some(i) => d.update(i, DownloadView { done: true, success, ..d[i] }),
        None => d,
    }
}

/// The message when a download starts.
pub open spec fn started_message(path: Seq<char>) -> Seq<char> {
    "Downloading "@ + file_name_of(path) + "…"@
}

/// The message when a download has ended.
pub open spec fn ended_message(path: Seq<char>, success: bool) -> Seq<char> {
    (if success {
        "Saved "@
    } else {
        "Download failed: "@
    }) + file_name_of(path)
}

/// The downloads of this run.
pub struct Downloads {
    pub list: Vec<Download>,
}

impl Downloads {
    /// None yet.
    pub fn new() -> (r: Downloads)
        ensures
            r.list@.len() == 0,
    {
        Downloads { list: Vec::new() }
    }

    /// A download has started. Returns what the user is told.
    pub fn notify_download_started(&mut self, url: String, path: String) -> (r: String)
        ensures
            download_views(final(self).list@) == download_views(old(self).list@).push(
                (DownloadView { url: url@, path: path@, done: false, success: false }),
            ),
            r@ == started_message(path@),
    {
        let ghost before = download_views(self.list@);
        let ghost x = DownloadView { url: url@, path: path@, done: false, success: false };
        let mut m: String = "Downloading ".to_owned();
        m.append(file_name(path.as_str()).as_str());
        m.append("…");
        self.list.push(Download { url, path, done: false, success: false });
        assert(download_views(self.list@) =~= before.push(x));
        m
    }

    /// A download has ended. Returns what the user is told.
    pub fn notify_download_completed(&mut self, path: &str, success: bool) -> (r: String)
        ensures
            download_views(final(self).list@) == ended(
                download_views(old(self).list@),
                path@,
                success,
            ),
            r@ == ended_message(path@, success),
    {
        let mut m: String = if success {
            "Saved ".to_owned()
        } else {
            "Download failed: ".to_owned()
        };
        m.append(file_name(path).as_str());
        let ghost all = download_views(self.list@);
        proof {
            lemma_place_for(all, path@);
        }
        let mut i: usize = 0;
        while i < self.list.len()
            invariant
                i <= self.list@.len(),
                all == download_views(self.list@),
                all == download_views(old(self).list@),
                forall|j: int| 0 <= j < i ==> (#[trigger] all[j]).path != path@,
                m@ == ended_message(path@, success),
            decreases self.list@.len() - i,
        {
            assert(all[i as int] == self.list@[i as int]@);
            if text::same(self.list[i].path.as_str(), path) {
                proof {
                    lemma_place_for(all, path@);
                }
                self.list[i].done = true;
                self.list[i].success = success;
                assert(download_views(self.list@) =~= all.update(
                    i as int,
                    DownloadView { done: true, success, ..all[i as int] },
                ));
                return m;
            }
            i = i + 1;
        }
        m
    }
}

// ---------------------------------------------------------------------------
// The page
// ---------------------------------------------------------------------------

/// The mark on a download: its class and its label.
pub open spec fn state_of(d: DownloadView) -> (Seq<char>, Seq<char>) {
    if !d.done {
        ("run"@, "downloading…"@)
    } else if d.success {
        ("ok"@, "done"@)
    } else {
        ("err"@, "failed"@)
    }
}

/// A row of the page of downloads.
pub open spec fn download_row(d: DownloadView) -> Seq<char> {
    let name = file_name_of(d.path);
    "<div class=\"row\"><span class=\"ico\">"@ + codec::html(unicode::icon_letter(name, true))
        + "</span><div class=\"meta\"><div class=\"name\">"@ + codec::html(name)
        + "</div><div class=\"path\">"@ + codec::html(d.path)
        + "</div></div><span class=\"state "@ + state_of(d).0 + "\">"@ + state_of(d).1
        + "</span></div>"@
}

/// The rows of the page of downloads: the latest first.
pub open spec fn download_rows(d: Seq<DownloadView>) -> Seq<char>
    decreases d.len(),
{
    if d.len() == 0 {
        Seq::empty()
    } else {
        download_row(d.last()) + download_rows(d.drop_last())
    }
}

/// What the page of downloads shows.
pub open spec fn download_list(d: Seq<DownloadView>) -> Seq<char> {
    if d.len() == 0 {
        "<p class=\"empty\">No downloads yet. Files you download are saved to ~/Downloads.</p>"@
    } else {
        pages::boxed(download_rows(d))
    }
}

fn write_row(d: &Download) -> (r: String)
    ensures
        r@ == download_row(d@),
{
    let name: String = file_name(d.path.as_str());
    let mut out: String = "<div class=\"row\"><span class=\"ico\">".to_owned();
    out.append(codec::html_escape(unicode::letter_for(name.as_str(), true).as_str()).as_str());
    out.append("</span><div class=\"meta\"><div class=\"name\">");
    out.append(codec::html_escape(name.as_str()).as_str());
    out.append("</div><div class=\"path\">");
    out.append(codec::html_escape(d.path.as_str()).as_str());
    out.append("</div></div><span class=\"state ");
    let mark: (&str, &str) = if !d.done {
        ("run", "downloading…")
    } else if d.success {
        ("ok", "done")
    } else {
        ("err", "failed")
    };
    out.append(mark.0);
    out.append("\">");
    out.append(mark.1);
    out.append("</span></div>");
    out
}

/// The page of downloads, from its template.
pub fn render_gator_downloads(template: &str, accent: &str, list: &Vec<Download>, p: &Palette) -> (r:
    String)
    ensures
        r@ == pages::list_page(template@, accent@, download_list(download_views(list@)), *p),
{
    let ghost all = download_views(list@);
    assert(all.len() == list@.len());
    if list.len() == 0 {
        return pages::fill_list_page(
            template,
            accent,
            "<p class=\"empty\">No downloads yet. Files you download are saved to ~/Downloads.</p>",
            p,
        );
    }
    let mut out: String = String::new();
    let mut n: usize = list.len();
    assert(all.take(n as int) =~= all);
    assert(out@ + download_rows(all) =~= download_rows(all));
    while n > 0
        invariant
            n <= list@.len(),
            all == download_views(list@),
            out@ + download_rows(all.take(n as int)) == download_rows(all),
        decreases n,
    {
        let ghost before = out@;
        let ghost rest = all.take(n as int);
        assert(rest.drop_last() =~= all.take(n - 1));
        assert(rest.last() == list@[n - 1]@);
        out.append(write_row(&list[n - 1]).as_str());
        assert(before + (download_row(rest.last()) + download_rows(all.take(n - 1))) =~= out@
            + download_rows(all.take(n - 1)));
        n = n - 1;
    }
    assert(out@ + Seq::<char>::empty() =~= out@);
    pages::fill_list_page(template, accent, pages::box_rows(out.as_str()).as_str(), p)
}

// ---------------------------------------------------------------------------
// Laws
// ---------------------------------------------------------------------------

/// A download that has ended is marked as it ended, and no other is: the first to its path.
pub proof fn an_ended_download_is_marked(d: Seq<DownloadView>, path: Seq<char>, success: bool, i: int)
    requires
        0 <= i < d.len(),
        d[i].path == path,
        forall|j: int| 0 <= j < i ==> (#[trigger] d[j]).path != path,
    ensures
        ended(d, path, success).len() == d.len(),
        ended(d, path, success)[i].done,
        ended(d, path, success)[i].success == success,
        ended(d, path, success)[i].url == d[i].url && ended(d, path, success)[i].path == d[i].path,
        forall|j: int|
            0 <= j < d.len() && j != i ==> ended(d, path, success)[j] == #[trigger] d[j],
{
    lemma_place_for(d, path);
}

/// The end of a download that is not listed changes nothing.
pub proof fn an_unlisted_download_changes_nothing(d: Seq<DownloadView>, path: Seq<char>, success: bool)
    requires
        forall|j: int| 0 <= j < d.len() ==> (#[trigger] d[j]).path != path,
    ensures
        ended(d, path, success) == d,
{
    lemma_place_for(d, path);
}

/// The user is told the file's name, and whether it was saved.
pub proof fn the_user_is_told_how_it_ended(path: Seq<char>)
    ensures
        ended_message(path, true) == "Saved "@ + file_name_of(path),
        ended_message(path, false) == "Download failed: "@ + file_name_of(path),
        started_message(path) == "Downloading "@ + file_name_of(path) + "…"@,
{
}

/// The name of a file is what follows the last slash of its path.
pub proof fn the_file_name_follows_the_last_slash(dir: Seq<char>, name: Seq<char>)
    requires
        !name.contains('/'),
    ensures
        file_name_of(dir + seq!['/'] + name) == name,
        file_name_of(name) == name,
    decreases name.len(),
{
    if name.len() == 0 {
        assert(dir + seq!['/'] + name =~= dir.push('/'));
        assert(file_name_of(name) =~= name);
        assert(file_name_of(dir + seq!['/'] + name) =~= name);
    } else {
        let n = name.drop_last();
        assert(!n.contains('/')) by {
            if n.contains('/') {
                let k = choose|k: int| 0 <= k < n.len() && n[k] == '/';
                assert(name[k] == '/');
            }
        }
        the_file_name_follows_the_last_slash(dir, n);
        let p = dir + seq!['/'] + name;
        assert(p.drop_last() =~= dir + seq!['/'] + n);
        assert(p.last() == name.last());
        assert(name.contains(name.last()));
        assert(n.push(name.last()) =~= name);
    }
}

/// The state that is shown is the one that the download is in, and the latest download comes first.
pub proof fn downloads_show_their_state(d: Seq<DownloadView>, x: DownloadView)
    ensures
        !x.done ==> state_of(x) == ("run"@, "downloading…"@),
        x.done && x.success ==> state_of(x) == ("ok"@, "done"@),
        x.done && !x.success ==> state_of(x) == ("err"@, "failed"@),
        download_rows(d.push(x)) == download_row(x) + download_rows(d),
{
    assert(d.push(x).drop_last() =~= d);
}

} // verus!

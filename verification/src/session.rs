//! The saved session: the addresses of the open tabs, one to a line, those of the right pane
//! after a marker line.

use vstd::prelude::*;
use vstd::string::*;

use crate::address;
use crate::codec;
use crate::text;

verus! {

/// The line that separates the left pane's tabs from the right pane's.
pub const PANE_MARKER: &'static str = "#PANE1";

/// A session as it is read: the addresses of the left pane, those of the right pane, and whether
/// the marker has been met.
pub struct SessionView {
    pub left: Seq<Seq<char>>,
    pub right: Seq<Seq<char>>,
    pub marked: bool,
}

/// A session with one more line read: blank lines and lines that are no address are passed over.
pub open spec fn with_line(s: SessionView, line: Seq<char>) -> SessionView {
    let t = text::trimmed(line);
    if t.len() == 0 {
        s
    } else if t == PANE_MARKER@ {
        SessionView { left: s.left, right: s.right, marked: true }
    } else {
        match address::parsed_url(t) {
            None => s,
            Some(u) => if s.marked {
                SessionView { left: s.left, right: s.right.push(u.text), marked: true }
            } else {
                SessionView { left: s.left.push(u.text), right: s.right, marked: false }
            },
        }
    }
}

/// The session that some lines hold.
pub open spec fn read_lines(lines: Seq<Seq<char>>) -> SessionView
    decreases lines.len(),
{
    if lines.len() == 0 {
        SessionView { left: Seq::empty(), right: Seq::empty(), marked: false }
    } else {
        with_line(read_lines(lines.drop_last()), lines.last())
    }
}

/// The session that a text holds.
pub open spec fn read_session(s: Seq<char>) -> SessionView {
    read_lines(text::lines_of(s))
}

/// Reads a session: the addresses of the left pane's tabs and those of the right pane's.
pub fn parse_session(s: &str) -> (r: (Vec<String>, Vec<String>))
    ensures
        text::texts(r.0@) == read_session(s@).left,
        text::texts(r.1@) == read_session(s@).right,
{
    let lines: Vec<String> = text::lines(s);
    let ghost all = text::texts(lines@);
    let mut left: Vec<String> = Vec::new();
    let mut right: Vec<String> = Vec::new();
    let mut marked: bool = false;
    let mut i: usize = 0;
    assert(text::texts(left@) =~= Seq::<Seq<char>>::empty());
    assert(text::texts(right@) =~= Seq::<Seq<char>>::empty());
    while i < lines.len()
        invariant
            i <= lines@.len(),
            all == text::texts(lines@),
            text::texts(left@) == read_lines(all.take(i as int)).left,
            text::texts(right@) == read_lines(all.take(i as int)).right,
            marked == read_lines(all.take(i as int)).marked,
        decreases lines@.len() - i,
    {
        assert(all.take(i + 1).drop_last() =~= all.take(i as int));
        assert(all.take(i + 1).last() == lines@[i as int]@);
        let ghost l = text::texts(left@);
        let ghost r = text::texts(right@);
        let line: String = text::trim(lines[i].as_str());
        if line.as_str().is_empty() {
        } else if text::same(line.as_str(), PANE_MARKER) {
            marked = true;
        } else {
            match address::parse_url(line.as_str()) {
                None => {},
                Some(u) => {
                    if marked {
                        right.push(u.text);
                        assert(text::texts(right@) =~= r.push(u.text@));
                    } else {
                        left.push(u.text);
                        assert(text::texts(left@) =~= l.push(u.text@));
                    }
                },
            }
        }
        i = i + 1;
    }
    assert(all.take(lines@.len() as int) =~= all);
    (left, right)
}

/// The members of a list that are not empty.
pub open spec fn nonempty(urls: Seq<Seq<char>>) -> Seq<Seq<char>>
    decreases urls.len(),
{
    if urls.len() == 0 {
        Seq::empty()
    } else if urls.last().len() == 0 {
        nonempty(urls.drop_last())
    } else {
        nonempty(urls.drop_last()).push(urls.last())
    }
}

/// Addresses written one to a line; a tab that has no address yet is left out.
pub open spec fn address_lines(urls: Seq<Seq<char>>) -> Seq<char>
    decreases urls.len(),
{
    if urls.len() == 0 {
        Seq::empty()
    } else if urls.last().len() == 0 {
        address_lines(urls.drop_last())
    } else {
        address_lines(urls.drop_last()) + codec::cell(urls.last()) + seq!['\n']
    }
}

/// A session as it is written: the left pane's addresses and, where the window is split and the
/// right pane has any, the marker and the right pane's.
pub open spec fn session_text(
    left: Seq<Seq<char>>,
    right: Seq<Seq<char>>,
    split: bool,
) -> Seq<char> {
    if split && nonempty(right).len() > 0 {
        address_lines(left) + PANE_MARKER@ + seq!['\n'] + address_lines(right)
    } else {
        address_lines(left)
    }
}

fn write_addresses(urls: &Vec<String>) -> (r: (String, bool))
    ensures
        r.0@ == address_lines(text::texts(urls@)),
        r.1 == (nonempty(text::texts(urls@)).len() > 0),
{
    let ghost all = text::texts(urls@);
    let mut out: String = String::new();
    let mut any: bool = false;
    let mut i: usize = 0;
    while i < urls.len()
        invariant
            i <= urls@.len(),
            all == text::texts(urls@),
            out@ == address_lines(all.take(i as int)),
            any == (nonempty(all.take(i as int)).len() > 0),
        decreases urls@.len() - i,
    {
        assert(all.take(i + 1).drop_last() =~= all.take(i as int));
        assert(all.take(i + 1).last() == urls@[i as int]@);
        if !urls[i].as_str().is_empty() {
            let ghost before = out@;
            out.append(codec::tsv_field(urls[i].as_str()).as_str());
            out.push('\n');
            assert(out@ =~= before + codec::cell(urls@[i as int]@) + seq!['\n']);
            any = true;
        }
        i = i + 1;
    }
    assert(all.take(urls@.len() as int) =~= all);
    (out, any)
}

/// Writes a session.
pub fn write_session(left: &Vec<String>, right: &Vec<String>, split: bool) -> (r: String)
    ensures
        r@ == session_text(text::texts(left@), text::texts(right@), split),
{
    let mut out: String = write_addresses(left).0;
    if split {
        let tail: (String, bool) = write_addresses(right);
        if tail.1 {
            let ghost before = out@;
            out.append(PANE_MARKER);
            out.push('\n');
            out.append(tail.0.as_str());
            assert(out@ =~= before + PANE_MARKER@ + seq!['\n'] + tail.0@);
        }
    }
    out
}

/// An address as a tab reports it: in its normal form, with no white space at its ends and no
/// separators in it.
pub open spec fn is_plain_address(u: Seq<char>) -> bool {
    &&& !u.contains('\t')
    &&& !u.contains('\n')
    &&& text::trimmed(u) == u
    &&& u != PANE_MARKER@
    &&& address::parsed_url(u) matches Some(p) && p.text == u
}

/// Every address of the list is plain, or empty.
pub open spec fn all_plain(urls: Seq<Seq<char>>) -> bool {
    forall|i: int| 0 <= i < urls.len() ==> (#[trigger] urls[i]).len() == 0 || is_plain_address(urls[i])
}

proof fn lemma_nonempty_plain(urls: Seq<Seq<char>>)
    requires
        all_plain(urls),
    ensures
        forall|i: int|
            0 <= i < nonempty(urls).len() ==> is_plain_address(#[trigger] nonempty(urls)[i])
                && nonempty(urls)[i].len() > 0,
    decreases urls.len(),
{
    if urls.len() > 0 {
        let rest = urls.drop_last();
        assert forall|i: int| 0 <= i < rest.len() implies (#[trigger] rest[i]).len() == 0
            || is_plain_address(rest[i]) by {
            assert(rest[i] == urls[i]);
        }
        lemma_nonempty_plain(rest);
        assert(is_plain_address(urls[urls.len() - 1]) || urls.last().len() == 0);
        assert forall|i: int| 0 <= i < nonempty(urls).len() implies is_plain_address(
            #[trigger] nonempty(urls)[i],
        ) && nonempty(urls)[i].len() > 0 by {
            if i < nonempty(rest).len() {
                assert(nonempty(urls)[i] == nonempty(rest)[i]);
            }
        }
    }
}

/// The written lines, each with its newline.
spec fn ended(lines: Seq<Seq<char>>) -> Seq<Seq<char>> {
    Seq::new(lines.len(), |i: int| lines[i] + seq!['\n'])
}

proof fn lemma_address_lines(urls: Seq<Seq<char>>)
    requires
        all_plain(urls),
    ensures
        address_lines(urls) == text::strung(ended(nonempty(urls))),
    decreases urls.len(),
{
    if urls.len() > 0 {
        let rest = urls.drop_last();
        assert forall|i: int| 0 <= i < rest.len() implies (#[trigger] rest[i]).len() == 0
            || is_plain_address(rest[i]) by {
            assert(rest[i] == urls[i]);
        }
        lemma_address_lines(rest);
        let last = urls.last();
        if last.len() > 0 {
            assert(is_plain_address(urls[urls.len() - 1]));
            codec::cell_keeps_plain_text(last);
            assert(ended(nonempty(urls)) =~= ended(nonempty(rest)).push(last + seq!['\n']));
            text::lemma_strung_push(ended(nonempty(rest)), last + seq!['\n']);
            assert(address_lines(rest) + last + seq!['\n'] =~= address_lines(rest) + (last + seq![
                '\n',
            ]));
        }
    }
}

proof fn lemma_read_plain(lines: Seq<Seq<char>>, start: Seq<Seq<char>>)
    requires
        forall|i: int|
            0 <= i < lines.len() ==> is_plain_address(#[trigger] lines[i]) && lines[i].len() > 0,
    ensures
        ({
            let s = read_lines(start);
            let r = read_lines(start + lines);
            &&& r.marked == s.marked
            &&& s.marked ==> r.left == s.left && r.right == s.right + lines
            &&& !s.marked ==> r.left == s.left + lines && r.right == s.right
        }),
    decreases lines.len(),
{
    if lines.len() == 0 {
        assert(start + lines =~= start);
        assert(read_lines(start).left + lines =~= read_lines(start).left);
        assert(read_lines(start).right + lines =~= read_lines(start).right);
    } else {
        let rest = lines.drop_last();
        assert forall|i: int| 0 <= i < rest.len() implies is_plain_address(#[trigger] rest[i])
            && rest[i].len() > 0 by {
            assert(rest[i] == lines[i]);
        }
        lemma_read_plain(rest, start);
        assert((start + lines).drop_last() =~= start + rest);
        assert((start + lines).last() == lines.last());
        assert(is_plain_address(lines[lines.len() - 1]));
        let s = read_lines(start);
        assert((s.left + rest).push(lines.last()) =~= s.left + lines);
        assert((s.right + rest).push(lines.last()) =~= s.right + lines);
    }
}

/// What is written is read back: the tabs of each pane that have an address, in order. Where the
/// window is not split, the right pane comes back empty.
pub proof fn session_round_trip(left: Seq<Seq<char>>, right: Seq<Seq<char>>, split: bool)
    ensures
        all_plain(left) && all_plain(right) ==> ({
            let r = read_session(session_text(left, right, split));
            &&& r.left == nonempty(left)
            &&& r.right == if split {
                nonempty(right)
            } else {
                Seq::empty()
            }
        }),
{
    if all_plain(left) && all_plain(right) {
        let l = nonempty(left);
        let r = nonempty(right);
        lemma_nonempty_plain(left);
        lemma_nonempty_plain(right);
        lemma_address_lines(left);
        lemma_address_lines(right);
        let none = Seq::<Seq<char>>::empty();
        if split && r.len() > 0 {
            let lines = l + seq![PANE_MARKER@] + r;
            reveal_strlit("#PANE1");
            let m = PANE_MARKER@;
            assert(ended(lines) =~= ended(l) + seq![m + seq!['\n']] + ended(r));
            text::lemma_strung_add(ended(l) + seq![m + seq!['\n']], ended(r));
            assert(ended(l) + seq![m + seq!['\n']] =~= ended(l).push(m + seq!['\n']));
            text::lemma_strung_push(ended(l), m + seq!['\n']);
            assert(session_text(left, right, split) =~= text::strung(ended(lines)));
            lemma_lines_back(lines);
            lemma_read_plain(l, none);
            assert(none + l =~= l);
            let marked = l + seq![m];
            assert(marked.drop_last() =~= l);
            text::lemma_trimmed_same(m);
            assert(read_lines(marked).marked);
            assert(read_lines(marked).left =~= l);
            lemma_read_plain(r, marked);
            assert(marked + r =~= lines);
            assert(read_lines(marked).right + r =~= r);
        } else {
            lemma_lines_back(l);
            lemma_read_plain(l, none);
            assert(none + l =~= l);
            if split {
                assert(r =~= none);
            }
        }
    }
}

proof fn lemma_lines_back(lines: Seq<Seq<char>>)
    requires
        forall|i: int|
            0 <= i < lines.len() ==> (is_plain_address(#[trigger] lines[i]) || lines[i]
                == PANE_MARKER@) && lines[i].len() > 0,
    ensures
        text::lines_of(text::strung(ended(lines))) == lines,
{
    reveal_strlit("#PANE1");
    assert forall|i: int| 0 <= i < lines.len() implies !(#[trigger] lines[i]).contains('\n')
        && text::without_cr(lines[i]) == lines[i] by {
        let l = lines[i];
        assert(is_plain_address(l) || l == PANE_MARKER@);
        if is_plain_address(l) {
            text::lemma_trimmed_ends(l);
        }
    }
    text::lemma_lines_of_strung(lines);
}

// ---------------------------------------------------------------------------
// Laws
// ---------------------------------------------------------------------------

/// A session keeps every tab that has an address, in order, and no other.
pub proof fn tabs_with_an_address_are_kept(urls: Seq<Seq<char>>)
    ensures
        nonempty(urls) == urls.filter(|u: Seq<char>| u.len() > 0),
    decreases urls.len(),
{
    reveal(Seq::filter);
    if urls.len() > 0 {
        tabs_with_an_address_are_kept(urls.drop_last());
    }
}

/// A line of a session that is an address is a tab of the pane it stands under: the left one before
/// the marker, and the right one behind it. What is no address is passed over.
pub proof fn session_lines_become_tabs(s: SessionView, line: Seq<char>)
    requires
        text::trimmed(line) != "#PANE1"@,
    ensures
        text::trimmed(line).len() > 0 && !s.marked ==> (address::parsed_url(
            text::trimmed(line),
        ) matches Some(u) ==> with_line(s, line).left == s.left.push(u.text) && with_line(
            s,
            line,
        ).right == s.right),
        text::trimmed(line).len() > 0 && s.marked ==> (address::parsed_url(
            text::trimmed(line),
        ) matches Some(u) ==> with_line(s, line).right == s.right.push(u.text) && with_line(
            s,
            line,
        ).left == s.left),
        text::trimmed(line).len() == 0 || address::parsed_url(text::trimmed(line)) is None
            ==> with_line(s, line) == s,
        with_line(s, line).marked == s.marked,
{
}

/// The marker line ends the left pane's tabs.
pub proof fn the_marker_starts_the_right_pane(s: SessionView, line: Seq<char>)
    requires
        text::trimmed(line) == "#PANE1"@,
    ensures
        with_line(s, line) == (SessionView { left: s.left, right: s.right, marked: true }),
{
    reveal_strlit("#PANE1");
}

} // verus!

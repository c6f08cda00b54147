//! Text: the character-level operations that everything else is built from.
//!
//! A string is modelled by the sequence of its characters. The spec functions say what an
//! operation yields on such a sequence; the executable functions of similar name compute it.

use vstd::prelude::*;
use vstd::string::*;
use vstd::utf8::*;

verus! {

/// Appending one character to a string leaves what was there and puts the character last.
pub assume_specification[ String::push ](s: &mut String, ch: char)
    ensures
        final(s)@ == old(s)@.push(ch),
;

// ---------------------------------------------------------------------------
// Specifications
// ---------------------------------------------------------------------------

/// The texts held by a list of strings.
pub open spec fn texts(v: Seq<String>) -> Seq<Seq<char>> {
    Seq::new(v.len(), |i: int| v[i]@)
}

/// A character of the Unicode class `White_Space`.
pub open spec fn is_space(c: char) -> bool {
    let u = c as u32;
    ||| 9 <= u <= 13
    ||| u == 0x20
    ||| u == 0x85
    ||| u == 0xA0
    ||| u == 0x1680
    ||| 0x2000 <= u <= 0x200A
    ||| u == 0x2028
    ||| u == 0x2029
    ||| u == 0x202F
    ||| u == 0x205F
    ||| u == 0x3000
}

/// `s` without its leading white space.
pub open spec fn trimmed_start(s: Seq<char>) -> Seq<char>
    decreases s.len(),
{
    if s.len() > 0 && is_space(s[0]) {
        trimmed_start(s.skip(1))
    } else {
        s
    }
}

/// `s` without its trailing white space.
pub open spec fn trimmed_end(s: Seq<char>) -> Seq<char>
    decreases s.len(),
{
    if s.len() > 0 && is_space(s.last()) {
        trimmed_end(s.drop_last())
    } else {
        s
    }
}

/// `s` without white space at either end.
pub open spec fn trimmed(s: Seq<char>) -> Seq<char> {
    trimmed_end(trimmed_start(s))
}

/// `s` without any leading copies of `p`.
pub open spec fn without_leading(s: Seq<char>, p: Seq<char>) -> Seq<char>
    decreases s.len(),
{
    if p.len() > 0 && p.is_prefix_of(s) {
        without_leading(s.skip(p.len() as int), p)
    } else {
        s
    }
}

/// An ASCII capital becomes the small letter; every other character stays.
pub open spec fn lower_char(c: char) -> char {
    if 'A' <= c <= 'Z' {
        ((c as u32 + 32) as u32) as char
    } else {
        c
    }
}

/// `s` with its ASCII capitals made small.
pub open spec fn lowered(s: Seq<char>) -> Seq<char> {
    Seq::new(s.len(), |i: int| lower_char(s[i]))
}

/// `p` stands in `s` at position `i`.
pub open spec fn occurs_at(s: Seq<char>, p: Seq<char>, i: int) -> bool {
    &&& 0 <= i
    &&& i + p.len() <= s.len()
    &&& s.subrange(i, i + p.len()) == p
}

/// `p` stands somewhere in `s`.
pub open spec fn has(s: Seq<char>, p: Seq<char>) -> bool {
    exists|i: int| occurs_at(s, p, i)
}

/// How much of `s` comes before the first occurrence of `p`: all of it where there is none.
pub open spec fn upto_text(s: Seq<char>, p: Seq<char>) -> nat
    decreases s.len(),
{
    if s.len() == 0 || p.is_prefix_of(s) {
        0
    } else {
        1 + upto_text(s.skip(1), p)
    }
}

/// `s` with each occurrence of `p`, taken from the left without overlaps, replaced by `r`.
pub open spec fn replaced(s: Seq<char>, p: Seq<char>, r: Seq<char>) -> Seq<char>
    decreases s.len(),
{
    if p.len() == 0 || s.len() == 0 {
        s
    } else if p.is_prefix_of(s) {
        r + replaced(s.skip(p.len() as int), p, r)
    } else {
        seq![s[0]] + replaced(s.skip(1), p, r)
    }
}

/// What `f` makes of each character of `s`, one after the other.
pub open spec fn spelled(s: Seq<char>, f: spec_fn(char) -> Seq<char>) -> Seq<char>
    decreases s.len(),
{
    if s.len() == 0 {
        Seq::empty()
    } else {
        spelled(s.drop_last(), f) + f(s.last())
    }
}

/// The position of the first `c` in `s`, or the length of `s` if there is none.
pub open spec fn upto(s: Seq<char>, c: char) -> nat
    decreases s.len(),
{
    if s.len() == 0 || s[0] == c {
        0
    } else {
        1 + upto(s.skip(1), c)
    }
}

/// The pieces of `s` between the occurrences of `c`, at most `n` of them: the last piece holds
/// the rest unsplit.
pub open spec fn pieces(s: Seq<char>, c: char, n: nat) -> Seq<Seq<char>>
    decreases n,
{
    if n == 0 {
        Seq::empty()
    } else if n == 1 || upto(s, c) == s.len() {
        seq![s]
    } else {
        seq![s.take(upto(s, c) as int)] + pieces(s.skip(upto(s, c) as int + 1), c, (n - 1) as nat)
    }
}

/// A line without the carriage return that may end it.
pub open spec fn without_cr(s: Seq<char>) -> Seq<char> {
    if s.len() > 0 && s.last() == '\r' {
        s.drop_last()
    } else {
        s
    }
}

/// The lines of `s`: each ends at a newline, with the carriage return before it taken off; what
/// follows the last newline is a line if it is not empty.
pub open spec fn lines_of(s: Seq<char>) -> Seq<Seq<char>>
    decreases s.len(),
{
    if s.len() == 0 {
        Seq::empty()
    } else if upto(s, '\n') == s.len() {
        seq![s]
    } else {
        proof {
            lemma_upto(s, '\n');
        }
        seq![without_cr(s.take(upto(s, '\n') as int))] + lines_of(s.skip(upto(s, '\n') as int + 1))
    }
}

/// The members of `list` with `sep` between each two.
pub open spec fn joined(list: Seq<Seq<char>>, sep: Seq<char>) -> Seq<char>
    decreases list.len(),
{
    if list.len() == 0 {
        Seq::empty()
    } else if list.len() == 1 {
        list[0]
    } else {
        joined(list.drop_last(), sep) + sep + list.last()
    }
}

/// The members of `list`, one after the other.
pub open spec fn strung(list: Seq<Seq<char>>) -> Seq<char>
    decreases list.len(),
{
    if list.len() == 0 {
        Seq::empty()
    } else {
        strung(list.drop_last()) + list.last()
    }
}

// ---------------------------------------------------------------------------
// Facts about the specifications
// ---------------------------------------------------------------------------

/// `upto` gives a position within `s` or its end, `c` stands there unless it is the end, and
/// nowhere before.
pub proof fn lemma_upto(s: Seq<char>, c: char)
    ensures
        upto(s, c) <= s.len(),
        upto(s, c) < s.len() ==> s[upto(s, c) as int] == c,
        forall|j: int| 0 <= j < upto(s, c) ==> s[j] != c,
    decreases s.len(),
{
    if s.len() > 0 && s[0] != c {
        lemma_upto(s.skip(1), c);
        assert forall|j: int| 0 <= j < upto(s, c) implies s[j] != c by {
            if j > 0 {
                assert(s[j] == s.skip(1)[j - 1]);
            }
        }
    }
}

/// A position that holds the first `c` is what `upto` gives.
pub proof fn lemma_upto_is(s: Seq<char>, c: char, i: int)
    requires
        0 <= i <= s.len(),
        i < s.len() ==> s[i] == c,
        forall|j: int| 0 <= j < i ==> s[j] != c,
    ensures
        upto(s, c) == i,
{
    lemma_upto(s, c);
    let k = upto(s, c) as int;
    if k < i {
        assert(s[k] != c);
    }
    if i < k {
        assert(s[i] != c);
    }
}

pub proof fn lemma_spelled_push(s: Seq<char>, c: char, f: spec_fn(char) -> Seq<char>)
    ensures
        spelled(s.push(c), f) == spelled(s, f) + f(c),
{
    assert(s.push(c).drop_last() =~= s);
}

/// Spelling a concatenation spells its parts.
pub proof fn lemma_spelled_add(a: Seq<char>, b: Seq<char>, f: spec_fn(char) -> Seq<char>)
    ensures
        spelled(a + b, f) == spelled(a, f) + spelled(b, f),
    decreases b.len(),
{
    if b.len() == 0 {
        assert(a + b =~= a);
        assert(spelled(a, f) + spelled(b, f) =~= spelled(a, f));
    } else {
        assert((a + b).drop_last() =~= a + b.drop_last());
        lemma_spelled_add(a, b.drop_last(), f);
        assert((a + b).last() == b.last());
        assert(spelled(a, f) + spelled(b, f) =~= spelled(a, f) + spelled(b.drop_last(), f) + f(
            b.last(),
        ));
    }
}

/// Where every character is spelled within a set of characters, the whole is.
pub proof fn lemma_spelled_all(
    s: Seq<char>,
    f: spec_fn(char) -> Seq<char>,
    ok: spec_fn(char) -> bool,
)
    requires
        forall|i: int, j: int|
            0 <= i < s.len() && 0 <= j < f(s[i]).len() ==> ok(#[trigger] f(s[i])[j]),
    ensures
        forall|j: int| 0 <= j < spelled(s, f).len() ==> ok(#[trigger] spelled(s, f)[j]),
    decreases s.len(),
{
    if s.len() > 0 {
        let t = s.drop_last();
        assert forall|i: int, j: int| 0 <= i < t.len() && 0 <= j < f(t[i]).len() implies ok(
            #[trigger] f(t[i])[j],
        ) by {
            assert(t[i] == s[i]);
        }
        lemma_spelled_all(t, f, ok);
        assert forall|j: int| 0 <= j < spelled(s, f).len() implies ok(#[trigger] spelled(s, f)[j]) by {
            let n = spelled(t, f).len() as int;
            if j < n {
                assert(spelled(s, f)[j] == spelled(t, f)[j]);
            } else {
                assert(spelled(s, f)[j] == f(s[s.len() - 1])[j - n]);
            }
        }
    }
}

pub proof fn lemma_strung_push(list: Seq<Seq<char>>, x: Seq<char>)
    ensures
        strung(list.push(x)) == strung(list) + x,
{
    assert(list.push(x).drop_last() =~= list);
}

/// Stringing a concatenation strings its parts.
pub proof fn lemma_strung_add(a: Seq<Seq<char>>, b: Seq<Seq<char>>)
    ensures
        strung(a + b) == strung(a) + strung(b),
    decreases b.len(),
{
    if b.len() == 0 {
        assert(a + b =~= a);
        assert(strung(a) + strung(b) =~= strung(a));
    } else {
        assert((a + b).drop_last() =~= a + b.drop_last());
        assert((a + b).last() == b.last());
        lemma_strung_add(a, b.drop_last());
        assert(strung(a) + strung(b) =~= strung(a) + strung(b.drop_last()) + b.last());
    }
}

/// The first line of a text whose first newline ends `line`.
pub proof fn lemma_first_line(line: Seq<char>, rest: Seq<char>)
    requires
        !line.contains('\n'),
    ensures
        lines_of(line + seq!['\n'] + rest) == seq![without_cr(line)] + lines_of(rest),
{
    let s = line + seq!['\n'] + rest;
    assert forall|j: int| 0 <= j < line.len() implies s[j] != '\n' by {
        assert(s[j] == line[j]);
    }
    assert(s[line.len() as int] == '\n');
    lemma_upto_is(s, '\n', line.len() as int);
    assert(s.take(line.len() as int) =~= line);
    assert(s.skip(line.len() as int + 1) =~= rest);
}

/// The lines of a text made of lines that each end in a newline are those lines.
pub proof fn lemma_lines_of_strung(lines: Seq<Seq<char>>)
    requires
        forall|i: int| 0 <= i < lines.len() ==> !(#[trigger] lines[i]).contains('\n'),
        forall|i: int| 0 <= i < lines.len() ==> without_cr(#[trigger] lines[i]) == lines[i],
    ensures
        lines_of(strung(Seq::new(lines.len(), |i: int| lines[i] + seq!['\n']))) == lines,
    decreases lines.len(),
{
    let ended = Seq::new(lines.len(), |i: int| lines[i] + seq!['\n']);
    if lines.len() == 0 {
        assert(lines_of(strung(ended)) =~= lines);
    } else {
        let tail = lines.skip(1);
        let ended_tail = Seq::new(tail.len(), |i: int| tail[i] + seq!['\n']);
        assert forall|i: int| 0 <= i < tail.len() implies !(#[trigger] tail[i]).contains('\n')
            && without_cr(tail[i]) == tail[i] by {
            assert(tail[i] == lines[i + 1]);
        }
        lemma_lines_of_strung(tail);
        assert(ended =~= seq![lines[0] + seq!['\n']] + ended_tail);
        lemma_strung_add(seq![lines[0] + seq!['\n']], ended_tail);
        assert(seq![lines[0] + seq!['\n']].drop_last() =~= Seq::<Seq<char>>::empty());
        reveal_with_fuel(strung, 2);
        assert(strung(seq![lines[0] + seq!['\n']]) =~= lines[0] + seq!['\n']);
        lemma_first_line(lines[0], strung(ended_tail));
        assert(seq![lines[0]] + tail =~= lines);
    }
}

/// The pieces of a text that starts with a piece free of `c`.
pub proof fn lemma_first_piece(piece: Seq<char>, rest: Seq<char>, c: char, n: nat)
    requires
        !piece.contains(c),
        n >= 2,
    ensures
        pieces(piece + seq![c] + rest, c, n) == seq![piece] + pieces(rest, c, (n - 1) as nat),
{
    let s = piece + seq![c] + rest;
    assert forall|j: int| 0 <= j < piece.len() implies s[j] != c by {
        assert(s[j] == piece[j]);
    }
    assert(s[piece.len() as int] == c);
    lemma_upto_is(s, c, piece.len() as int);
    assert(s.take(piece.len() as int) =~= piece);
    assert(s.skip(piece.len() as int + 1) =~= rest);
}

/// A text free of `c` is its own only piece.
pub proof fn lemma_whole_piece(s: Seq<char>, c: char, n: nat)
    requires
        !s.contains(c),
        n >= 1,
    ensures
        pieces(s, c, n) == seq![s],
{
    assert forall|j: int| 0 <= j < s.len() implies s[j] != c by {}
    lemma_upto_is(s, c, s.len() as int);
}

/// A text that neither starts nor ends with white space is its own trimmed form.
pub proof fn lemma_trimmed_same(s: Seq<char>)
    requires
        s.len() > 0 ==> !is_space(s[0]) && !is_space(s.last()),
    ensures
        trimmed(s) == s,
        trimmed_start(s) == s,
        trimmed_end(s) == s,
{
}

/// What trimming leaves neither starts nor ends with white space, and is a stretch of `s`.
pub proof fn lemma_trimmed_ends(s: Seq<char>)
    ensures
        trimmed(s).len() > 0 ==> !is_space(trimmed(s)[0]) && !is_space(trimmed(s).last()),
        exists|i: int, j: int|
            0 <= i <= j <= s.len() && trimmed(s) == #[trigger] s.subrange(i, j),
{
    lemma_trimmed_start_form(s);
    lemma_trimmed_end_form(trimmed_start(s));
    let i = choose|i: int| 0 <= i <= s.len() && trimmed_start(s) == #[trigger] s.skip(i);
    let t = trimmed_start(s);
    let k = choose|k: int| 0 <= k <= t.len() && trimmed_end(t) == #[trigger] t.take(k);
    assert(trimmed(s) =~= s.subrange(i, i + k));
}

pub proof fn lemma_trimmed_start_form(s: Seq<char>)
    ensures
        trimmed_start(s).len() > 0 ==> !is_space(trimmed_start(s)[0]),
        exists|i: int| 0 <= i <= s.len() && trimmed_start(s) == #[trigger] s.skip(i),
    decreases s.len(),
{
    if s.len() > 0 && is_space(s[0]) {
        lemma_trimmed_start_form(s.skip(1));
        let i = choose|i: int|
            0 <= i <= s.skip(1).len() && trimmed_start(s.skip(1)) == #[trigger] s.skip(1).skip(i);
        assert(s.skip(1).skip(i) =~= s.skip(i + 1));
    } else {
        assert(s.skip(0) =~= s);
    }
}

pub proof fn lemma_trimmed_end_form(s: Seq<char>)
    ensures
        trimmed_end(s).len() > 0 ==> !is_space(trimmed_end(s).last()),
        exists|k: int| 0 <= k <= s.len() && trimmed_end(s) == #[trigger] s.take(k),
    decreases s.len(),
{
    if s.len() > 0 && is_space(s.last()) {
        lemma_trimmed_end_form(s.drop_last());
        let k = choose|k: int|
            0 <= k <= s.drop_last().len() && trimmed_end(s.drop_last())
                == #[trigger] s.drop_last().take(k);
        assert(s.drop_last().take(k) =~= s.take(k));
    } else {
        assert(s.take(s.len() as int) =~= s);
    }
}

// ---------------------------------------------------------------------------
// Executable operations
// ---------------------------------------------------------------------------

/// Do the two strings hold the same characters?
pub fn same(a: &str, b: &str) -> (r: bool)
    ensures
        r == (a@ == b@),
{
    let x: &[u8] = a.as_bytes();
    let y: &[u8] = b.as_bytes();
    proof {
        encode_utf8_decode_utf8(a@);
        encode_utf8_decode_utf8(b@);
    }
    if x.len() != y.len() {
        return false;
    }
    let mut i: usize = 0;
    while i < x.len()
        invariant
            x@.len() == y@.len(),
            i <= x@.len(),
            forall|j: int| 0 <= j < i ==> x@[j] == y@[j],
            x@ == a.spec_bytes(),
            y@ == b.spec_bytes(),
        decreases x@.len() - i,
    {
        if x[i] != y[i] {
            return false;
        }
        i = i + 1;
    }
    assert(x@ == y@);
    true
}

/// The characters of a string.
pub fn chars_of(s: &str) -> (r: Vec<char>)
    ensures
        r@ == s@,
{
    let mut out: Vec<char> = Vec::new();
    for c in it: s.chars()
        invariant
            out@ == it.seq().take(it.index() as int),
            it.seq() == s@,
    {
        out.push(c);
    }
    out
}

/// The string that holds the characters from `from` up to `to`.
pub fn string_between(v: &Vec<char>, from: usize, to: usize) -> (r: String)
    requires
        from <= to <= v@.len(),
    ensures
        r@ == v@.subrange(from as int, to as int),
{
    let mut out: String = String::new();
    let mut i: usize = from;
    while i < to
        invariant
            from <= i <= to <= v@.len(),
            out@ == v@.subrange(from as int, i as int),
        decreases to - i,
    {
        out.push(v[i]);
        assert(out@ =~= v@.subrange(from as int, i + 1));
        i = i + 1;
    }
    out
}

/// The string that holds these characters.
pub fn string_of(v: &Vec<char>) -> (r: String)
    ensures
        r@ == v@,
{
    let r: String = string_between(v, 0, v.len());
    assert(v@.subrange(0, v@.len() as int) =~= v@);
    r
}

/// A copy of a list of strings.
pub fn copy_strings(v: &Vec<String>) -> (r: Vec<String>)
    ensures
        texts(r@) == texts(v@),
        r@.len() == v@.len(),
{
    let mut out: Vec<String> = Vec::new();
    let mut i: usize = 0;
    while i < v.len()
        invariant
            i <= v@.len(),
            out@.len() == i,
            forall|j: int| 0 <= j < i ==> out@[j]@ == v@[j]@,
        decreases v@.len() - i,
    {
        out.push(v[i].clone());
        i = i + 1;
    }
    assert(texts(out@) =~= texts(v@));
    out
}

/// Is `s` one of the strings of `v`?
pub fn is_one_of(s: &str, v: &Vec<String>) -> (r: bool)
    ensures
        r == texts(v@).contains(s@),
{
    let mut i: usize = 0;
    while i < v.len()
        invariant
            i <= v@.len(),
            forall|j: int| 0 <= j < i ==> v@[j]@ != s@,
        decreases v@.len() - i,
    {
        if same(v[i].as_str(), s) {
            assert(texts(v@)[i as int] == s@);
            return true;
        }
        i = i + 1;
    }
    false
}

/// Is `c` white space?
pub fn space(c: char) -> (r: bool)
    ensures
        r == is_space(c),
{
    let u: u32 = c as u32;
    (9 <= u && u <= 13) || u == 0x20 || u == 0x85 || u == 0xA0 || u == 0x1680 || (0x2000 <= u && u
        <= 0x200A) || u == 0x2028 || u == 0x2029 || u == 0x202F || u == 0x205F || u == 0x3000
}

/// `s` without its leading white space.
pub fn trim_start(s: &str) -> (r: String)
    ensures
        r@ == trimmed_start(s@),
{
    let v: Vec<char> = chars_of(s);
    let mut i: usize = 0;
    assert(v@.skip(0) =~= v@);
    while i < v.len() && space(v[i])
        invariant
            i <= v@.len(),
            v@ == s@,
            trimmed_start(v@) == trimmed_start(v@.skip(i as int)),
        decreases v@.len() - i,
    {
        assert(v@.skip(i as int).skip(1) =~= v@.skip(i + 1));
        i = i + 1;
    }
    assert(v@.skip(i as int) =~= v@.subrange(i as int, v@.len() as int));
    string_between(&v, i, v.len())
}

/// `s` without its trailing white space.
pub fn trim_end(s: &str) -> (r: String)
    ensures
        r@ == trimmed_end(s@),
{
    let v: Vec<char> = chars_of(s);
    let mut i: usize = v.len();
    assert(v@.take(v@.len() as int) =~= v@);
    while i > 0 && space(v[i - 1])
        invariant
            i <= v@.len(),
            v@ == s@,
            trimmed_end(v@) == trimmed_end(v@.take(i as int)),
        decreases i,
    {
        assert(v@.take(i as int).drop_last() =~= v@.take(i - 1));
        i = i - 1;
    }
    assert(v@.take(i as int) =~= v@.subrange(0, i as int));
    string_between(&v, 0, i)
}

/// `s` without white space at either end.
pub fn trim(s: &str) -> (r: String)
    ensures
        r@ == trimmed(s@),
{
    trim_end(trim_start(s).as_str())
}

/// Does `v`, from `from` on, start with `p`?
fn prefix_at(v: &Vec<char>, from: usize, p: &Vec<char>) -> (r: bool)
    requires
        from <= v@.len(),
    ensures
        r == p@.is_prefix_of(v@.skip(from as int)),
        r == occurs_at(v@, p@, from as int),
{
    if p.len() > v.len() - from {
        return false;
    }
    let mut i: usize = 0;
    while i < p.len()
        invariant
            from <= v@.len(),
            i <= p@.len(),
            from + p@.len() <= v.len(),
            forall|j: int| 0 <= j < i ==> v@[from + j] == p@[j],
        decreases p@.len() - i,
    {
        if v[from + i] != p[i] {
            assert(v@.skip(from as int).subrange(0, p@.len() as int)[i as int] != p@[i as int]);
            assert(v@.subrange(from as int, from + p@.len())[i as int] != p@[i as int]);
            return false;
        }
        i = i + 1;
    }
    assert(v@.skip(from as int).subrange(0, p@.len() as int) =~= p@);
    assert(v@.subrange(from as int, from + p@.len()) =~= p@);
    true
}

/// Does `s` start with `p`?
pub fn starts_with(s: &str, p: &str) -> (r: bool)
    ensures
        r == p@.is_prefix_of(s@),
{
    let v: Vec<char> = chars_of(s);
    assert(v@.skip(0) =~= v@);
    prefix_at(&v, 0, &chars_of(p))
}

/// Does `s` end with `p`?
pub fn ends_with(s: &str, p: &str) -> (r: bool)
    ensures
        r == p@.is_suffix_of(s@),
{
    let v: Vec<char> = chars_of(s);
    let q: Vec<char> = chars_of(p);
    if q.len() > v.len() {
        return false;
    }
    let from: usize = v.len() - q.len();
    prefix_at(&v, from, &q)
}

/// Does `p` stand somewhere in `s`?
pub fn contains(s: &str, p: &str) -> (r: bool)
    ensures
        r == has(s@, p@),
{
    let v: Vec<char> = chars_of(s);
    let q: Vec<char> = chars_of(p);
    let mut i: usize = 0;
    while i <= v.len()
        invariant
            i <= v@.len() + 1,
            v@ == s@,
            q@ == p@,
            forall|j: int| 0 <= j < i ==> !occurs_at(s@, p@, j),
        decreases v@.len() + 1 - i,
    {
        if prefix_at(&v, i, &q) {
            assert(occurs_at(s@, p@, i as int));
            return true;
        }
        if i == v.len() {
            assert forall|j: int| !occurs_at(s@, p@, j) by {}
            return false;
        }
        i = i + 1;
    }
    false
}

/// Does the character `c` stand in `s`?
pub fn contains_char(s: &str, c: char) -> (r: bool)
    ensures
        r == s@.contains(c),
{
    let v: Vec<char> = chars_of(s);
    let mut i: usize = 0;
    while i < v.len()
        invariant
            i <= v@.len(),
            v@ == s@,
            forall|j: int| 0 <= j < i ==> v@[j] != c,
        decreases v@.len() - i,
    {
        if v[i] == c {
            return true;
        }
        i = i + 1;
    }
    false
}

/// `s` without any leading copies of `p`.
pub fn trim_start_matches(s: &str, p: &str) -> (r: String)
    requires
        p@.len() > 0,
    ensures
        r@ == without_leading(s@, p@),
{
    let v: Vec<char> = chars_of(s);
    let q: Vec<char> = chars_of(p);
    let mut i: usize = 0;
    assert(v@.skip(0) =~= v@);
    while prefix_at(&v, i, &q)
        invariant
            i <= v@.len(),
            v@ == s@,
            q@ == p@,
            p@.len() > 0,
            without_leading(s@, p@) == without_leading(v@.skip(i as int), p@),
        decreases v@.len() - i,
    {
        assert(v@.skip(i as int).skip(q@.len() as int) =~= v@.skip(i + q@.len()));
        assert(i + q@.len() <= v.len());
        i = i + q.len();
    }
    assert(v@.skip(i as int) =~= v@.subrange(i as int, v@.len() as int));
    string_between(&v, i, v.len())
}

/// The small form of an ASCII capital; any other character as it is.
pub fn to_lower_char(c: char) -> (r: char)
    ensures
        r == lower_char(c),
{
    if 'A' <= c && c <= 'Z' {
        let u: u8 = (c as u32) as u8;
        (u + 32) as char
    } else {
        c
    }
}

/// `s` with its ASCII capitals made small.
pub fn to_lower(s: &str) -> (r: String)
    ensures
        r@ == lowered(s@),
{
    let v: Vec<char> = chars_of(s);
    let mut out: String = String::new();
    let mut i: usize = 0;
    while i < v.len()
        invariant
            i <= v@.len(),
            v@ == s@,
            out@ == lowered(v@).take(i as int),
        decreases v@.len() - i,
    {
        out.push(to_lower_char(v[i]));
        assert(out@ =~= lowered(v@).take(i + 1));
        i = i + 1;
    }
    assert(lowered(v@).take(v@.len() as int) =~= lowered(v@));
    out
}

/// `s` with each occurrence of `p` replaced by `r`, from the left and without overlaps.
pub fn replace(s: &str, p: &str, r: &str) -> (out: String)
    requires
        p@.len() > 0,
    ensures
        out@ == replaced(s@, p@, r@),
{
    let v: Vec<char> = chars_of(s);
    let q: Vec<char> = chars_of(p);
    let mut out: String = String::new();
    let mut i: usize = 0;
    assert(v@.skip(0) =~= v@);
    assert(out@ + replaced(v@, p@, r@) =~= replaced(v@, p@, r@));
    while i < v.len()
        invariant
            i <= v@.len(),
            v@ == s@,
            q@ == p@,
            p@.len() > 0,
            replaced(s@, p@, r@) == out@ + replaced(v@.skip(i as int), p@, r@),
        decreases v@.len() - i,
    {
        let ghost before = out@;
        let ghost rest = v@.skip(i as int);
        if prefix_at(&v, i, &q) {
            out.append(r);
            assert(rest.skip(q@.len() as int) =~= v@.skip(i + q@.len()));
            assert(before + (r@ + replaced(rest.skip(p@.len() as int), p@, r@)) =~= before + r@
                + replaced(rest.skip(p@.len() as int), p@, r@));
            i = i + q.len();
        } else {
            out.push(v[i]);
            assert(rest.skip(1) =~= v@.skip(i + 1));
            assert(before + (seq![rest[0]] + replaced(rest.skip(1), p@, r@)) =~= before.push(
                v@[i as int],
            ) + replaced(rest.skip(1), p@, r@));
            i = i + 1;
        }
    }
    assert(v@.skip(v@.len() as int) =~= Seq::<char>::empty());
    assert(out@ + Seq::<char>::empty() =~= out@);
    out
}

/// The position of the first `c` at or after `from`, or the end.
pub fn find_from(v: &Vec<char>, from: usize, c: char) -> (r: usize)
    requires
        from <= v@.len(),
    ensures
        from <= r <= v@.len(),
        r == from + upto(v@.skip(from as int), c),
{
    let mut i: usize = from;
    while i < v.len() && v[i] != c
        invariant
            from <= i <= v@.len(),
            forall|j: int| from <= j < i ==> v@[j] != c,
        decreases v@.len() - i,
    {
        i = i + 1;
    }
    proof {
        lemma_upto_is(v@.skip(from as int), c, i - from);
    }
    i
}

/// The place of the first occurrence of `p` at or after `from`; the end where there is none.
pub fn find_text_from(v: &Vec<char>, from: usize, p: &str) -> (r: usize)
    requires
        from <= v@.len(),
        p@.len() > 0,
    ensures
        from <= r <= v@.len(),
        r == from + upto_text(v@.skip(from as int), p@),
{
    let q: Vec<char> = chars_of(p);
    let mut i: usize = from;
    while i < v.len() && !prefix_at(v, i, &q)
        invariant
            from <= i <= v@.len(),
            q@ == p@,
            upto_text(v@.skip(from as int), p@) == i - from + upto_text(v@.skip(i as int), p@),
        decreases v@.len() - i,
    {
        assert(v@.skip(i as int).skip(1) =~= v@.skip(i + 1));
        i = i + 1;
    }
    i
}

/// The pieces of `s` between the occurrences of `c`, at most `n`.
pub fn split_at_most(s: &str, c: char, n: usize) -> (r: Vec<String>)
    requires
        n > 0,
    ensures
        texts(r@) == pieces(s@, c, n as nat),
{
    let v: Vec<char> = chars_of(s);
    let mut out: Vec<String> = Vec::new();
    let mut from: usize = 0;
    let mut left: usize = n;
    assert(v@.skip(0) =~= v@);
    assert(texts(out@) + pieces(v@, c, n as nat) =~= pieces(v@, c, n as nat));
    loop
        invariant
            from <= v@.len(),
            v@ == s@,
            1 <= left <= n,
            pieces(s@, c, n as nat) == texts(out@) + pieces(v@.skip(from as int), c, left as nat),
        decreases left,
    {
        let at: usize = find_from(&v, from, c);
        let ghost rest = v@.skip(from as int);
        let ghost before = texts(out@);
        proof {
            lemma_upto(rest, c);
        }
        if left == 1 || at == v.len() {
            out.push(string_between(&v, from, v.len()));
            assert(v@.subrange(from as int, v@.len() as int) =~= rest);
            assert(texts(out@) =~= before.push(rest));
            assert(before.push(rest) =~= before + seq![rest]);
            return out;
        }
        out.push(string_between(&v, from, at));
        assert(v@.subrange(from as int, at as int) =~= rest.take(at - from));
        assert(texts(out@) =~= before.push(rest.take(at - from)));
        assert(rest.skip(at - from + 1) =~= v@.skip(at + 1));
        assert(before + (seq![rest.take(at - from)] + pieces(
            v@.skip(at + 1),
            c,
            (left - 1) as nat,
        )) =~= before.push(rest.take(at - from)) + pieces(v@.skip(at + 1), c, (left - 1) as nat));
        from = at + 1;
        left = left - 1;
    }
}

/// The lines of `s`.
pub fn lines(s: &str) -> (r: Vec<String>)
    ensures
        texts(r@) == lines_of(s@),
{
    let v: Vec<char> = chars_of(s);
    let mut out: Vec<String> = Vec::new();
    let mut from: usize = 0;
    assert(v@.skip(0) =~= v@);
    assert(texts(out@) + lines_of(v@) =~= lines_of(v@));
    while from < v.len()
        invariant
            from <= v@.len(),
            v@ == s@,
            lines_of(s@) == texts(out@) + lines_of(v@.skip(from as int)),
        decreases v@.len() - from,
    {
        let at: usize = find_from(&v, from, '\n');
        let ghost rest = v@.skip(from as int);
        let ghost before = texts(out@);
        proof {
            lemma_upto(rest, '\n');
        }
        if at == v.len() {
            out.push(string_between(&v, from, v.len()));
            assert(v@.subrange(from as int, v@.len() as int) =~= rest);
            assert(texts(out@) =~= before + seq![rest]);
            return out;
        }
        let end: usize = if at > from && v[at - 1] == '\r' {
            at - 1
        } else {
            at
        };
        out.push(string_between(&v, from, end));
        assert(v@.subrange(from as int, end as int) =~= without_cr(rest.take(at - from)));
        assert(texts(out@) =~= before.push(without_cr(rest.take(at - from))));
        assert(rest.skip(at - from + 1) =~= v@.skip(at + 1));
        assert(before + (seq![without_cr(rest.take(at - from))] + lines_of(v@.skip(at + 1)))
            =~= before.push(without_cr(rest.take(at - from))) + lines_of(v@.skip(at + 1)));
        from = at + 1;
    }
    assert(v@.skip(v@.len() as int) =~= Seq::<char>::empty());
    assert(texts(out@) + Seq::<Seq<char>>::empty() =~= texts(out@));
    out
}

/// The strings of `list` with `sep` between each two.
pub fn join(list: &Vec<String>, sep: &str) -> (r: String)
    ensures
        r@ == joined(texts(list@), sep@),
{
    let mut out: String = String::new();
    let mut i: usize = 0;
    let ghost all = texts(list@);
    while i < list.len()
        invariant
            i <= list@.len(),
            all == texts(list@),
            out@ == joined(all.take(i as int), sep@),
        decreases list@.len() - i,
    {
        assert(all.take(i + 1).drop_last() =~= all.take(i as int));
        if i > 0 {
            out.append(sep);
            out.append(list[i].as_str());
        } else {
            out = list[i].clone();
            assert(all.take(1)[0] == all[0]);
        }
        i = i + 1;
    }
    assert(all.take(list@.len() as int) =~= all);
    out
}

/// The strings of `list`, one after the other.
pub fn string_together(list: &Vec<String>) -> (r: String)
    ensures
        r@ == strung(texts(list@)),
{
    let mut out: String = String::new();
    let mut i: usize = 0;
    let ghost all = texts(list@);
    while i < list.len()
        invariant
            i <= list@.len(),
            all == texts(list@),
            out@ == strung(all.take(i as int)),
        decreases list@.len() - i,
    {
        out.append(list[i].as_str());
        assert(all.take(i + 1) =~= all.take(i as int).push(all[i as int]));
        proof {
            lemma_strung_push(all.take(i as int), all[i as int]);
        }
        i = i + 1;
    }
    assert(all.take(list@.len() as int) =~= all);
    out
}

// ---------------------------------------------------------------------------
// Order
// ---------------------------------------------------------------------------

/// One text comes before another, by their characters from the left.
pub open spec fn sorts_before(a: Seq<char>, b: Seq<char>) -> bool
    decreases a.len(),
{
    if b.len() == 0 {
        false
    } else if a.len() == 0 {
        true
    } else if a[0] != b[0] {
        a[0] < b[0]
    } else {
        sorts_before(a.skip(1), b.skip(1))
    }
}

/// Does one text come before another?
pub fn is_before(a: &str, b: &str) -> (r: bool)
    ensures
        r == sorts_before(a@, b@),
{
    let v: Vec<char> = chars_of(a);
    let w: Vec<char> = chars_of(b);
    let mut i: usize = 0;
    assert(v@.skip(0) =~= v@);
    assert(w@.skip(0) =~= w@);
    while i < v.len() && i < w.len()
        invariant
            i <= v@.len(),
            i <= w@.len(),
            v@ == a@,
            w@ == b@,
            sorts_before(v@, w@) == sorts_before(v@.skip(i as int), w@.skip(i as int)),
        decreases v@.len() - i,
    {
        assert(v@.skip(i as int)[0] == v@[i as int]);
        assert(w@.skip(i as int)[0] == w@[i as int]);
        if v[i] != w[i] {
            return v[i] < w[i];
        }
        assert(v@.skip(i as int).skip(1) =~= v@.skip(i + 1));
        assert(w@.skip(i as int).skip(1) =~= w@.skip(i + 1));
        i = i + 1;
    }
    i < w.len()
}

/// A text comes before another if it has the smaller character where they first differ.
pub proof fn lemma_sorts_at(a: Seq<char>, b: Seq<char>, k: int)
    requires
        0 <= k < a.len(),
        k < b.len(),
        a.take(k) =~= b.take(k),
        a[k] < b[k],
    ensures
        sorts_before(a, b),
    decreases k,
{
    if k > 0 {
        assert(a.take(k)[0] == a[0] && b.take(k)[0] == b[0]);
        assert(a.skip(1).take(k - 1) =~= a.take(k).skip(1));
        assert(b.skip(1).take(k - 1) =~= b.take(k).skip(1));
        lemma_sorts_at(a.skip(1), b.skip(1), k - 1);
    }
}

/// Of two texts at most one comes before the other; of different ones, one does.
pub proof fn sorts_one_way(a: Seq<char>, b: Seq<char>)
    ensures
        !(sorts_before(a, b) && sorts_before(b, a)),
        a == b || sorts_before(a, b) || sorts_before(b, a),
    decreases a.len(),
{
    if a.len() > 0 && b.len() > 0 && a[0] == b[0] {
        sorts_one_way(a.skip(1), b.skip(1));
        if a.skip(1) == b.skip(1) {
            assert(a =~= seq![a[0]] + a.skip(1));
            assert(b =~= seq![b[0]] + b.skip(1));
        }
    } else if a.len() == 0 && b.len() == 0 {
        assert(a =~= b);
    }
}

/// What comes before a text that does not come after another comes before that one too.
pub proof fn sorts_through(a: Seq<char>, b: Seq<char>, c: Seq<char>)
    requires
        sorts_before(a, b),
        !sorts_before(c, b),
    ensures
        sorts_before(a, c),
    decreases a.len(),
{
    if a.len() > 0 && c.len() > 0 && b.len() > 0 && a[0] == b[0] && b[0] == c[0] {
        sorts_through(a.skip(1), b.skip(1), c.skip(1));
    }
}

// ---------------------------------------------------------------------------
// Laws
// ---------------------------------------------------------------------------

/// White space round a text goes, and nothing else: what is left is the text between it.
pub proof fn white_space_round_a_text_goes(a: Seq<char>, s: Seq<char>, b: Seq<char>)
    requires
        forall|i: int| 0 <= i < a.len() ==> is_space(#[trigger] a[i]),
        forall|i: int| 0 <= i < b.len() ==> is_space(#[trigger] b[i]),
        s.len() > 0 && !is_space(s[0]) && !is_space(s.last()),
    ensures
        trimmed(a + s + b) == s,
        trimmed_start(a + s + b) == s + b,
        trimmed_end(s + b) == s,
    decreases a.len() + b.len(),
{
    if a.len() > 0 {
        white_space_round_a_text_goes(a.skip(1), s, b);
        assert((a + s + b).skip(1) =~= a.skip(1) + s + b);
        assert((a + s + b)[0] == a[0]);
    } else {
        assert(a + s + b =~= s + b);
        assert((s + b)[0] == s[0]);
        if b.len() > 0 {
            white_space_round_a_text_goes(a, s, b.drop_last());
            assert((s + b).drop_last() =~= s + b.drop_last());
            assert((s + b).last() == b.last());
        } else {
            assert(s + b =~= s);
        }
    }
}

/// A blank text leaves nothing.
pub proof fn blank_texts_leave_nothing(s: Seq<char>)
    requires
        forall|i: int| 0 <= i < s.len() ==> is_space(#[trigger] s[i]),
    ensures
        trimmed(s).len() == 0,
    decreases s.len(),
{
    if s.len() > 0 {
        blank_texts_leave_nothing(s.skip(1));
    }
}

/// Letters become small and nothing else changes; what is small already stays.
pub proof fn capitals_become_small(s: Seq<char>, i: int)
    requires
        0 <= i < s.len(),
    ensures
        lowered(s).len() == s.len(),
        'A' <= s[i] <= 'Z' ==> lowered(s)[i] as u32 - 'a' as u32 == s[i] as u32 - 'A' as u32,
        !('A' <= s[i] <= 'Z') ==> lowered(s)[i] == s[i],
        !('A' <= lowered(s)[i] <= 'Z'),
{
}

/// A text is found where it stands first: it stands there, and nowhere before; where it stands nowhere
/// the search ends at the end.
pub proof fn the_first_occurrence_is_found(s: Seq<char>, p: Seq<char>)
    requires
        p.len() > 0,
    ensures
        upto_text(s, p) <= s.len(),
        upto_text(s, p) < s.len() ==> occurs_at(s, p, upto_text(s, p) as int),
        has(s, p) ==> upto_text(s, p) < s.len(),
        forall|i: int| 0 <= i < upto_text(s, p) ==> !#[trigger] occurs_at(s, p, i),
    decreases s.len(),
{
    if s.len() == 0 {
        assert forall|i: int| !occurs_at(s, p, i) by {}
    } else if p.is_prefix_of(s) {
        assert(s.subrange(0, p.len() as int) =~= p);
    } else {
        let t = s.skip(1);
        the_first_occurrence_is_found(t, p);
        assert forall|i: int| occurs_at(s, p, i) implies i > 0 && occurs_at(t, p, i - 1) by {
            if i == 0 {
                assert(s.subrange(0, p.len() as int) =~= p);
                assert forall|k: int| 0 <= k < p.len() implies p[k] == s[k] by {
                    assert(s.subrange(0, p.len() as int)[k] == s[k]);
                }
                assert(p.is_prefix_of(s)) by {
                    assert(p =~= s.subrange(0, p.len() as int));
                }
            } else {
                assert(t.subrange(i - 1, i - 1 + p.len()) =~= s.subrange(i, i + p.len()));
            }
        }
        assert(upto_text(s, p) == 1 + upto_text(t, p));
        if upto_text(t, p) < t.len() {
            let k = upto_text(t, p) as int;
            assert(s.subrange(k + 1, k + 1 + p.len()) =~= t.subrange(k, k + p.len()));
        }
        if has(s, p) {
            let i = choose|i: int| occurs_at(s, p, i);
            assert(occurs_at(t, p, i - 1));
        }
        assert forall|i: int| 0 <= i < upto_text(s, p) implies !#[trigger] occurs_at(s, p, i) by {
            if occurs_at(s, p, i) {
                assert(occurs_at(t, p, i - 1));
            }
        }
    }
}

/// Where a text holds no copy of what is to be replaced it stays as it is; else it keeps what comes
/// before the first copy, has the new text in its place, and goes on behind it in the same way.
pub proof fn each_copy_is_replaced(s: Seq<char>, p: Seq<char>, r: Seq<char>, i: int)
    requires
        p.len() > 0,
    ensures
        (forall|k: int| !#[trigger] occurs_at(s, p, k)) ==> replaced(s, p, r) == s,
        occurs_at(s, p, i) && (forall|k: int| 0 <= k < i ==> !#[trigger] occurs_at(s, p, k))
            ==> replaced(s, p, r) == s.take(i) + r + replaced(s.skip(i + p.len()), p, r),
    decreases s.len(),
{
    if s.len() > 0 {
        if p.is_prefix_of(s) {
            assert(s.subrange(0, p.len() as int) =~= p);
            assert(occurs_at(s, p, 0));
            assert(s.take(0) + r =~= r);
        } else {
            let t = s.skip(1);
            each_copy_is_replaced(t, p, r, i - 1);
            assert forall|k: int| occurs_at(t, p, k) implies #[trigger] occurs_at(s, p, k + 1) by {
                assert(s.subrange(k + 1, k + 1 + p.len()) =~= t.subrange(k, k + p.len()));
            }
            if forall|k: int| !#[trigger] occurs_at(s, p, k) {
                assert forall|k: int| !#[trigger] occurs_at(t, p, k) by {
                    if occurs_at(t, p, k) {
                        assert(occurs_at(s, p, k + 1));
                    }
                }
                assert(seq![s[0]] + t =~= s);
            }
            if occurs_at(s, p, i) && (forall|k: int| 0 <= k < i ==> !#[trigger] occurs_at(s, p, k)) {
                if i == 0 {
                    assert(p =~= s.subrange(0, p.len() as int));
                    assert(p.is_prefix_of(s));
                }
                assert(t.subrange(i - 1, i - 1 + p.len()) =~= s.subrange(i, i + p.len()));
                assert forall|k: int| 0 <= k < i - 1 implies !#[trigger] occurs_at(t, p, k) by {
                    if occurs_at(t, p, k) {
                        assert(occurs_at(s, p, k + 1));
                    }
                }
                assert(t.skip(i - 1 + p.len()) =~= s.skip(i + p.len()));
                assert(seq![s[0]] + t.take(i - 1) =~= s.take(i));
                let rest = replaced(s.skip(i + p.len()), p, r);
                assert(seq![s[0]] + (t.take(i - 1) + r + rest) =~= s.take(i) + r + rest);
            }
        }
    } else {
        assert(!occurs_at(s, p, i)) by {
            if occurs_at(s, p, i) {
                assert(p.len() <= 0);
            }
        }
    }
}

proof fn lemma_joined_from_the_front(x: Seq<char>, rest: Seq<Seq<char>>, sep: Seq<char>)
    requires
        rest.len() > 0,
    ensures
        joined(seq![x] + rest, sep) == x + sep + joined(rest, sep),
    decreases rest.len(),
{
    let all = seq![x] + rest;
    assert(all.drop_last() =~= seq![x] + rest.drop_last());
    assert(all.last() == rest.last());
    if rest.len() == 1 {
        assert(all.drop_last() =~= seq![x]);
        assert(joined(all.drop_last(), sep) == x);
    } else {
        lemma_joined_from_the_front(x, rest.drop_last(), sep);
        assert(x + sep + joined(rest.drop_last(), sep) + sep + rest.last() =~= x + sep + (joined(
            rest.drop_last(),
            sep,
        ) + sep + rest.last()));
    }
}

/// The pieces of a text give it back when they are joined as they were parted. There are at most as
/// many as were asked for, and none but the last holds the character that parts them; where there are
/// fewer, the last does not either.
pub proof fn pieces_give_the_text_back(s: Seq<char>, c: char, n: nat)
    requires
        n > 0,
    ensures
        joined(pieces(s, c, n), seq![c]) == s,
        0 < pieces(s, c, n).len() <= n,
        forall|i: int|
            0 <= i < pieces(s, c, n).len() && (i < pieces(s, c, n).len() - 1 || pieces(s, c, n).len() < n)
                ==> !(#[trigger] pieces(s, c, n)[i]).contains(c),
    decreases n,
{
    lemma_upto(s, c);
    let k = upto(s, c) as int;
    if n == 1 || k == s.len() {
        assert(pieces(s, c, n) =~= seq![s]);
        assert(joined(seq![s], seq![c]) == s);
        if k == s.len() && s.contains(c) {
            let j = choose|j: int| 0 <= j < s.len() && s[j] == c;
            assert(false);
        }
    } else {
        let head = s.take(k);
        let tail = s.skip(k + 1);
        pieces_give_the_text_back(tail, c, (n - 1) as nat);
        let rest = pieces(tail, c, (n - 1) as nat);
        lemma_joined_from_the_front(head, rest, seq![c]);
        assert(head + seq![c] + tail =~= s);
        assert forall|i: int|
            0 <= i < pieces(s, c, n).len() && (i < pieces(s, c, n).len() - 1 || pieces(s, c, n).len()
                < n) implies !(#[trigger] pieces(s, c, n)[i]).contains(c) by {
            if i == 0 {
                if head.contains(c) {
                    let j = choose|j: int| 0 <= j < head.len() && head[j] == c;
                    assert(s[j] == c);
                }
            } else {
                assert(pieces(s, c, n)[i] == rest[i - 1]);
            }
        }
    }
}

} // verus!

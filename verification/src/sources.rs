//! The sources of message catalogs: which of them can be read and formatted.
//!
//! A source is scanned as it is read: entries start at the left margin, `{` opens a placeable, which
//! holds an expression, and `->` turns it into a choice, whose variants are text again. What looks
//! like a quotation, a number or an arrow outside of an expression is plain text.

use vstd::prelude::*;

use crate::number;
use crate::text;

verus! {

/// As many digits behind the point of a number are too many for a plural rule to count with.
pub const LONG_FRACTION: usize = 20;

/// How deep placeables, choices and calls may lie in each other.
pub const MAX_NESTING: usize = 10;

/// A source with so few placeables, and no call, has no message in which more than a hundred of
/// them are met, however its messages refer to each other.
pub const FEW_PLACEABLES: usize = 10;

// ---------------------------------------------------------------------------
// Characters and runs of them
// ---------------------------------------------------------------------------

pub open spec fn is_letter(c: char) -> bool {
    'a' <= c <= 'z' || 'A' <= c <= 'Z'
}

/// A character that a name can go on with.
pub open spec fn is_name_part(c: char) -> bool {
    is_letter(c) || number::is_digit(c) || c == '-' || c == '_'
}

pub open spec fn is_blank(c: char) -> bool {
    c == ' ' || c == '\n' || c == '\r'
}

/// The first place from here on whose character is not of a kind.
pub open spec fn run_end(s: Seq<char>, i: int, f: spec_fn(char) -> bool) -> int
    decreases s.len() - i,
{
    if i < s.len() && f(s[i]) {
        run_end(s, i + 1, f)
    } else {
        i
    }
}

pub open spec fn name_end(s: Seq<char>, i: int) -> int {
    run_end(s, i, |c: char| is_name_part(c))
}

pub open spec fn space_end(s: Seq<char>, i: int) -> int {
    run_end(s, i, |c: char| c == ' ')
}

pub open spec fn blank_end(s: Seq<char>, i: int) -> int {
    run_end(s, i, |c: char| is_blank(c))
}

pub open spec fn digit_end(s: Seq<char>, i: int) -> int {
    run_end(s, i, |c: char| number::is_digit(c))
}

pub open spec fn hex_end(s: Seq<char>, i: int) -> int {
    run_end(s, i, |c: char| number::is_hex_digit(c))
}

proof fn lemma_run_end(s: Seq<char>, i: int, j: int, f: spec_fn(char) -> bool)
    requires
        0 <= i <= j <= s.len(),
        forall|k: int| i <= k < j ==> f(#[trigger] s[k]),
        j < s.len() ==> !f(s[j]),
    ensures
        run_end(s, i, f) == j,
    decreases j - i,
{
    if i < j {
        assert(f(s[i]));
        lemma_run_end(s, i + 1, j, f);
    }
}

fn is_letter_char(c: char) -> (r: bool)
    ensures
        r == is_letter(c),
{
    ('a' <= c && c <= 'z') || ('A' <= c && c <= 'Z')
}

fn is_digit_char(c: char) -> (r: bool)
    ensures
        r == number::is_digit(c),
{
    '0' <= c && c <= '9'
}

fn is_name_char(c: char) -> (r: bool)
    ensures
        r == is_name_part(c),
{
    is_letter_char(c) || is_digit_char(c) || c == '-' || c == '_'
}

fn find_name_end(v: &Vec<char>, i: usize) -> (r: usize)
    requires
        i <= v@.len(),
    ensures
        r == name_end(v@, i as int),
        i <= r <= v@.len(),
{
    let mut j: usize = i;
    while j < v.len() && is_name_char(v[j])
        invariant
            i <= j <= v@.len(),
            forall|k: int| i <= k < j ==> is_name_part(#[trigger] v@[k]),
        decreases v@.len() - j,
    {
        j = j + 1;
    }
    proof {
        lemma_run_end(v@, i as int, j as int, |c: char| is_name_part(c));
    }
    j
}

fn find_space_end(v: &Vec<char>, i: usize) -> (r: usize)
    requires
        i <= v@.len(),
    ensures
        r == space_end(v@, i as int),
        i <= r <= v@.len(),
{
    let mut j: usize = i;
    while j < v.len() && v[j] == ' '
        invariant
            i <= j <= v@.len(),
            forall|k: int| i <= k < j ==> #[trigger] v@[k] == ' ',
        decreases v@.len() - j,
    {
        j = j + 1;
    }
    proof {
        lemma_run_end(v@, i as int, j as int, |c: char| c == ' ');
    }
    j
}

fn find_blank_end(v: &Vec<char>, i: usize) -> (r: usize)
    requires
        i <= v@.len(),
    ensures
        r == blank_end(v@, i as int),
        i <= r <= v@.len(),
{
    let mut j: usize = i;
    while j < v.len() && (v[j] == ' ' || v[j] == '\n' || v[j] == '\r')
        invariant
            i <= j <= v@.len(),
            forall|k: int| i <= k < j ==> is_blank(#[trigger] v@[k]),
        decreases v@.len() - j,
    {
        j = j + 1;
    }
    proof {
        lemma_run_end(v@, i as int, j as int, |c: char| is_blank(c));
    }
    j
}

fn find_digit_end(v: &Vec<char>, i: usize) -> (r: usize)
    requires
        i <= v@.len(),
    ensures
        r == digit_end(v@, i as int),
        i <= r <= v@.len(),
{
    let mut j: usize = i;
    while j < v.len() && is_digit_char(v[j])
        invariant
            i <= j <= v@.len(),
            forall|k: int| i <= k < j ==> number::is_digit(#[trigger] v@[k]),
        decreases v@.len() - j,
    {
        j = j + 1;
    }
    proof {
        lemma_run_end(v@, i as int, j as int, |c: char| number::is_digit(c));
    }
    j
}

fn find_hex_end(v: &Vec<char>, i: usize) -> (r: usize)
    requires
        i <= v@.len(),
    ensures
        r == hex_end(v@, i as int),
        i <= r <= v@.len(),
{
    let mut j: usize = i;
    while j < v.len() && number::is_hex_char(v[j])
        invariant
            i <= j <= v@.len(),
            forall|k: int| i <= k < j ==> number::is_hex_digit(#[trigger] v@[k]),
        decreases v@.len() - j,
    {
        j = j + 1;
    }
    proof {
        lemma_run_end(v@, i as int, j as int, |c: char| number::is_hex_digit(c));
    }
    j
}

// ---------------------------------------------------------------------------
// What is open
// ---------------------------------------------------------------------------

/// What an open bracket holds.
#[derive(Clone, Copy, Debug, PartialEq, Eq, Structural)]
pub enum Kind {
    /// An expression in which nothing has been named yet.
    Literal,
    /// An expression that names something.
    Named,
    /// The variants of a choice.
    Variants,
    /// The arguments of a call.
    Call,
}

/// An open bracket.
#[derive(Clone, Copy, Debug, PartialEq, Eq, Structural)]
pub struct Open {
    pub kind: Kind,
    /// It lies in a placeable that has no name: one that holds another, or a choice by a literal.
    pub odd: bool,
}

/// How far a source has been scanned.
#[verifier::ext_equal]
pub struct Scan {
    /// The open brackets, the innermost last.
    pub open: Seq<Open>,
    /// In a comment.
    pub comment: bool,
    /// In a quotation.
    pub quoted: bool,
    /// Behind a backslash in a quotation.
    pub escaped: bool,
    /// In the name of a variable.
    pub variable: bool,
}

/// Nothing is open.
pub open spec fn outside(comment: bool) -> Scan {
    Scan { open: Seq::empty(), comment, quoted: false, escaped: false, variable: false }
}

/// A name and an equals sign: an entry starts here.
pub open spec fn is_entry_head(s: Seq<char>, i: int) -> bool {
    let j = if s[i] == '-' {
        i + 1
    } else {
        i
    };
    let k = space_end(s, name_end(s, j));
    j < s.len() && is_letter(s[j]) && k < s.len() && s[k] == '='
}

/// The scan at the start of a character: a comment or an entry at the left margin ends what was
/// open.
pub open spec fn started(s: Seq<char>, i: int, st: Scan) -> Scan {
    if i > 0 && s[i - 1] != '\n' {
        st
    } else if s[i] == '#' {
        outside(true)
    } else if is_entry_head(s, i) {
        outside(false)
    } else {
        st
    }
}

/// An arrow stands here.
pub open spec fn is_arrow(s: Seq<char>, i: int) -> bool {
    i + 1 < s.len() && s[i] == '-' && s[i + 1] == '>'
}

pub open spec fn opened(st: Scan, kind: Kind, odd: bool) -> Scan {
    Scan { open: st.open.push(Open { kind, odd }), ..st }
}

pub open spec fn closed(st: Scan) -> Scan {
    Scan { open: st.open.drop_last(), ..st }
}

pub open spec fn turned(st: Scan, kind: Kind, odd: bool) -> Scan {
    Scan { open: st.open.drop_last().push(Open { kind, odd }), ..st }
}

/// The scan behind a character of an open bracket.
pub open spec fn inside(s: Seq<char>, i: int, st: Scan) -> Scan {
    let c = s[i];
    let top = st.open.last();
    match top.kind {
        Kind::Variants => if c == '{' {
            opened(st, Kind::Literal, top.odd)
        } else if c == '}' {
            closed(st)
        } else {
            st
        },
        Kind::Call => if c == '{' {
            opened(st, Kind::Literal, top.odd)
        } else if c == '(' {
            opened(st, Kind::Call, top.odd)
        } else if c == ')' {
            closed(st)
        } else if c == '"' {
            Scan { quoted: true, ..st }
        } else {
            st
        },
        _ => if c == '{' {
            opened(st, Kind::Literal, true)
        } else if c == '}' {
            closed(st)
        } else if c == '(' {
            opened(st, Kind::Call, top.odd)
        } else if c == '"' {
            Scan { quoted: true, ..st }
        } else if is_arrow(s, i) {
            turned(st, Kind::Variants, top.odd || top.kind == Kind::Literal)
        } else if is_letter(c) || c == '$' {
            turned(st, Kind::Named, top.odd)
        } else {
            st
        },
    }
}

/// The scan behind a character.
pub open spec fn after(s: Seq<char>, i: int, st: Scan) -> Scan {
    let c = s[i];
    if c == '\n' {
        Scan { comment: false, quoted: false, escaped: false, variable: false, ..st }
    } else if st.comment {
        st
    } else if st.quoted {
        if st.escaped {
            Scan { escaped: false, ..st }
        } else if c == '\\' {
            Scan { escaped: true, ..st }
        } else if c == '"' {
            Scan { quoted: false, ..st }
        } else {
            st
        }
    } else if st.open.len() == 0 {
        if c == '{' {
            opened(st, Kind::Literal, false)
        } else {
            st
        }
    } else {
        inside(s, i, Scan { variable: c == '$' || (st.variable && is_name_part(c)), ..st })
    }
}

// ---------------------------------------------------------------------------
// What cannot be read or formatted
// ---------------------------------------------------------------------------

/// An escaped code point with too few digits, right before a character beyond ASCII.
pub open spec fn bad_escape_at(s: Seq<char>, i: int) -> bool {
    let j = hex_end(s, i + 2);
    &&& i + 1 < s.len()
    &&& s[i] == '\\'
    &&& (s[i + 1] == 'u' && j - (i + 2) < 4) || (s[i + 1] == 'U' && j - (i + 2) < 6)
    &&& j < s.len()
    &&& s[j] > '\u{7f}'
}

/// A point between digits, with too many of them behind it.
pub open spec fn long_fraction_at(s: Seq<char>, i: int) -> bool {
    &&& 0 < i
    &&& s[i] == '.'
    &&& number::is_digit(s[i - 1])
    &&& digit_end(s, i + 1) - (i + 1) >= LONG_FRACTION
}

/// A number with too many digits that is handed to a call or that a choice goes by.
pub open spec fn bad_number_at(s: Seq<char>, i: int, kind: Kind) -> bool {
    &&& long_fraction_at(s, i)
    &&& kind == Kind::Call || (kind != Kind::Variants && is_arrow(
        s,
        blank_end(s, digit_end(s, i + 1)),
    ))
}

/// Something is met in an odd placeable that can lead to more placeables: a placeable in a variant,
/// or a name that is no variable's.
pub open spec fn leads_on(c: char, kind: Kind, variable: bool) -> bool {
    if kind == Kind::Variants {
        c == '{'
    } else {
        is_letter(c) && !variable
    }
}

/// A character that the source cannot be read with, or some message not be formatted.
pub open spec fn is_trouble(s: Seq<char>, i: int, st: Scan, few: bool) -> bool {
    let plain = !st.comment && !st.quoted && st.open.len() > 0;
    let top = st.open.last();
    ||| st.quoted && !st.escaped && bad_escape_at(s, i)
    ||| plain && bad_number_at(s, i, top.kind)
    ||| plain && !few && top.odd && leads_on(s[i], top.kind, st.variable)
    ||| after(s, i, st).open.len() > MAX_NESTING
}

/// There is no trouble from here on.
pub open spec fn is_fine_from(s: Seq<char>, i: int, st: Scan, few: bool) -> bool
    decreases s.len() - i,
{
    if i >= s.len() {
        true
    } else {
        let t = started(s, i, st);
        !is_trouble(s, i, t, few) && is_fine_from(s, i + 1, after(s, i, t), few)
    }
}

/// How many braces are opened.
pub open spec fn brace_count(s: Seq<char>) -> nat
    decreases s.len(),
{
    if s.len() == 0 {
        0
    } else {
        brace_count(s.drop_last()) + if s.last() == '{' {
            1nat
        } else {
            0
        }
    }
}

/// A source with few placeables and no call.
pub open spec fn has_few_placeables(s: Seq<char>) -> bool {
    brace_count(s) <= FEW_PLACEABLES && !s.contains('(')
}

/// A source that can be read, and whose messages can all be formatted. It has none of these: a
/// quotation with an escaped code point that lacks digits before a character beyond ASCII; a number
/// with twenty or more digits behind its point that a plural form can be chosen by; placeables,
/// choices and calls that lie too deep in each other; and, unless it has few placeables, a placeable
/// without a name in which more than a hundred others may be met.
pub open spec fn is_formattable(s: Seq<char>) -> bool {
    is_fine_from(s, 0, outside(false), has_few_placeables(s))
}

// ---------------------------------------------------------------------------
// Scanning
// ---------------------------------------------------------------------------

struct Scanner {
    open: Vec<Open>,
    comment: bool,
    quoted: bool,
    escaped: bool,
    variable: bool,
}

impl View for Scanner {
    type V = Scan;

    closed spec fn view(&self) -> Scan {
        Scan {
            open: self.open@,
            comment: self.comment,
            quoted: self.quoted,
            escaped: self.escaped,
            variable: self.variable,
        }
    }
}

fn starts_entry(v: &Vec<char>, i: usize) -> (r: bool)
    requires
        i < v@.len(),
    ensures
        r == is_entry_head(v@, i as int),
{
    let n: usize = v.len();
    let j: usize = if v[i] == '-' {
        i + 1
    } else {
        i
    };
    if j >= n || !is_letter_char(v[j]) {
        return false;
    }
    let k: usize = find_space_end(v, find_name_end(v, j));
    k < n && v[k] == '='
}

fn has_arrow(v: &Vec<char>, i: usize) -> (r: bool)
    requires
        i <= v@.len(),
    ensures
        r == is_arrow(v@, i as int),
{
    i < v.len() && v.len() - i > 1 && v[i] == '-' && v[i + 1] == '>'
}

fn has_bad_escape(v: &Vec<char>, i: usize) -> (r: bool)
    requires
        i < v@.len(),
    ensures
        r == bad_escape_at(v@, i as int),
{
    let n: usize = v.len();
    if n - i < 2 || v[i] != '\\' {
        return false;
    }
    let j: usize = find_hex_end(v, i + 2);
    ((v[i + 1] == 'u' && j - (i + 2) < 4) || (v[i + 1] == 'U' && j - (i + 2) < 6)) && j < n && v[j]
        > '\u{7f}'
}

fn has_bad_number(v: &Vec<char>, i: usize, kind: Kind) -> (r: bool)
    requires
        i < v@.len(),
    ensures
        r == bad_number_at(v@, i as int, kind),
{
    let n: usize = v.len();
    if i == 0 || i >= n || v[i] != '.' || !is_digit_char(v[i - 1]) {
        return false;
    }
    let j: usize = find_digit_end(v, i + 1);
    if j - (i + 1) < LONG_FRACTION {
        return false;
    }
    kind == Kind::Call || (kind != Kind::Variants && has_arrow(v, find_blank_end(v, j)))
}

impl Scanner {
    fn outside(comment: bool) -> (r: Scanner)
        ensures
            r@ == outside(comment),
    {
        let r: Scanner = Scanner {
            open: Vec::new(),
            comment,
            quoted: false,
            escaped: false,
            variable: false,
        };
        assert(r@ =~= outside(comment));
        r
    }

    fn start(&mut self, v: &Vec<char>, i: usize)
        requires
            i < v@.len(),
        ensures
            final(self)@ == started(v@, i as int, old(self)@),
    {
        if i > 0 && v[i - 1] != '\n' {
            return;
        }
        if v[i] == '#' {
            *self = Scanner::outside(true);
        } else if starts_entry(v, i) {
            *self = Scanner::outside(false);
        }
    }

    fn turn(&mut self, kind: Kind, odd: bool)
        requires
            old(self)@.open.len() > 0,
        ensures
            final(self)@ == turned(old(self)@, kind, odd),
    {
        self.open.pop();
        self.open.push(Open { kind, odd });
    }

    fn enter(&mut self, v: &Vec<char>, i: usize)
        requires
            i < v@.len(),
            old(self)@.open.len() > 0,
        ensures
            final(self)@ == inside(v@, i as int, old(self)@),
    {
        let c: char = v[i];
        let top: Open = self.open[self.open.len() - 1];
        assert(top == self@.open.last());
        match top.kind {
            Kind::Variants => {
                if c == '{' {
                    self.open.push(Open { kind: Kind::Literal, odd: top.odd });
                } else if c == '}' {
                    self.open.pop();
                }
            },
            Kind::Call => {
                if c == '{' {
                    self.open.push(Open { kind: Kind::Literal, odd: top.odd });
                } else if c == '(' {
                    self.open.push(Open { kind: Kind::Call, odd: top.odd });
                } else if c == ')' {
                    self.open.pop();
                } else if c == '"' {
                    self.quoted = true;
                }
            },
            Kind::Literal | Kind::Named => {
                if c == '{' {
                    self.open.push(Open { kind: Kind::Literal, odd: true });
                } else if c == '}' {
                    self.open.pop();
                } else if c == '(' {
                    self.open.push(Open { kind: Kind::Call, odd: top.odd });
                } else if c == '"' {
                    self.quoted = true;
                } else if has_arrow(v, i) {
                    self.turn(Kind::Variants, top.odd || top.kind == Kind::Literal);
                } else if is_letter_char(c) || c == '$' {
                    self.turn(Kind::Named, top.odd);
                }
            },
        }
    }

    fn advance(&mut self, v: &Vec<char>, i: usize)
        requires
            i < v@.len(),
        ensures
            final(self)@ == after(v@, i as int, old(self)@),
    {
        let c: char = v[i];
        if c == '\n' {
            self.comment = false;
            self.quoted = false;
            self.escaped = false;
            self.variable = false;
        } else if self.comment {
        } else if self.quoted {
            if self.escaped {
                self.escaped = false;
            } else if c == '\\' {
                self.escaped = true;
            } else if c == '"' {
                self.quoted = false;
            }
        } else if self.open.len() == 0 {
            if c == '{' {
                self.open.push(Open { kind: Kind::Literal, odd: false });
            }
        } else {
            self.variable = c == '$' || (self.variable && is_name_char(c));
            self.enter(v, i);
        }
    }

    /// Is there trouble with a character, apart from what it opens?
    fn meets_trouble(&self, v: &Vec<char>, i: usize, few: bool) -> (r: bool)
        requires
            i < v@.len(),
        ensures
            r || after(v@, i as int, self@).open.len() > MAX_NESTING <==> is_trouble(
                v@,
                i as int,
                self@,
                few,
            ),
    {
        if self.quoted && !self.escaped && has_bad_escape(v, i) {
            return true;
        }
        if self.comment || self.quoted || self.open.len() == 0 {
            return false;
        }
        let top: Open = self.open[self.open.len() - 1];
        assert(top == self@.open.last());
        if has_bad_number(v, i, top.kind) {
            return true;
        }
        if few || !top.odd {
            return false;
        }
        if top.kind == Kind::Variants {
            v[i] == '{'
        } else {
            is_letter_char(v[i]) && !self.variable
        }
    }
}

fn few_placeables(v: &Vec<char>) -> (r: bool)
    ensures
        r == has_few_placeables(v@),
{
    let mut n: usize = 0;
    let mut calls: bool = false;
    let mut i: usize = 0;
    assert(v@.take(0).len() == 0);
    while i < v.len()
        invariant
            i <= v@.len(),
            n == brace_count(v@.take(i as int)),
            n <= i,
            calls == v@.take(i as int).contains('('),
        decreases v@.len() - i,
    {
        let ghost t = v@.take(i as int);
        let ghost u = v@.take(i + 1);
        assert(u.drop_last() =~= t);
        assert(u.last() == v@[i as int]);
        if v[i] == '{' {
            n = n + 1;
        }
        assert(u.contains('(') == (t.contains('(') || v@[i as int] == '(')) by {
            if t.contains('(') {
                let k = choose|k: int| 0 <= k < t.len() && t[k] == '(';
                assert(u[k] == '(');
            }
            if v@[i as int] == '(' {
                assert(u[i as int] == '(');
            }
            if u.contains('(') {
                let k = choose|k: int| 0 <= k < u.len() && u[k] == '(';
                if k < i {
                    assert(t[k] == '(');
                }
            }
        }
        if v[i] == '(' {
            calls = true;
        }
        i = i + 1;
    }
    assert(v@.take(v@.len() as int) =~= v@);
    n <= FEW_PLACEABLES && !calls
}

/// Can a source be read, and all its messages be formatted?
pub fn can_format(source: &str) -> (r: bool)
    ensures
        r == is_formattable(source@),
{
    let v: Vec<char> = text::chars_of(source);
    let few: bool = few_placeables(&v);
    let mut st: Scanner = Scanner::outside(false);
    let mut i: usize = 0;
    while i < v.len()
        invariant
            i <= v@.len(),
            v@ == source@,
            is_formattable(source@) == is_fine_from(v@, i as int, st@, few),
        decreases v@.len() - i,
    {
        st.start(&v, i);
        let met: bool = st.meets_trouble(&v, i, few);
        st.advance(&v, i);
        if met || st.open.len() > MAX_NESTING {
            return false;
        }
        i = i + 1;
    }
    true
}

} // verus!

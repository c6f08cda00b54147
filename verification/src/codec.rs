//! Ways of writing text and bytes so that they can stand inside something else: a query string,
//! a page, a script, a table.

use vstd::prelude::*;
use vstd::string::*;
use vstd::utf8::*;

use crate::number;
use crate::text;

verus! {

/// A colour by its three channels.
#[derive(Clone, Copy, Debug, PartialEq, Eq, Structural)]
pub struct Rgb {
    pub red: u8,
    pub green: u8,
    pub blue: u8,
}

// ---------------------------------------------------------------------------
// Query strings
// ---------------------------------------------------------------------------

/// A byte that stands for itself in a query string.
pub open spec fn is_unreserved(b: u8) -> bool {
    ||| 97 <= b <= 122
    ||| 65 <= b <= 90
    ||| 48 <= b <= 57
    ||| b == 45
    ||| b == 95
    ||| b == 46
    ||| b == 126
}

/// One byte in a query string: itself, `+` for a space, or `%` and its two capital
/// hexadecimal digits.
pub open spec fn query_byte(b: u8) -> Seq<char> {
    if is_unreserved(b) {
        seq![b as char]
    } else if b == 32 {
        seq!['+']
    } else {
        seq![
            '%',
            number::capital_hex_digit(b as nat / 16),
            number::capital_hex_digit(b as nat % 16),
        ]
    }
}

/// Bytes as they stand in a query string.
pub open spec fn query_bytes(b: Seq<u8>) -> Seq<char>
    decreases b.len(),
{
    if b.len() == 0 {
        Seq::empty()
    } else {
        query_bytes(b.drop_last()) + query_byte(b.last())
    }
}

/// Text as it stands in a query string: its UTF-8 bytes, percent-encoded.
pub open spec fn query_encoded(s: Seq<char>) -> Seq<char> {
    query_bytes(encode_utf8(s))
}

/// A character that neither ends a query string nor separates its parts.
pub open spec fn is_query_safe(c: char) -> bool {
    ||| 'a' <= c <= 'z'
    ||| 'A' <= c <= 'Z'
    ||| '0' <= c <= '9'
    ||| c == '-'
    ||| c == '_'
    ||| c == '.'
    ||| c == '~'
    ||| c == '+'
    ||| c == '%'
}

/// Whatever the text, its encoded form is made of safe characters alone.
pub proof fn query_encoded_is_safe(s: Seq<char>)
    ensures
        forall|i: int|
            0 <= i < query_encoded(s).len() ==> is_query_safe(#[trigger] query_encoded(s)[i]),
{
    lemma_query_bytes_safe(encode_utf8(s));
}

proof fn lemma_query_bytes_safe(b: Seq<u8>)
    ensures
        forall|i: int| 0 <= i < query_bytes(b).len() ==> is_query_safe(#[trigger] query_bytes(b)[i]),
    decreases b.len(),
{
    if b.len() > 0 {
        lemma_query_bytes_safe(b.drop_last());
        let head = query_bytes(b.drop_last());
        let last = b.last();
        assert(last as nat / 16 < 16 && last as nat % 16 < 16);
        assert forall|i: int| 0 <= i < query_bytes(b).len() implies is_query_safe(
            #[trigger] query_bytes(b)[i],
        ) by {
            if i < head.len() {
                assert(query_bytes(b)[i] == head[i]);
            } else {
                assert(query_bytes(b)[i] == query_byte(last)[i - head.len()]);
            }
        }
    }
}

/// Percent-encodes text for a query string.
pub fn url_encode(s: &str) -> (r: String)
    ensures
        r@ == query_encoded(s@),
{
    let bytes: &[u8] = s.as_bytes();
    let mut out: String = String::new();
    let mut i: usize = 0;
    while i < bytes.len()
        invariant
            i <= bytes@.len(),
            out@ == query_bytes(bytes@.take(i as int)),
        decreases bytes@.len() - i,
    {
        let b: u8 = bytes[i];
        let ghost before = out@;
        if (97 <= b && b <= 122) || (65 <= b && b <= 90) || (48 <= b && b <= 57) || b == 45 || b
            == 95 || b == 46 || b == 126 {
            out.push(b as char);
        } else if b == 32 {
            out.push('+');
        } else {
            out.push('%');
            out.push(number::capital_hex_digit_char(b / 16));
            out.push(number::capital_hex_digit_char(b % 16));
        }
        assert(out@ =~= before + query_byte(b));
        assert(bytes@.take(i + 1).drop_last() =~= bytes@.take(i as int));
        i = i + 1;
    }
    assert(bytes@.take(bytes@.len() as int) =~= bytes@);
    out
}

// ---------------------------------------------------------------------------
// Hexadecimal
// ---------------------------------------------------------------------------

/// Bytes as small hexadecimal digits, two to a byte.
pub open spec fn hex_text(b: Seq<u8>) -> Seq<char>
    decreases b.len(),
{
    if b.len() == 0 {
        Seq::empty()
    } else {
        hex_text(b.drop_last()) + number::hex_byte(b.last())
    }
}

/// The bytes that pairs of hexadecimal digits stand for, if the text is made of such pairs.
pub open spec fn read_hex(s: Seq<char>) -> Option<Seq<u8>>
    decreases s.len(),
{
    if s.len() == 0 {
        Some(Seq::empty())
    } else if s.len() == 1 {
        None
    } else {
        let n = s.len() as int;
        match (read_hex(s.take(n - 2)), number::read_hex_pair(s[n - 2], s[n - 1])) {
            (Some(head), Some(b)) => Some(head.push(b as u8)),
            _ => None,
        }
    }
}

/// Bytes written in hexadecimal are read back as they were.
pub proof fn hex_round_trip(b: Seq<u8>)
    ensures
        read_hex(hex_text(b)) == Some(b),
    decreases b.len(),
{
    if b.len() == 0 {
        assert(b =~= Seq::<u8>::empty());
    } else {
        hex_round_trip(b.drop_last());
        number::lemma_read_hex_byte(b.last());
        let s = hex_text(b);
        let n = s.len() as int;
        assert(s.take(n - 2) =~= hex_text(b.drop_last()));
        assert(s[n - 2] == number::hex_byte(b.last())[0]);
        assert(s[n - 1] == number::hex_byte(b.last())[1]);
        assert(b.drop_last().push(b.last()) =~= b);
    }
}

/// Writes bytes in hexadecimal.
pub fn hex_encode(b: &[u8]) -> (r: String)
    ensures
        r@ == hex_text(b@),
{
    let mut out: String = String::new();
    let mut i: usize = 0;
    while i < b.len()
        invariant
            i <= b@.len(),
            out@ == hex_text(b@.take(i as int)),
        decreases b@.len() - i,
    {
        let x: u8 = b[i];
        let ghost before = out@;
        out.push(number::hex_digit_char(x / 16));
        out.push(number::hex_digit_char(x % 16));
        assert(out@ =~= before + number::hex_byte(x));
        assert(b@.take(i + 1).drop_last() =~= b@.take(i as int));
        i = i + 1;
    }
    assert(b@.take(b@.len() as int) =~= b@);
    out
}

/// Reads bytes from hexadecimal; `None` if the text is not made of pairs of digits.
pub fn hex_decode(s: &str) -> (r: Option<Vec<u8>>)
    ensures
        match read_hex(s@) {
            Some(b) => r matches Some(v) && v@ == b,
            None => r is None,
        },
{
    let v: Vec<char> = text::chars_of(s);
    if v.len() % 2 != 0 {
        proof {
            lemma_read_hex_odd(v@);
        }
        return None;
    }
    let mut out: Vec<u8> = Vec::new();
    let mut i: usize = 0;
    while i < v.len()
        invariant
            i <= v@.len(),
            i % 2 == 0,
            v@.len() % 2 == 0,
            v@ == s@,
            read_hex(v@.take(i as int)) == Some(out@),
        decreases v@.len() - i,
    {
        let ghost t = v@.take(i + 2);
        assert(t.take(i as int) =~= v@.take(i as int));
        match number::parse_hex_pair(v[i], v[i + 1]) {
            Some(b) => {
                out.push(b);
            },
            None => {
                proof {
                    assert(read_hex(t) is None);
                    lemma_read_hex_prefix(v@, i + 2);
                }
                return None;
            },
        }
        i = i + 2;
    }
    assert(v@.take(v@.len() as int) =~= v@);
    Some(out)
}

proof fn lemma_read_hex_odd(s: Seq<char>)
    requires
        s.len() % 2 == 1,
    ensures
        read_hex(s) is None,
    decreases s.len(),
{
    if s.len() > 1 {
        lemma_read_hex_odd(s.take(s.len() - 2));
    }
}

proof fn lemma_read_hex_prefix(s: Seq<char>, k: int)
    requires
        0 <= k <= s.len(),
        (s.len() - k) % 2 == 0,
        read_hex(s.take(k)) is None,
    ensures
        read_hex(s) is None,
    decreases s.len(),
{
    if k == s.len() {
        assert(s.take(k) =~= s);
    } else {
        assert(s.take(s.len() - 2).take(k) =~= s.take(k));
        lemma_read_hex_prefix(s.take(s.len() - 2), k);
    }
}

// ---------------------------------------------------------------------------
// Pages
// ---------------------------------------------------------------------------

/// One character as it stands in a page's text or in a quoted attribute.
pub open spec fn html_char(c: char) -> Seq<char> {
    if c == '&' {
        "&amp;"@
    } else if c == '<' {
        "&lt;"@
    } else if c == '>' {
        "&gt;"@
    } else if c == '"' {
        "&quot;"@
    } else {
        seq![c]
    }
}

/// Text as it stands in a page.
pub open spec fn html(s: Seq<char>) -> Seq<char> {
    text::spelled(s, |c: char| html_char(c))
}

/// Text written for a page opens no tag and closes no attribute.
pub proof fn html_is_inert(s: Seq<char>)
    ensures
        !html(s).contains('<'),
        !html(s).contains('>'),
        !html(s).contains('"'),
{
    let f = |c: char| html_char(c);
    let ok = |c: char| c != '<' && c != '>' && c != '"';
    reveal_strlit("&amp;");
    reveal_strlit("&lt;");
    reveal_strlit("&gt;");
    reveal_strlit("&quot;");
    assert forall|i: int, j: int| 0 <= i < s.len() && 0 <= j < f(s[i]).len() implies ok(
        #[trigger] f(s[i])[j],
    ) by {
        assert(f(s[i]) == html_char(s[i]));
    }
    text::lemma_spelled_all(s, f, ok);
    assert forall|j: int| 0 <= j < html(s).len() implies html(s)[j] != '<' && html(s)[j] != '>'
        && html(s)[j] != '"' by {
        assert(ok(text::spelled(s, f)[j]));
    }
}

/// Text that holds none of the four special characters is written as it is.
pub proof fn html_keeps_plain_text(s: Seq<char>)
    requires
        forall|i: int|
            0 <= i < s.len() ==> #[trigger] s[i] != '&' && s[i] != '<' && s[i] != '>' && s[i]
                != '"',
    ensures
        html(s) == s,
    decreases s.len(),
{
    if s.len() > 0 {
        let t = s.drop_last();
        assert forall|i: int| 0 <= i < t.len() implies #[trigger] t[i] != '&' && t[i] != '<'
            && t[i] != '>' && t[i] != '"' by {
            assert(t[i] == s[i]);
        }
        html_keeps_plain_text(t);
        assert(html(s) == html(t) + html_char(s.last()));
        assert(html(s) =~= s);
    }
}

/// Escapes text for a page.
pub fn html_escape(s: &str) -> (r: String)
    ensures
        r@ == html(s@),
{
    let v: Vec<char> = text::chars_of(s);
    let mut out: String = String::new();
    let mut i: usize = 0;
    let ghost f = |c: char| html_char(c);
    while i < v.len()
        invariant
            i <= v@.len(),
            f == (|c: char| html_char(c)),
            out@ == text::spelled(v@.take(i as int), f),
        decreases v@.len() - i,
    {
        let c: char = v[i];
        let ghost before = out@;
        if c == '&' {
            out.append("&amp;");
        } else if c == '<' {
            out.append("&lt;");
        } else if c == '>' {
            out.append("&gt;");
        } else if c == '"' {
            out.append("&quot;");
        } else {
            out.push(c);
        }
        assert(out@ =~= before + html_char(c));
        assert(v@.take(i + 1) =~= v@.take(i as int).push(c));
        proof {
            text::lemma_spelled_push(v@.take(i as int), c, f);
        }
        i = i + 1;
    }
    assert(v@.take(v@.len() as int) =~= v@);
    out
}

// ---------------------------------------------------------------------------
// Scripts
// ---------------------------------------------------------------------------

/// One character as it stands in a script's string literal.
pub open spec fn script_char(c: char) -> Seq<char> {
    if c == '"' {
        seq!['\\', '"']
    } else if c == '\\' {
        seq!['\\', '\\']
    } else if c == '\n' {
        seq!['\\', 'n']
    } else if c == '\r' {
        seq!['\\', 'r']
    } else if c == '<' {
        seq!['\\', 'u', '0', '0', '3', 'c']
    } else if c == '\u{2028}' {
        seq!['\\', 'u', '2', '0', '2', '8']
    } else if c == '\u{2029}' {
        seq!['\\', 'u', '2', '0', '2', '9']
    } else {
        seq![c]
    }
}

/// Text as a script's string literal, quotes included.
pub open spec fn script_literal(s: Seq<char>) -> Seq<char> {
    seq!['"'] + text::spelled(s, |c: char| script_char(c)) + seq!['"']
}

/// The text that the inside of a script's string literal stands for; `None` where a quote or a
/// line end would break the literal off, or an escape is none that is written here.
pub open spec fn script_text(s: Seq<char>) -> Option<Seq<char>>
    decreases s.len(),
{
    if s.len() == 0 {
        Some(Seq::empty())
    } else if s[0] == '\\' {
        if s.len() >= 2 && s[1] == '"' {
            after_char('"', script_text(s.skip(2)))
        } else if s.len() >= 2 && s[1] == '\\' {
            after_char('\\', script_text(s.skip(2)))
        } else if s.len() >= 2 && s[1] == 'n' {
            after_char('\n', script_text(s.skip(2)))
        } else if s.len() >= 2 && s[1] == 'r' {
            after_char('\r', script_text(s.skip(2)))
        } else if s.len() >= 6 && s[1] == 'u' && (forall|i: int|
            2 <= i < 6 ==> number::is_hex_digit(#[trigger] s[i])) {
            after_char(
                ((number::hex_value(s[2]) * 4096 + number::hex_value(s[3]) * 256
                    + number::hex_value(s[4]) * 16 + number::hex_value(s[5])) as u32) as char,
                script_text(s.skip(6)),
            )
        } else {
            None
        }
    } else if s[0] == '"' || s[0] == '\n' || s[0] == '\r' || s[0] == '\u{2028}' || s[0]
        == '\u{2029}' {
        None
    } else {
        after_char(s[0], script_text(s.skip(1)))
    }
}

pub open spec fn after_char(c: char, rest: Option<Seq<char>>) -> Option<Seq<char>> {
    match rest {
        Some(r) => Some(seq![c] + r),
        None => None,
    }
}

proof fn lemma_script_step(c: char, rest: Seq<char>)
    ensures
        script_text(script_char(c) + rest) == after_char(c, script_text(rest)),
{
    let s = script_char(c) + rest;
    let k = script_char(c).len() as int;
    assert(s.skip(k) =~= rest);
    assert(s[0] == script_char(c)[0]);
    if k >= 2 {
        assert(s[1] == script_char(c)[1]);
    }
    if k == 6 {
        assert(s[2] == script_char(c)[2]);
        assert(s[3] == script_char(c)[3]);
        assert(s[4] == script_char(c)[4]);
        assert(s[5] == script_char(c)[5]);
        assert forall|i: int| 2 <= i < 6 implies number::is_hex_digit(#[trigger] s[i]) by {}
        assert(0x003c == 0 * 4096 + 0 * 256 + 3 * 16 + 12);
        assert(0x2028 == 2 * 4096 + 0 * 256 + 2 * 16 + 8);
        assert(0x2029 == 2 * 4096 + 0 * 256 + 2 * 16 + 9);
    }
}

proof fn lemma_script_body(s: Seq<char>)
    ensures
        script_text(text::spelled(s, |c: char| script_char(c))) == Some(s),
    decreases s.len(),
{
    let f = |c: char| script_char(c);
    if s.len() == 0 {
        assert(s =~= Seq::<char>::empty());
    } else {
        let head = seq![s[0]];
        let tail = s.skip(1);
        assert(s =~= head + tail);
        text::lemma_spelled_add(head, tail, f);
        reveal_with_fuel(text::spelled, 2);
        assert(head.drop_last() =~= Seq::<char>::empty());
        assert(text::spelled(head, f) =~= script_char(s[0]));
        lemma_script_body(tail);
        lemma_script_step(s[0], text::spelled(tail, f));
    }
}

/// A script literal stands for the text it was made from: what is inside the quotes neither
/// breaks the literal off nor changes the text.
pub proof fn script_literal_round_trip(s: Seq<char>)
    ensures
        script_literal(s).len() >= 2,
        script_literal(s)[0] == '"',
        script_literal(s).last() == '"',
        script_text(script_literal(s).subrange(1, script_literal(s).len() - 1)) == Some(s),
{
    let body = text::spelled(s, |c: char| script_char(c));
    assert(script_literal(s).subrange(1, script_literal(s).len() - 1) =~= body);
    lemma_script_body(s);
}

/// A script literal holds no `<`, so it cannot close the element that the script stands in.
pub proof fn script_literal_holds_no_tag(s: Seq<char>)
    ensures
        !script_literal(s).contains('<'),
{
    let f = |c: char| script_char(c);
    let ok = |c: char| c != '<';
    assert forall|i: int, j: int| 0 <= i < s.len() && 0 <= j < f(s[i]).len() implies ok(
        #[trigger] f(s[i])[j],
    ) by {
        assert(f(s[i]) == script_char(s[i]));
    }
    text::lemma_spelled_all(s, f, ok);
    let body = text::spelled(s, f);
    assert forall|j: int| 0 <= j < script_literal(s).len() implies script_literal(s)[j] != '<' by {
        if 0 < j <= body.len() {
            assert(script_literal(s)[j] == body[j - 1]);
            assert(ok(body[j - 1]));
        }
    }
}

/// Writes text as a script's string literal.
pub fn js_string(s: &str) -> (r: String)
    ensures
        r@ == script_literal(s@),
{
    let v: Vec<char> = text::chars_of(s);
    let mut out: String = String::new();
    out.push('"');
    let mut i: usize = 0;
    let ghost f = |c: char| script_char(c);
    assert(out@ =~= seq!['"'] + text::spelled(v@.take(0), f));
    while i < v.len()
        invariant
            i <= v@.len(),
            f == (|c: char| script_char(c)),
            out@ == seq!['"'] + text::spelled(v@.take(i as int), f),
        decreases v@.len() - i,
    {
        let c: char = v[i];
        let ghost before = out@;
        if c == '"' {
            out.push('\\');
            out.push('"');
        } else if c == '\\' {
            out.push('\\');
            out.push('\\');
        } else if c == '\n' {
            out.push('\\');
            out.push('n');
        } else if c == '\r' {
            out.push('\\');
            out.push('r');
        } else if c == '<' {
            out.append("\\u003c");
        } else if c == '\u{2028}' {
            out.append("\\u2028");
        } else if c == '\u{2029}' {
            out.append("\\u2029");
        } else {
            out.push(c);
        }
        proof {
            reveal_strlit("\\u003c");
            reveal_strlit("\\u2028");
            reveal_strlit("\\u2029");
            assert(out@ =~= before + script_char(c));
            assert(v@.take(i + 1) =~= v@.take(i as int).push(c));
            text::lemma_spelled_push(v@.take(i as int), c, f);
            assert(out@ =~= seq!['"'] + text::spelled(v@.take(i + 1), f));
        }
        i = i + 1;
    }
    assert(v@.take(v@.len() as int) =~= v@);
    out.push('"');
    assert(out@ =~= script_literal(s@));
    out
}

// ---------------------------------------------------------------------------
// Tables
// ---------------------------------------------------------------------------

pub open spec fn cell_char(c: char) -> char {
    if c == '\t' || c == '\n' {
        ' '
    } else {
        c
    }
}

/// Text as a table cell: a space stands for each tab and newline.
pub open spec fn cell(s: Seq<char>) -> Seq<char> {
    Seq::new(s.len(), |i: int| cell_char(s[i]))
}

/// A cell holds neither of the separators.
pub proof fn cell_has_no_separator(s: Seq<char>)
    ensures
        !cell(s).contains('\t'),
        !cell(s).contains('\n'),
{
}

/// Text without tabs and newlines is its own cell.
pub proof fn cell_keeps_plain_text(s: Seq<char>)
    requires
        !s.contains('\t'),
        !s.contains('\n'),
    ensures
        cell(s) == s,
{
    assert forall|i: int| 0 <= i < s.len() implies cell(s)[i] == s[i] by {
        assert(s.contains(s[i]));
    }
    assert(cell(s) =~= s);
}

/// Makes text into a table cell.
pub fn tsv_field(s: &str) -> (r: String)
    ensures
        r@ == cell(s@),
{
    let v: Vec<char> = text::chars_of(s);
    let mut out: String = String::new();
    let mut i: usize = 0;
    while i < v.len()
        invariant
            i <= v@.len(),
            out@ == cell(v@).take(i as int),
        decreases v@.len() - i,
    {
        let c: char = if v[i] == '\t' || v[i] == '\n' {
            ' '
        } else {
            v[i]
        };
        out.push(c);
        assert(out@ =~= cell(v@).take(i + 1));
        i = i + 1;
    }
    assert(cell(v@).take(v@.len() as int) =~= cell(v@));
    out
}

// ---------------------------------------------------------------------------
// Labels
// ---------------------------------------------------------------------------

/// Text cut to `max` characters, the last of which is then an ellipsis; where there is no room for
/// one, nothing is left.
pub open spec fn shortened(s: Seq<char>, max: nat) -> Seq<char> {
    if s.len() <= max {
        s
    } else if max == 0 {
        Seq::empty()
    } else {
        s.take(max - 1).push('…')
    }
}

/// A shortened text has at most `max` characters and starts as the text does.
pub proof fn shortened_fits(s: Seq<char>, max: nat)
    ensures
        shortened(s, max).len() <= max,
        s.len() > max > 0 ==> shortened(s, max).drop_last().is_prefix_of(s),
        s.len() > max > 0 ==> shortened(s, max).last() == '…',
{
    if s.len() > max && max > 0 {
        assert(shortened(s, max).drop_last() =~= s.take(max - 1));
    }
}

/// Cuts a label to `max` characters.
pub fn truncate_ellipsis(input: &str, max: usize) -> (r: String)
    ensures
        r@ == shortened(input@, max as nat),
        r@.len() <= max,
{
    let v: Vec<char> = text::chars_of(input);
    if v.len() > max {
        if max == 0 {
            return String::new();
        }
        let mut out: String = text::string_between(&v, 0, max - 1);
        out.push('…');
        assert(out@ =~= shortened(input@, max as nat));
        out
    } else {
        text::string_of(&v)
    }
}

// ---------------------------------------------------------------------------
// Colours
// ---------------------------------------------------------------------------

/// `#` and three or six hexadecimal digits.
pub open spec fn is_css_hex(s: Seq<char>) -> bool {
    &&& s.len() == 4 || s.len() == 7
    &&& s[0] == '#'
    &&& forall|i: int| 1 <= i < s.len() ==> number::is_hex_digit(#[trigger] s[i])
}

/// A colour that passes can end neither the declaration, the rule nor the element that it is
/// written into: it is a `#` followed by letters and digits.
pub proof fn css_hex_is_inert(s: Seq<char>)
    requires
        is_css_hex(s),
    ensures
        forall|i: int|
            0 <= i < s.len() ==> #[trigger] s[i] == '#' || 'a' <= s[i] <= 'f' || 'A' <= s[i] <= 'F'
                || '0' <= s[i] <= '9',
{
}

/// Is this exactly a CSS colour of the form `#rgb` or `#rrggbb`?
pub fn is_hex_color(s: &str) -> (r: bool)
    ensures
        r == is_css_hex(s@),
{
    let v: Vec<char> = text::chars_of(s);
    if v.len() != 4 && v.len() != 7 {
        return false;
    }
    if v[0] != '#' {
        return false;
    }
    let mut i: usize = 1;
    while i < v.len()
        invariant
            1 <= i <= v@.len(),
            v@ == s@,
            forall|j: int| 1 <= j < i ==> number::is_hex_digit(#[trigger] v@[j]),
        decreases v@.len() - i,
    {
        if !number::is_hex_char(v[i]) {
            return false;
        }
        i = i + 1;
    }
    true
}

/// A colour as `#rrggbb`.
pub open spec fn colour_text(c: Rgb) -> Seq<char> {
    seq!['#'] + number::hex_byte(c.red) + number::hex_byte(c.green) + number::hex_byte(c.blue)
}

/// Writes a colour as `#rrggbb`.
pub fn color_hex(c: Rgb) -> (r: String)
    ensures
        r@ == colour_text(c),
{
    let mut out: String = String::new();
    out.push('#');
    out.push(number::hex_digit_char(c.red / 16));
    out.push(number::hex_digit_char(c.red % 16));
    out.push(number::hex_digit_char(c.green / 16));
    out.push(number::hex_digit_char(c.green % 16));
    out.push(number::hex_digit_char(c.blue / 16));
    out.push(number::hex_digit_char(c.blue % 16));
    assert(out@ =~= colour_text(c));
    out
}

/// The colour that a text stands for: white space around it and any number of `#` before it are
/// ignored, and six characters, three hexadecimal pairs, must be left.
pub open spec fn read_colour(s: Seq<char>) -> Option<Rgb> {
    let d = text::without_leading(text::trimmed(s), seq!['#']);
    if d.len() != 6 {
        None
    } else {
        match (
            number::read_hex_pair(d[0], d[1]),
            number::read_hex_pair(d[2], d[3]),
            number::read_hex_pair(d[4], d[5]),
        ) {
            (Some(r), Some(g), Some(b)) => Some(
                Rgb { red: r as u8, green: g as u8, blue: b as u8 },
            ),
            _ => None,
        }
    }
}

/// A written colour is read back, and is a CSS colour.
pub proof fn colour_round_trip(c: Rgb)
    ensures
        read_colour(colour_text(c)) == Some(c),
        is_css_hex(colour_text(c)),
{
    let s = colour_text(c);
    number::lemma_read_hex_byte(c.red);
    number::lemma_read_hex_byte(c.green);
    number::lemma_read_hex_byte(c.blue);
    assert(s[0] == '#');
    assert(s[1] == number::hex_byte(c.red)[0]);
    assert(s[2] == number::hex_byte(c.red)[1]);
    assert(s[3] == number::hex_byte(c.green)[0]);
    assert(s[4] == number::hex_byte(c.green)[1]);
    assert(s[5] == number::hex_byte(c.blue)[0]);
    assert(s[6] == number::hex_byte(c.blue)[1]);
    text::lemma_trimmed_same(s);
    let d = s.skip(1);
    assert(s.subrange(0, 1) =~= seq!['#']);
    assert(d.subrange(0, 1)[0] != '#');
    reveal_with_fuel(text::without_leading, 2);
    assert(text::without_leading(s, seq!['#']) == d);
}

/// Reads a `#rrggbb` colour.
pub fn parse_hex_color(s: &str) -> (r: Option<Rgb>)
    ensures
        r == read_colour(s@),
{
    let t: String = text::trim(s);
    proof {
        reveal_strlit("#");
        assert("#"@ =~= seq!['#']);
    }
    let v: Vec<char> = text::chars_of(text::trim_start_matches(t.as_str(), "#").as_str());
    if v.len() != 6 {
        return None;
    }
    match (
        number::parse_hex_pair(v[0], v[1]),
        number::parse_hex_pair(v[2], v[3]),
        number::parse_hex_pair(v[4], v[5]),
    ) {
        (Some(red), Some(green), Some(blue)) => Some(Rgb { red, green, blue }),
        _ => None,
    }
}

// ---------------------------------------------------------------------------
// Generated favicons
// ---------------------------------------------------------------------------

/// The 32-bit FNV-1a hash of some bytes.
pub open spec fn fnv1a(b: Seq<u8>) -> u32
    decreases b.len(),
{
    if b.len() == 0 {
        2166136261u32
    } else {
        (((fnv1a(b.drop_last()) ^ (b.last() as u32)) as nat * 16777619) % 0x1_0000_0000) as u32
    }
}

/// The hue of a site's generated icon: a fixed function of the text, in degrees.
pub open spec fn hue(s: Seq<char>) -> u32 {
    fnv1a(encode_utf8(s)) % 360
}

/// The hue, from 0 up to 360, of the icon that stands for a site by this name.
pub fn favicon_hue(s: &str) -> (r: u32)
    ensures
        r == hue(s@),
        r < 360,
{
    let bytes: &[u8] = s.as_bytes();
    let mut h: u32 = 2166136261;
    let mut i: usize = 0;
    while i < bytes.len()
        invariant
            i <= bytes@.len(),
            h == fnv1a(bytes@.take(i as int)),
        decreases bytes@.len() - i,
    {
        assert(bytes@.take(i + 1).drop_last() =~= bytes@.take(i as int));
        h = (h ^ (bytes[i] as u32)).wrapping_mul(16777619);
        i = i + 1;
    }
    assert(bytes@.take(bytes@.len() as int) =~= bytes@);
    h % 360
}

// ---------------------------------------------------------------------------
// Laws
// ---------------------------------------------------------------------------

/// In a query string letters, digits and four marks stand for themselves, a plus sign for a space, and
/// any other byte is written as a percent sign and two capital hexadecimal digits of its value; the
/// bytes keep their order.
pub proof fn query_strings_keep_their_bytes(b: Seq<u8>, x: u8)
    ensures
        query_bytes(Seq::empty()).len() == 0,
        query_bytes(b.push(x)).take(query_bytes(b).len() as int) == query_bytes(b),
        ('a' as u8 <= x <= 'z' as u8 || 'A' as u8 <= x <= 'Z' as u8 || '0' as u8 <= x <= '9' as u8 || x
            == '-' as u8 || x == '_' as u8 || x == '.' as u8 || x == '~' as u8) ==> query_bytes(
            b.push(x),
        ) == query_bytes(b).push(x as char),
        x == ' ' as u8 ==> query_bytes(b.push(x)) == query_bytes(b).push('+'),
        !('a' as u8 <= x <= 'z' as u8 || 'A' as u8 <= x <= 'Z' as u8 || '0' as u8 <= x <= '9' as u8 || x
            == '-' as u8 || x == '_' as u8 || x == '.' as u8 || x == '~' as u8 || x == ' ' as u8) ==> {
            let r = query_bytes(b.push(x));
            let n = query_bytes(b).len() as int;
            &&& r.len() == n + 3
            &&& r[n] == '%'
            &&& number::read_hex_pair(r[n + 1], r[n + 2]) == Some(x as nat)
            &&& !('a' <= r[n + 1] <= 'z')
            &&& !('a' <= r[n + 2] <= 'z')
        },
{
    assert(b.push(x).drop_last() =~= b);
    assert(query_bytes(b.push(x)) == query_bytes(b) + query_byte(x));
    assert(query_bytes(b) + seq![x as char] =~= query_bytes(b).push(x as char));
    assert(query_bytes(b) + seq!['+'] =~= query_bytes(b).push('+'));
    assert((query_bytes(b) + query_byte(x)).take(query_bytes(b).len() as int) =~= query_bytes(b));
    let h = x as nat / 16;
    let l = x as nat % 16;
    assert(h < 16 && l < 16 && h * 16 + l == x);
    let a = number::capital_hex_digit(h);
    let z = number::capital_hex_digit(l);
    assert(number::is_hex_digit(a) && number::hex_value(a) == h && !('a' <= a <= 'z'));
    assert(number::is_hex_digit(z) && number::hex_value(z) == l && !('a' <= z <= 'z'));
}

/// Each character of a text is written for a page in its turn: the four special ones by their names
/// and any other as it is.
pub proof fn pages_name_the_special_characters(s: Seq<char>, c: char)
    ensures
        html(Seq::empty()).len() == 0,
        html(s.push('&')) == html(s) + "&amp;"@,
        html(s.push('<')) == html(s) + "&lt;"@,
        html(s.push('>')) == html(s) + "&gt;"@,
        html(s.push('"')) == html(s) + "&quot;"@,
        c != '&' && c != '<' && c != '>' && c != '"' ==> html(s.push(c)) == html(s).push(c),
{
    let f = |c: char| html_char(c);
    text::lemma_spelled_push(s, '&', f);
    text::lemma_spelled_push(s, '<', f);
    text::lemma_spelled_push(s, '>', f);
    text::lemma_spelled_push(s, '"', f);
    text::lemma_spelled_push(s, c, f);
    assert(html(s) + seq![c] =~= html(s).push(c));
}

/// A cell has a space for each tab and newline, and every other character of its text in its place.
pub proof fn cells_keep_their_text(s: Seq<char>, i: int)
    requires
        0 <= i < s.len(),
    ensures
        cell(s).len() == s.len(),
        s[i] == '\t' || s[i] == '\n' ==> cell(s)[i] == ' ',
        s[i] != '\t' && s[i] != '\n' ==> cell(s)[i] == s[i],
{
}

/// A label that fits stays whole; one that does not keeps as much of its beginning as leaves room for
/// the ellipsis.
pub proof fn labels_that_fit_stay_whole(s: Seq<char>, max: nat)
    ensures
        s.len() <= max ==> shortened(s, max) == s,
        s.len() > max > 0 ==> shortened(s, max) == s.take(max - 1) + seq!['…'],
        s.len() > max && max == 0 ==> shortened(s, max).len() == 0,
{
    if s.len() > max && max > 0 {
        assert(s.take(max - 1).push('…') =~= s.take(max - 1) + seq!['…']);
    }
}

/// A colour is its three channels, in order, two hexadecimal digits each, behind one mark or any number
/// of them; white space round it does not count.
pub proof fn colours_are_read_by_their_channels(
    before: Seq<char>,
    d: Seq<char>,
    after: Seq<char>,
    marks: nat,
)
    requires
        d.len() == 6,
        forall|i: int| 0 <= i < 6 ==> number::is_hex_digit(#[trigger] d[i]),
        forall|i: int| 0 <= i < before.len() ==> text::is_space(#[trigger] before[i]),
        forall|i: int| 0 <= i < after.len() ==> text::is_space(#[trigger] after[i]),
    ensures
        read_colour(before + (Seq::new(marks, |i: int| '#') + d) + after) == Some(
            (Rgb {
                red: (number::hex_value(d[0]) * 16 + number::hex_value(d[1])) as u8,
                green: (number::hex_value(d[2]) * 16 + number::hex_value(d[3])) as u8,
                blue: (number::hex_value(d[4]) * 16 + number::hex_value(d[5])) as u8,
            }),
        ),
{
    let m = Seq::new(marks, |i: int| '#');
    let s = m + d;
    assert(s.last() == d[5]);
    if marks > 0 {
        assert(s[0] == '#');
    } else {
        assert(s[0] == d[0]);
    }
    text::white_space_round_a_text_goes(before, s, after);
    lemma_marks_go(marks, d);
}

proof fn lemma_marks_go(marks: nat, d: Seq<char>)
    requires
        d.len() > 0 ==> d[0] != '#',
    ensures
        text::without_leading(Seq::new(marks, |i: int| '#') + d, seq!['#']) == d,
    decreases marks,
{
    let s = Seq::new(marks, |i: int| '#') + d;
    let p = seq!['#'];
    if marks > 0 {
        lemma_marks_go((marks - 1) as nat, d);
        assert(s[0] == '#');
        assert(p.is_prefix_of(s)) by {
            assert(p =~= s.subrange(0, 1));
        }
        assert(s.skip(1) =~= Seq::new((marks - 1) as nat, |i: int| '#') + d);
    } else {
        assert(s =~= d);
        if p.is_prefix_of(d) {
            assert(p[0] == d[0]);
        }
    }
}

/// The hue of an icon is a fixed function of the name's bytes: they are folded in one after the other,
/// each by an exclusive or and a multiplication, and the outcome is taken round the circle.
pub proof fn hues_are_hashed(s: Seq<char>, b: Seq<u8>, x: u8)
    ensures
        hue(s) < 360,
        fnv1a(Seq::empty()) == 0x811c9dc5u32,
        fnv1a(b.push(x)) as int == ((fnv1a(b) ^ (x as u32)) as int * 0x01000193) % 0x1_0000_0000,
{
    assert(b.push(x).drop_last() =~= b);
}

} // verus!

//! Numbers as text: decimal and hexadecimal, written and read.

use vstd::prelude::*;

use crate::text;

verus! {

// ---------------------------------------------------------------------------
// Specifications
// ---------------------------------------------------------------------------

/// The decimal digit for a value below ten.
pub open spec fn digit(d: nat) -> char {
    ((48 + d) as u32) as char
}

pub open spec fn is_digit(c: char) -> bool {
    '0' <= c <= '9'
}

pub open spec fn digit_value(c: char) -> nat {
    (c as u32 - 48) as nat
}

/// `n` in decimal, without leading zeros.
pub open spec fn decimal(n: nat) -> Seq<char>
    decreases n,
{
    if n < 10 {
        seq![digit(n)]
    } else {
        decimal(n / 10).push(digit(n % 10))
    }
}

/// `n` in decimal, with a minus sign if it is negative.
pub open spec fn signed_decimal(n: int) -> Seq<char> {
    if n < 0 {
        seq!['-'] + decimal((-n) as nat)
    } else {
        decimal(n as nat)
    }
}

pub open spec fn all_digits(s: Seq<char>) -> bool {
    forall|i: int| 0 <= i < s.len() ==> is_digit(#[trigger] s[i])
}

/// The number that a row of digits stands for.
pub open spec fn digits_value(s: Seq<char>) -> nat
    decreases s.len(),
{
    if s.len() == 0 {
        0
    } else {
        digits_value(s.drop_last()) * 10 + digit_value(s.last())
    }
}

/// The number that a non-empty row of digits stands for.
pub open spec fn read_digits(s: Seq<char>) -> Option<nat> {
    if s.len() > 0 && all_digits(s) {
        Some(digits_value(s))
    } else {
        None
    }
}

/// `s` read as a number from 0 to `max`: digits, with at most one plus sign in front.
pub open spec fn read_unsigned(s: Seq<char>, max: nat) -> Option<nat> {
    let body = if s.len() > 0 && s[0] == '+' {
        s.skip(1)
    } else {
        s
    };
    match read_digits(body) {
        Some(n) => if n <= max {
            Some(n)
        } else {
            None
        },
        None => None,
    }
}

/// `s` read as a 64-bit signed number: digits, with at most one sign in front.
pub open spec fn read_signed(s: Seq<char>) -> Option<int> {
    if s.len() > 0 && s[0] == '-' {
        match read_digits(s.skip(1)) {
            Some(n) => if n <= 0x8000_0000_0000_0000 {
                Some(-(n as int))
            } else {
                None
            },
            None => None,
        }
    } else {
        match read_unsigned(s, 0x7fff_ffff_ffff_ffff) {
            Some(n) => Some(n as int),
            None => None,
        }
    }
}

/// The small hexadecimal digit for a value below sixteen.
pub open spec fn hex_digit(d: nat) -> char {
    if d < 10 {
        digit(d)
    } else {
        ((87 + d) as u32) as char
    }
}

/// The capital hexadecimal digit for a value below sixteen.
pub open spec fn capital_hex_digit(d: nat) -> char {
    if d < 10 {
        digit(d)
    } else {
        ((55 + d) as u32) as char
    }
}

/// A byte as two small hexadecimal digits.
pub open spec fn hex_byte(b: u8) -> Seq<char> {
    seq![hex_digit(b as nat / 16), hex_digit(b as nat % 16)]
}

/// The `n` low hexadecimal digits of `v`, most significant first.
pub open spec fn hex_padded(v: nat, n: nat) -> Seq<char>
    decreases n,
{
    if n == 0 {
        Seq::empty()
    } else {
        hex_padded(v / 16, (n - 1) as nat).push(hex_digit(v % 16))
    }
}

pub open spec fn is_hex_digit(c: char) -> bool {
    '0' <= c <= '9' || 'a' <= c <= 'f' || 'A' <= c <= 'F'
}

pub open spec fn hex_value(c: char) -> nat {
    if c <= '9' {
        (c as u32 - 48) as nat
    } else if c <= 'F' {
        (c as u32 - 55) as nat
    } else {
        (c as u32 - 87) as nat
    }
}

/// Two characters read as a hexadecimal byte.
pub open spec fn read_hex_pair(a: char, b: char) -> Option<nat> {
    if is_hex_digit(a) && is_hex_digit(b) {
        Some(hex_value(a) * 16 + hex_value(b))
    } else {
        None
    }
}

// ---------------------------------------------------------------------------
// Facts
// ---------------------------------------------------------------------------

/// A decimal is a non-empty row of digits that stands for the number it was written from.
pub proof fn lemma_decimal(n: nat)
    ensures
        decimal(n).len() > 0,
        all_digits(decimal(n)),
        digits_value(decimal(n)) == n,
    decreases n,
{
    if n < 10 {
        assert(decimal(n).drop_last() =~= Seq::<char>::empty());
        assert(digits_value(decimal(n).drop_last()) == 0);
    } else {
        lemma_decimal(n / 10);
        assert(decimal(n).drop_last() =~= decimal(n / 10));
        assert(n == (n / 10) * 10 + n % 10);
    }
}

/// What is written as a decimal is read back.
pub proof fn lemma_read_decimal(n: nat, max: nat)
    requires
        n <= max,
    ensures
        read_unsigned(decimal(n), max) == Some(n),
{
    lemma_decimal(n);
    assert(is_digit(decimal(n)[0]));
}

/// What is written as a signed decimal is read back, for every 64-bit number.
pub proof fn lemma_read_signed_decimal(n: i64)
    ensures
        read_signed(signed_decimal(n as int)) == Some(n as int),
{
    if n < 0 {
        let m = (-(n as int)) as nat;
        lemma_decimal(m);
        assert(signed_decimal(n as int).skip(1) =~= decimal(m));
    } else {
        lemma_decimal(n as nat);
        assert(is_digit(decimal(n as nat)[0]));
        lemma_read_decimal(n as nat, 0x7fff_ffff_ffff_ffff);
    }
}

/// A signed decimal is made of digits and the minus sign.
pub proof fn lemma_signed_decimal_chars(n: int)
    ensures
        signed_decimal(n).len() > 0,
        forall|i: int|
            0 <= i < signed_decimal(n).len() ==> is_digit(#[trigger] signed_decimal(n)[i])
                || signed_decimal(n)[i] == '-',
{
    if n < 0 {
        lemma_decimal((-n) as nat);
        assert forall|i: int| 0 <= i < signed_decimal(n).len() implies is_digit(
            #[trigger] signed_decimal(n)[i],
        ) || signed_decimal(n)[i] == '-' by {
            if i > 0 {
                assert(signed_decimal(n)[i] == decimal((-n) as nat)[i - 1]);
            }
        }
    } else {
        lemma_decimal(n as nat);
    }
}

/// A longer row of digits stands for no smaller a number.
proof fn lemma_digits_value_grows(s: Seq<char>, i: int)
    requires
        0 <= i <= s.len(),
    ensures
        digits_value(s.take(i)) <= digits_value(s),
    decreases s.len(),
{
    if i < s.len() {
        lemma_digits_value_grows(s.drop_last(), i);
        assert(s.drop_last().take(i) =~= s.take(i));
        assert(digits_value(s.drop_last()) <= digits_value(s));
    } else {
        assert(s.take(i) =~= s);
    }
}

/// A byte's two digits are read back as the byte.
pub proof fn lemma_read_hex_byte(b: u8)
    ensures
        read_hex_pair(hex_byte(b)[0], hex_byte(b)[1]) == Some(b as nat),
        is_hex_digit(hex_byte(b)[0]),
        is_hex_digit(hex_byte(b)[1]),
{
    let h = b as nat / 16;
    let l = b as nat % 16;
    assert(h < 16 && l < 16);
    assert(h * 16 + l == b as nat);
    lemma_hex_digit(h);
    lemma_hex_digit(l);
}

proof fn lemma_hex_digit(d: nat)
    requires
        d < 16,
    ensures
        is_hex_digit(hex_digit(d)),
        hex_value(hex_digit(d)) == d,
{
}

/// `hex_padded` has the length asked for and holds hexadecimal digits alone.
pub proof fn lemma_hex_padded(v: nat, n: nat)
    ensures
        hex_padded(v, n).len() == n,
        forall|i: int| 0 <= i < n ==> is_hex_digit(#[trigger] hex_padded(v, n)[i]),
    decreases n,
{
    if n > 0 {
        lemma_hex_padded(v / 16, (n - 1) as nat);
        lemma_hex_digit(v % 16);
    }
}

// ---------------------------------------------------------------------------
// Executable operations
// ---------------------------------------------------------------------------

/// `n` in decimal.
pub fn decimal_string(n: u64) -> (r: String)
    ensures
        r@ == decimal(n as nat),
    decreases n,
{
    if n < 10 {
        let mut out: String = String::new();
        out.push((48u8 + n as u8) as char);
        assert(out@ =~= decimal(n as nat));
        out
    } else {
        let mut out: String = decimal_string(n / 10);
        out.push((48u8 + (n % 10) as u8) as char);
        out
    }
}

/// `n` in decimal, with its sign.
pub fn signed_string(n: i64) -> (r: String)
    ensures
        r@ == signed_decimal(n as int),
{
    if n < 0 {
        let m: u64 = (-(n + 1)) as u64 + 1;
        let mut out: String = String::new();
        out.push('-');
        out.append(decimal_string(m).as_str());
        assert(out@ =~= signed_decimal(n as int));
        out
    } else {
        decimal_string(n as u64)
    }
}

/// The number that the digits of `v` from `from` on stand for, if they are digits, at least one,
/// and the number is no greater than `max`.
fn read_digits_from(v: &Vec<char>, from: usize, max: u64) -> (r: Option<u64>)
    requires
        from <= v@.len(),
    ensures
        match read_digits(v@.skip(from as int)) {
            Some(n) => if n <= max {
                r == Some(n as u64)
            } else {
                r is None
            },
            None => r is None,
        },
{
    let ghost body = v@.skip(from as int);
    if from == v.len() {
        return None;
    }
    let mut n: u64 = 0;
    let mut i: usize = from;
    assert(body.take(0) =~= Seq::<char>::empty());
    while i < v.len()
        invariant
            from <= i <= v@.len(),
            body == v@.skip(from as int),
            n == digits_value(body.take(i - from)),
            n <= max,
            forall|j: int| 0 <= j < i - from ==> is_digit(#[trigger] body[j]),
        decreases v@.len() - i,
    {
        let c: char = v[i];
        assert(body[i - from] == c);
        if c < '0' || c > '9' {
            return None;
        }
        let d: u64 = (c as u32 - 48) as u64;
        let ghost longer = body.take(i - from + 1);
        proof {
            assert(longer.drop_last() =~= body.take(i - from));
            lemma_digits_value_grows(body, i - from + 1);
        }
        if n > max / 10 {
            assert(n * 10 > max) by {
                assert(n >= max / 10 + 1);
                assert(max < (max / 10) * 10 + 10);
            }
            return None;
        }
        assert(n * 10 <= max);
        if d > max - n * 10 {
            return None;
        }
        n = n * 10 + d;
        i = i + 1;
    }
    assert(body.take(v@.len() - from) =~= body);
    Some(n)
}

/// `s` read as a number from 0 to `max`.
pub fn parse_unsigned(s: &str, max: u64) -> (r: Option<u64>)
    ensures
        match read_unsigned(s@, max as nat) {
            Some(n) => r == Some(n as u64) && n <= max,
            None => r is None,
        },
{
    let v: Vec<char> = text::chars_of(s);
    if v.len() > 0 && v[0] == '+' {
        read_digits_from(&v, 1, max)
    } else {
        assert(v@.skip(0) =~= v@);
        read_digits_from(&v, 0, max)
    }
}

/// `s` read as a signed number.
pub fn parse_signed(s: &str) -> (r: Option<i64>)
    ensures
        match read_signed(s@) {
            Some(n) => r == Some(n as i64) && i64::MIN <= n <= i64::MAX,
            None => r is None,
        },
{
    let v: Vec<char> = text::chars_of(s);
    if v.len() > 0 && v[0] == '-' {
        match read_digits_from(&v, 1, 0x8000_0000_0000_0000u64) {
            Some(n) => {
                if n == 0x8000_0000_0000_0000u64 {
                    Some(i64::MIN)
                } else {
                    Some(-(n as i64))
                }
            },
            None => None,
        }
    } else {
        match parse_unsigned(s, 0x7fff_ffff_ffff_ffffu64) {
            Some(n) => Some(n as i64),
            None => None,
        }
    }
}

/// The small hexadecimal digit for a value below sixteen.
pub fn hex_digit_char(d: u8) -> (r: char)
    requires
        d < 16,
    ensures
        r == hex_digit(d as nat),
{
    if d < 10 {
        (48u8 + d) as char
    } else {
        (87u8 + d) as char
    }
}

/// The capital hexadecimal digit for a value below sixteen.
pub fn capital_hex_digit_char(d: u8) -> (r: char)
    requires
        d < 16,
    ensures
        r == capital_hex_digit(d as nat),
{
    if d < 10 {
        (48u8 + d) as char
    } else {
        (55u8 + d) as char
    }
}

/// `v` as sixteen hexadecimal digits.
pub fn hex16(v: u64) -> (r: String)
    ensures
        r@ == hex_padded(v as nat, 16),
{
    hex_digits(v, 16)
}

fn hex_digits(v: u64, n: u8) -> (r: String)
    ensures
        r@ == hex_padded(v as nat, n as nat),
    decreases n,
{
    if n == 0 {
        String::new()
    } else {
        let mut out: String = hex_digits(v / 16, n - 1);
        out.push(hex_digit_char((v % 16) as u8));
        out
    }
}

/// Is `c` a hexadecimal digit?
pub fn is_hex_char(c: char) -> (r: bool)
    ensures
        r == is_hex_digit(c),
{
    ('0' <= c && c <= '9') || ('a' <= c && c <= 'f') || ('A' <= c && c <= 'F')
}

fn hex_char_value(c: char) -> (r: u8)
    requires
        is_hex_digit(c),
    ensures
        r == hex_value(c),
        r < 16,
{
    let u: u32 = c as u32;
    if c <= '9' {
        (u - 48) as u8
    } else if c <= 'F' {
        (u - 55) as u8
    } else {
        (u - 87) as u8
    }
}

/// Two characters read as a hexadecimal byte.
pub fn parse_hex_pair(a: char, b: char) -> (r: Option<u8>)
    ensures
        match read_hex_pair(a, b) {
            Some(n) => r == Some(n as u8) && n < 256,
            None => r is None,
        },
{
    if is_hex_char(a) && is_hex_char(b) {
        Some(hex_char_value(a) * 16 + hex_char_value(b))
    } else {
        None
    }
}

// ---------------------------------------------------------------------------
// Laws
// ---------------------------------------------------------------------------

/// A number is read from its digits, the first of which weighs the most; a plus sign before them does
/// not count. What is empty, holds anything else, or is too large is no number.
pub proof fn numbers_are_read_by_their_digits(s: Seq<char>, d: char, max: nat)
    ensures
        digits_value(Seq::empty()) == 0,
        '0' <= d <= '9' ==> digits_value(s.push(d)) == 10 * digits_value(s) + (d as u32 - '0' as u32),
        s.len() > 0 && all_digits(s) && digits_value(s) <= max ==> read_unsigned(s, max) == Some(
            digits_value(s),
        ) && read_unsigned(seq!['+'] + s, max) == Some(digits_value(s)),
        s.len() > 0 && all_digits(s) && digits_value(s) > max ==> read_unsigned(s, max) is None,
        s.len() == 0 ==> read_unsigned(s, max) is None,
        forall|i: int| 1 <= i < s.len() && !('0' <= #[trigger] s[i] <= '9') ==> read_unsigned(s, max) is None,
        s.len() > 0 && s[0] != '+' && !('0' <= s[0] <= '9') ==> read_unsigned(s, max) is None,
{
    assert(s.push(d).drop_last() =~= s);
    assert((seq!['+'] + s).skip(1) =~= s);
    if s.len() > 0 && all_digits(s) {
        assert(is_digit(s[0]));
    }
    assert forall|i: int| 1 <= i < s.len() && !('0' <= #[trigger] s[i] <= '9') implies read_unsigned(
        s,
        max,
    ) is None by {
        assert(s.skip(1)[i - 1] == s[i]);
        if s[0] == '+' {
            assert(!is_digit(s.skip(1)[i - 1]));
        } else {
            assert(!is_digit(s[i]));
        }
    }
}

} // verus!

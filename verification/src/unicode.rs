//! Letters beyond ASCII: the parts of Unicode that the browser reads from the standard library.

use vstd::prelude::*;
use vstd::string::*;

use crate::text;

verus! {

/// What `str::to_lowercase` makes of a text.
pub uninterp spec fn lowercase(s: Seq<char>) -> Seq<char>;

/// Makes every letter small with `str::to_lowercase`, by Unicode's rules. The result depends on
/// the text alone.
#[verifier::external_body]
pub(crate) fn to_lowercase(s: &str) -> (r: String)
    ensures
        r@ == lowercase(s@),
{
    s.to_lowercase()
}

/// What `char::to_uppercase` makes of a character.
pub uninterp spec fn uppercase(c: char) -> Seq<char>;

/// Makes a letter a capital with `char::to_uppercase`, by Unicode's rules. The result depends on
/// the character alone.
#[verifier::external_body]
fn to_uppercase(c: char) -> (r: String)
    ensures
        r@ == uppercase(c),
{
    c.to_uppercase().to_string()
}

/// Whether `char::is_alphanumeric` holds of a character.
pub uninterp spec fn alphanumeric(c: char) -> bool;

/// Is this a letter or a digit? By `char::is_alphanumeric`, which goes by Unicode's rules. The
/// result depends on the character alone; ASCII letters and digits are among those for which it
/// holds.
#[verifier::external_body]
fn is_alphanumeric(c: char) -> (r: bool)
    ensures
        r == alphanumeric(c),
        ('a' <= c <= 'z' || 'A' <= c <= 'Z' || '0' <= c <= '9') ==> r,
{
    c.is_alphanumeric()
}

/// The first letter or digit of a text.
pub open spec fn first_letter(s: Seq<char>) -> Option<char>
    decreases s.len(),
{
    if s.len() == 0 {
        None
    } else if alphanumeric(s[0]) {
        Some(s[0])
    } else {
        first_letter(s.skip(1))
    }
}

/// The letter on a generated icon: the first letter or digit of the name, made a capital where
/// asked for, or a dot where there is none.
pub open spec fn icon_letter(s: Seq<char>, capital: bool) -> Seq<char> {
    match first_letter(s) {
        Some(c) => if capital {
            uppercase(c)
        } else {
            seq![c]
        },
        None => "•"@,
    }
}

/// The first letter or digit of a text.
pub fn find_letter(s: &str) -> (r: Option<char>)
    ensures
        r == first_letter(s@),
{
    let v: Vec<char> = text::chars_of(s);
    let mut i: usize = 0;
    assert(v@.skip(0) =~= v@);
    while i < v.len()
        invariant
            i <= v@.len(),
            v@ == s@,
            first_letter(s@) == first_letter(v@.skip(i as int)),
        decreases v@.len() - i,
    {
        assert(v@.skip(i as int)[0] == v@[i as int]);
        if is_alphanumeric(v[i]) {
            return Some(v[i]);
        }
        assert(v@.skip(i as int).skip(1) =~= v@.skip(i + 1));
        i = i + 1;
    }
    None
}

/// The letter on a generated icon.
pub fn letter_for(s: &str, capital: bool) -> (r: String)
    ensures
        r@ == icon_letter(s@, capital),
{
    match find_letter(s) {
        Some(c) => {
            if capital {
                to_uppercase(c)
            } else {
                let mut out: String = String::new();
                out.push(c);
                assert(out@ =~= seq![c]);
                out
            }
        },
        None => "•".to_owned(),
    }
}

/// The first character of a text as a capital, or nothing.
pub open spec fn first_capital(s: Seq<char>) -> Seq<char> {
    if s.len() == 0 {
        Seq::empty()
    } else {
        uppercase(s[0])
    }
}

/// The first character of a text as a capital, or nothing.
pub fn capital(s: &str) -> (r: String)
    ensures
        r@ == first_capital(s@),
{
    let v: Vec<char> = text::chars_of(s);
    if v.len() == 0 {
        let out: String = String::new();
        assert(out@ =~= Seq::<char>::empty());
        out
    } else {
        to_uppercase(v[0])
    }
}

// ---------------------------------------------------------------------------
// Laws
// ---------------------------------------------------------------------------

/// The first letter or digit of a text is found: there is none before it, and where there is none at
/// all nothing is found. An icon shows that letter, as a capital where asked for, and else a dot.
pub proof fn the_first_letter_is_found(s: Seq<char>, i: int)
    ensures
        0 <= i < s.len() && alphanumeric(s[i]) && (forall|j: int| 0 <= j < i ==> !alphanumeric(#[trigger] s[j]))
            ==> first_letter(s) == Some(s[i]) && icon_letter(s, false) == seq![s[i]] && icon_letter(s, true)
            == uppercase(s[i]),
        (forall|j: int| 0 <= j < s.len() ==> !alphanumeric(#[trigger] s[j])) ==> first_letter(s) is None
            && icon_letter(s, true) == "•"@ && icon_letter(s, false) == "•"@,
    decreases s.len(),
{
    if s.len() > 0 && !alphanumeric(s[0]) {
        let t = s.skip(1);
        the_first_letter_is_found(t, i - 1);
        assert forall|j: int| 0 <= j < t.len() implies #[trigger] t[j] == s[j + 1] by {}
    }
}

} // verus!

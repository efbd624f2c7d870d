//! Character and string helpers shared by the rest of the crate.

use vstd::prelude::*;

verus! {

/// What `char::is_alphanumeric` answers for a character.
pub uninterp spec fn char_is_alphanumeric(c: char) -> bool;

/// What `char::to_uppercase` yields for a character.
pub uninterp spec fn char_to_uppercase(c: char) -> Seq<char>;

/// An ASCII letter or digit.
pub open spec fn is_ascii_alphanumeric(c: char) -> bool {
    ('a' <= c && c <= 'z') || ('A' <= c && c <= 'Z') || ('0' <= c && c <= '9')
}

/// Calls `char::is_alphanumeric`: whether `c` is alphabetic or numeric in
/// Unicode. On ASCII characters that is exactly the ASCII letters and digits.
#[verifier::external_body]
pub(crate) fn is_alphanumeric(c: char) -> (b: bool)
    ensures
        b == char_is_alphanumeric(c),
        c <= '\x7f' ==> (b <==> is_ascii_alphanumeric(c)),
{
    c.is_alphanumeric()
}

/// Calls `char::to_uppercase` and collects the characters it yields. An ASCII
/// lower-case letter maps to its upper-case letter; any other ASCII character
/// maps to itself.
#[verifier::external_body]
pub(crate) fn to_uppercase(c: char) -> (s: String)
    ensures
        s@ == char_to_uppercase(c),
        'a' <= c && c <= 'z' ==> s@ == seq![((c as u32) - 32) as char],
        c <= '\x7f' && !('a' <= c && c <= 'z') ==> s@ == seq![c],
{
    c.to_uppercase().collect::<String>()
}

/// Calls `String::push`, which appends one character.
#[verifier::external_body]
pub(crate) fn push_char(s: &mut String, c: char)
    ensures
        final(s)@ == old(s)@.push(c),
{
    s.push(c)
}

/// Appends a string slice.
pub(crate) fn push_str(s: &mut String, t: &str)
    ensures
        final(s)@ == old(s)@ + t@,
{
    s.append(t)
}

/// The characters of `s`, in order.
pub fn chars_of(s: &str) -> (v: Vec<char>)
    ensures
        v@ == s@,
{
    let mut v: Vec<char> = Vec::new();
    for c in it: s.chars()
        invariant
            v@ == it.seq().take(it.index() as int),
            it.seq() == s@,
    {
        v.push(c);
    }
    v
}

/// A string holding the characters of `s`.
pub fn owned(s: &str) -> (r: String)
    ensures
        r@ == s@,
{
    let mut r = String::new();
    push_str(&mut r, s);
    r
}

/// The ASCII lower-case counterpart of a character (non-ASCII-letters unchanged).
pub open spec fn ascii_lower_char(c: char) -> char {
    if 'A' <= c && c <= 'Z' {
        ((c as u32) + 32) as char
    } else {
        c
    }
}

/// The ASCII lower-case form of a string, as `str::to_ascii_lowercase` gives it.
pub open spec fn ascii_lowercase(s: Seq<char>) -> Seq<char> {
    s.map_values(|c: char| ascii_lower_char(c))
}

/// Returns `s` with each ASCII upper-case letter replaced by its lower-case
/// letter; all other characters are kept.
pub fn to_ascii_lowercase(s: &str) -> (r: String)
    ensures
        r@ == ascii_lowercase(s@),
{
    let cs = chars_of(s);
    let mut r = String::new();
    let mut i: usize = 0;
    while i < cs.len()
        invariant
            i <= cs@.len(),
            cs@ == s@,
            r@ == ascii_lowercase(s@.take(i as int)),
        decreases cs@.len() - i,
    {
        let c = cs[i];
        let l = if 'A' <= c && c <= 'Z' {
            let code: u32 = (c as u32) + 32;
            char_from_ascii(code)
        } else {
            c
        };
        push_char(&mut r, l);
        assert(s@.take(i + 1) == s@.take(i as int).push(c));
        i = i + 1;
    }
    assert(s@.take(s@.len() as int) == s@);
    r
}

/// The character with the given code, for codes below 128.
fn char_from_ascii(code: u32) -> (c: char)
    requires
        code < 128,
    ensures
        c == code as char,
{
    let b: u8 = code as u8;
    b as char
}

/// Whether two strings hold the same characters.
pub fn same_text(a: &str, b: &str) -> (eq: bool)
    ensures
        eq == (a@ == b@),
{
    let x = chars_of(a);
    let y = chars_of(b);
    if x.len() != y.len() {
        return false;
    }
    let mut i: usize = 0;
    while i < x.len()
        invariant
            x@ == a@,
            y@ == b@,
            x@.len() == y@.len(),
            i <= x@.len(),
            forall|k: int| 0 <= k < i ==> x@[k] == y@[k],
        decreases x@.len() - i,
    {
        if x[i] != y[i] {
            return false;
        }
        i = i + 1;
    }
    assert(x@ == y@);
    true
}

/// The decimal digit character for `d` (below ten).
pub open spec fn digit_char(d: nat) -> char {
    ((48 + d) as u8) as char
}

/// The decimal representation of `n`, without leading zeros.
pub open spec fn spec_decimal(n: nat) -> Seq<char>
    decreases n,
{
    if n < 10 {
        seq![digit_char(n)]
    } else {
        spec_decimal(n / 10) + seq![digit_char(n % 10)]
    }
}

/// The decimal representation of `n`, as `u16::to_string` gives it.
pub fn decimal(n: u16) -> (s: String)
    ensures
        s@ == spec_decimal(n as nat),
    decreases n,
{
    let d: u8 = (n % 10) as u8;
    let c: char = (48u8 + d) as char;
    if n < 10 {
        let mut s = String::new();
        push_char(&mut s, c);
        s
    } else {
        let mut s = decimal(n / 10);
        push_char(&mut s, c);
        s
    }
}

} // verus!

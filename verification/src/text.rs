//! Comparisons of texts, character by character.
use vstd::prelude::*;

verus! {

/// The text of an optional string.
pub open spec fn text_of(s: Option<String>) -> Option<Seq<char>> {
    match s {
        Some(s) => Some(s@),
        None => None,
    }
}

/// The text of an optional string slice.
pub open spec fn str_text_of(s: Option<&str>) -> Option<Seq<char>> {
    match s {
        Some(s) => Some(s@),
        None => None,
    }
}

/// Tells whether `part` stands in `s` from the character with number `start` on.
fn stands_at(s: &str, start: usize, part: &str) -> (r: bool)
    requires
        start + part@.len() <= s@.len(),
    ensures
        r == (s@.subrange(start as int, start + part@.len()) == part@),
{
    let total: usize = s.unicode_len();
    let len: usize = part.unicode_len();
    let mut k: usize = 0;
    let ghost section = s@.subrange(start as int, start + part@.len());
    while k < len
        invariant
            k <= len,
            len == part@.len(),
            total == s@.len(),
            start + len <= total,
            section == s@.subrange(start as int, start + part@.len()),
            forall|i: int| 0 <= i < k ==> section[i] == part@[i],
        decreases len - k,
    {
        if s.get_char(start + k) != part.get_char(k) {
            assert(section[k as int] != part@[k as int]);
            return false;
        }
        k = k + 1;
    }
    assert(section =~= part@);
    true
}

pub fn starts_with(s: &str, prefix: &str) -> (r: bool)
    ensures
        r == prefix@.is_prefix_of(s@),
{
    if prefix.unicode_len() > s.unicode_len() {
        return false;
    }
    stands_at(s, 0, prefix)
}

pub fn ends_with(s: &str, suffix: &str) -> (r: bool)
    ensures
        r == suffix@.is_suffix_of(s@),
{
    let total: usize = s.unicode_len();
    let len: usize = suffix.unicode_len();
    if len > total {
        return false;
    }
    stands_at(s, total - len, suffix)
}

pub fn same_text(a: &str, b: &str) -> (r: bool)
    ensures
        r == (a@ == b@),
{
    if a.unicode_len() != b.unicode_len() {
        return false;
    }
    assert(a@.subrange(0, b@.len() as int) =~= a@);
    stands_at(a, 0, b)
}

/// `c` as a lower case letter, if it is an upper case letter of the ASCII alphabet.
pub open spec fn ascii_lower(c: char) -> char {
    if 'A' <= c && c <= 'Z' {
        (c as u32 + 32) as char
    } else {
        c
    }
}

/// The texts differ at most in the case of ASCII letters.
pub open spec fn same_ignoring_case(a: Seq<char>, b: Seq<char>) -> bool {
    &&& a.len() == b.len()
    &&& forall|i: int| 0 <= i < a.len() ==> ascii_lower(#[trigger] a[i]) == ascii_lower(b[i])
}

/// Compares two characters without regard to the case of ASCII letters.
fn same_letter(a: char, b: char) -> (r: bool)
    ensures
        r == (ascii_lower(a) == ascii_lower(b)),
{
    let a = a as u32;
    let b = b as u32;
    let a_upper = 65 <= a && a <= 90;
    let b_upper = 65 <= b && b <= 90;
    if a_upper == b_upper {
        a == b
    } else if a_upper {
        a + 32 == b
    } else {
        b + 32 == a
    }
}

pub fn eq_ignore_ascii_case(a: &str, b: &str) -> (r: bool)
    ensures
        r == same_ignoring_case(a@, b@),
{
    let len: usize = a.unicode_len();
    if len != b.unicode_len() {
        return false;
    }
    let mut k: usize = 0;
    while k < len
        invariant
            k <= len,
            len == a@.len() == b@.len(),
            forall|i: int| 0 <= i < k ==> ascii_lower(#[trigger] a@[i]) == ascii_lower(b@[i]),
        decreases len - k,
    {
        if !same_letter(a.get_char(k), b.get_char(k)) {
            assert(ascii_lower(a@[k as int]) != ascii_lower(b@[k as int]));
            return false;
        }
        k = k + 1;
    }
    true
}

} // verus!

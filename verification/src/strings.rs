//! Small operations on `str` and `String`, stated over their characters.

use crate::search::{
    contains_seq, find_chars, lemma_first_occurrence, matches_at_char,
    starts_with_seq,
};
use vstd::prelude::*;

verus! {

/// Calls `String::push`: appends `c` to `s`.
#[verifier::external_body]
pub(crate) fn push_char(s: &mut String, c: char)
    ensures
        final(s)@ == old(s)@.push(c),
{
    s.push(c);
}

/// The Unicode scalar values: every code point but the surrogates.
pub open spec fn is_scalar_value(v: u32) -> bool {
    v <= 0x10FFFF && !(0xD800 <= v <= 0xDFFF)
}

/// Calls `char::from_u32`: the character with code point `v`, present
/// exactly when `v` is a Unicode scalar value.
#[verifier::external_body]
pub(crate) fn char_from_u32(v: u32) -> (c: Option<char>)
    ensures
        is_scalar_value(v) ==> c == Some(v as char),
        !is_scalar_value(v) ==> c is None,
{
    char::from_u32(v)
}

/// Appends the characters of `t` to `s`.
pub fn append_str(s: &mut String, t: &str)
    ensures
        final(s)@ == old(s)@ + t@,
{
    let chars = chars_of(t);
    let ghost before = s@;
    let mut k: usize = 0;
    while k < chars.len()
        invariant
            k <= chars@.len(),
            chars@ == t@,
            s@ == before + t@.take(k as int),
        decreases chars@.len() - k,
    {
        push_char(s, chars[k]);
        proof {
            assert(t@.take(k + 1) =~= t@.take(k as int).push(t@[k as int]));
        }
        k += 1;
    }
    assert(t@.take(t@.len() as int) =~= t@);
}

/// The characters of `s`, in order.
pub fn chars_of(s: &str) -> (chars: Vec<char>)
    ensures
        chars@ == s@,
{
    let mut chars: Vec<char> = Vec::new();
    for c in it: s.chars()
        invariant
            chars@ == it.seq().take(it.index() as int),
            it.seq() == s@,
    {
        chars.push(c);
    }
    chars
}

/// `true` when `needle` occurs in `hay`.
pub fn str_contains(hay: &str, needle: &str) -> (b: bool)
    ensures
        b == contains_seq(hay@, needle@),
{
    let h = chars_of(hay);
    let n = chars_of(needle);
    proof {
        lemma_first_occurrence(hay@, needle@);
    }
    find_chars(&h, &n).is_some()
}

/// `true` when `a` and `b` hold the same characters.
pub fn str_eq(a: &str, b: &str) -> (eq: bool)
    ensures
        eq == (a@ == b@),
{
    let a_owned = String::from_str(a);
    let b_owned = String::from_str(b);
    a_owned == b_owned
}

/// `true` when `hay` begins with `prefix`.
pub fn str_starts_with(hay: &str, prefix: &str) -> (b: bool)
    ensures
        b == starts_with_seq(hay@, prefix@),
{
    let h = chars_of(hay);
    let p = chars_of(prefix);
    if p.len() > h.len() {
        return false;
    }
    let r = matches_at_char(&h, &p, 0);
    assert(h@.subrange(0, p@.len() as int) =~= h@.take(p@.len() as int));
    r
}

} // verus!

//! Finding one sequence inside another.

use vstd::prelude::*;

verus! {

/// `needle` occurs in `hay` starting at index `p`.
pub open spec fn occurs_at<T>(hay: Seq<T>, needle: Seq<T>, p: int) -> bool {
    0 <= p && p + needle.len() <= hay.len() && hay.subrange(p, p + needle.len()) == needle
}

/// The first index at or after `p` where `needle` occurs in `hay`.
pub open spec fn first_occurrence_from<T>(hay: Seq<T>, needle: Seq<T>, p: int) -> Option<int>
    decreases hay.len() + 1 - p,
{
    if p < 0 || p + needle.len() > hay.len() {
        None
    } else if occurs_at(hay, needle, p) {
        Some(p)
    } else {
        first_occurrence_from(hay, needle, p + 1)
    }
}

/// The first index where `needle` occurs in `hay` (`Some(0)` for an
/// empty needle).
pub open spec fn first_occurrence<T>(hay: Seq<T>, needle: Seq<T>) -> Option<int> {
    first_occurrence_from(hay, needle, 0)
}

/// `needle` occurs somewhere in `hay`.
pub open spec fn contains_seq<T>(hay: Seq<T>, needle: Seq<T>) -> bool {
    exists|p: int| occurs_at(hay, needle, p)
}

/// `hay` begins with `prefix`.
pub open spec fn starts_with_seq<T>(hay: Seq<T>, prefix: Seq<T>) -> bool {
    prefix.len() <= hay.len() && hay.take(prefix.len() as int) == prefix
}

proof fn lemma_first_occurrence_from<T>(hay: Seq<T>, needle: Seq<T>, p: int)
    requires
        0 <= p,
    ensures
        first_occurrence_from(hay, needle, p) matches Some(q) ==> p <= q && occurs_at(hay, needle, q)
            && forall|r: int| p <= r < q ==> !occurs_at(hay, needle, r),
        first_occurrence_from(hay, needle, p) is None ==> forall|r: int|
            p <= r ==> !occurs_at(hay, needle, r),
    decreases hay.len() + 1 - p,
{
    if p + needle.len() <= hay.len() && !occurs_at(hay, needle, p) {
        lemma_first_occurrence_from(hay, needle, p + 1);
    }
}

/// The first occurrence is the least index where `needle` occurs; there
/// is none exactly when `needle` does not occur at all.
pub proof fn lemma_first_occurrence<T>(hay: Seq<T>, needle: Seq<T>)
    ensures
        first_occurrence(hay, needle) matches Some(q) ==> occurs_at(hay, needle, q) && forall|r: int|
            0 <= r < q ==> !occurs_at(hay, needle, r),
        first_occurrence(hay, needle) is Some <==> contains_seq(hay, needle),
{
    lemma_first_occurrence_from(hay, needle, 0);
    if let Some(q) = first_occurrence(hay, needle) {
        assert(occurs_at(hay, needle, q));
    }
}

/// `hay[p..]` starts with `needle`, for UTF-16 code units.
fn matches_at_u16(hay: &[u16], needle: &[u16], p: usize) -> (b: bool)
    requires
        p + needle@.len() <= hay@.len(),
    ensures
        b == occurs_at(hay@, needle@, p as int),
{
    let hay_len = hay.len();
    let mut j: usize = 0;
    while j < needle.len()
        invariant
            hay_len == hay@.len(),
            p + needle@.len() <= hay@.len(),
            j <= needle@.len(),
            forall|m: int| 0 <= m < j ==> hay@[p + m] == needle@[m],
        decreases needle@.len() - j,
    {
        if hay[p + j] != needle[j] {
            assert(hay@.subrange(p as int, p + needle@.len())[j as int] != needle@[j as int]);
            return false;
        }
        j += 1;
    }
    assert(hay@.subrange(p as int, p + needle@.len()) =~= needle@);
    true
}

/// The first index where `needle` occurs in `hay`; `Some(0)` for an empty
/// needle.
pub fn find_subslice(hay: &[u16], needle: &[u16]) -> (found: Option<usize>)
    ensures
        found matches Some(p) ==> first_occurrence(hay@, needle@) == Some(p as int),
        found is None ==> first_occurrence(hay@, needle@) is None,
{
    if needle.len() > hay.len() {
        return None;
    }
    let last = hay.len() - needle.len();
    let mut p: usize = 0;
    while p < last
        invariant
            last + needle@.len() == hay@.len(),
            p <= last,
            first_occurrence(hay@, needle@) == first_occurrence_from(hay@, needle@, p as int),
        decreases last - p,
    {
        if matches_at_u16(hay, needle, p) {
            return Some(p);
        }
        p += 1;
    }
    if matches_at_u16(hay, needle, p) {
        Some(p)
    } else {
        assert(first_occurrence_from(hay@, needle@, p + 1) is None);
        None
    }
}

/// `hay[p..]` starts with `needle`, for characters.
pub(crate) fn matches_at_char(hay: &Vec<char>, needle: &Vec<char>, p: usize) -> (b: bool)
    requires
        p + needle@.len() <= hay@.len(),
    ensures
        b == occurs_at(hay@, needle@, p as int),
{
    let hay_len = hay.len();
    let mut j: usize = 0;
    while j < needle.len()
        invariant
            hay_len == hay@.len(),
            p + needle@.len() <= hay@.len(),
            j <= needle@.len(),
            forall|m: int| 0 <= m < j ==> hay@[p + m] == needle@[m],
        decreases needle@.len() - j,
    {
        if hay[p + j] != needle[j] {
            assert(hay@.subrange(p as int, p + needle@.len())[j as int] != needle@[j as int]);
            return false;
        }
        j += 1;
    }
    assert(hay@.subrange(p as int, p + needle@.len()) =~= needle@);
    true
}

/// The first index where `needle` occurs in `hay`, for characters.
pub fn find_chars(hay: &Vec<char>, needle: &Vec<char>) -> (found: Option<usize>)
    ensures
        found matches Some(p) ==> first_occurrence(hay@, needle@) == Some(p as int),
        found is None ==> first_occurrence(hay@, needle@) is None,
{
    if needle.len() > hay.len() {
        return None;
    }
    let last = hay.len() - needle.len();
    let mut p: usize = 0;
    while p < last
        invariant
            last + needle@.len() == hay@.len(),
            p <= last,
            first_occurrence(hay@, needle@) == first_occurrence_from(hay@, needle@, p as int),
        decreases last - p,
    {
        if matches_at_char(hay, needle, p) {
            return Some(p);
        }
        p += 1;
    }
    if matches_at_char(hay, needle, p) {
        Some(p)
    } else {
        assert(first_occurrence_from(hay@, needle@, p + 1) is None);
        None
    }
}


/// `hay[p..]` starts with `needle`, for bytes.
fn matches_at_u8(hay: &[u8], needle: &[u8], p: usize) -> (b: bool)
    requires
        p + needle@.len() <= hay@.len(),
    ensures
        b == occurs_at(hay@, needle@, p as int),
{
    let hay_len = hay.len();
    let mut j: usize = 0;
    while j < needle.len()
        invariant
            hay_len == hay@.len(),
            p + needle@.len() <= hay@.len(),
            j <= needle@.len(),
            forall|m: int| 0 <= m < j ==> hay@[p + m] == needle@[m],
        decreases needle@.len() - j,
    {
        if hay[p + j] != needle[j] {
            assert(hay@.subrange(p as int, p + needle@.len())[j as int] != needle@[j as int]);
            return false;
        }
        j += 1;
    }
    assert(hay@.subrange(p as int, p + needle@.len()) =~= needle@);
    true
}

/// The first index where `needle` occurs in `hay`, for bytes.
pub fn find_bytes(hay: &[u8], needle: &[u8]) -> (found: Option<usize>)
    ensures
        found matches Some(p) ==> first_occurrence(hay@, needle@) == Some(p as int),
        found is None ==> first_occurrence(hay@, needle@) is None,
{
    if needle.len() > hay.len() {
        return None;
    }
    let last = hay.len() - needle.len();
    let mut p: usize = 0;
    while p < last
        invariant
            last + needle@.len() == hay@.len(),
            p <= last,
            first_occurrence(hay@, needle@) == first_occurrence_from(hay@, needle@, p as int),
        decreases last - p,
    {
        if matches_at_u8(hay, needle, p) {
            return Some(p);
        }
        p += 1;
    }
    if matches_at_u8(hay, needle, p) {
        Some(p)
    } else {
        assert(first_occurrence_from(hay@, needle@, p + 1) is None);
        None
    }
}

/// `true` when `hay` begins with `prefix`, for bytes.
pub fn bytes_start_with(hay: &[u8], prefix: &[u8]) -> (b: bool)
    ensures
        b == starts_with_seq(hay@, prefix@),
{
    if prefix.len() > hay.len() {
        return false;
    }
    let r = matches_at_u8(hay, prefix, 0);
    assert(hay@.subrange(0, prefix@.len() as int) =~= hay@.take(prefix@.len() as int));
    r
}


/// `true` when `hay` begins with `prefix`, for UTF-16 code units.
pub fn units_start_with(hay: &[u16], prefix: &[u16]) -> (b: bool)
    ensures
        b == starts_with_seq(hay@, prefix@),
{
    if prefix.len() > hay.len() {
        return false;
    }
    let r = matches_at_u16(hay, prefix, 0);
    assert(hay@.subrange(0, prefix@.len() as int) =~= hay@.take(prefix@.len() as int));
    r
}

} // verus!

//! A short readable name for a URL (`getNameForURL`): the URL without its
//! protocol for non-path URLs, else the last path segment without its
//! extension, then the query and the fragment; either is then cut to 30
//! characters.

use crate::wide::{agrees_ignoring_ascii_case, append_units, starts_with_ascii_ci};
use vstd::prelude::*;
use vstd::string::StringSliceAdditionalSpecFns;

verus! {

pub const COLON: u16 = 0x3A;
pub const SLASH: u16 = 0x2F;
pub const QUESTION: u16 = 0x3F;
pub const HASH: u16 = 0x23;
pub const DOT: u16 = 0x2E;
pub const SPACE: u16 = 0x20;
/// The ellipsis (U+2026) that marks a truncated name.
pub const ELLIPSIS: u16 = 0x2026;

/// The first index of `c` in `s`.
pub open spec fn first_index_of(s: Seq<u16>, c: u16) -> Option<int>
    decreases s.len(),
{
    if s.len() == 0 {
        None
    } else {
        match first_index_of(s.drop_last(), c) {
            Some(i) => Some(i),
            None => if s.last() == c {
                Some(s.len() - 1)
            } else {
                None
            },
        }
    }
}

/// The last index of `c` in `s`.
pub open spec fn last_index_of(s: Seq<u16>, c: u16) -> Option<int>
    decreases s.len(),
{
    if s.len() == 0 {
        None
    } else if s.last() == c {
        Some(s.len() - 1)
    } else {
        last_index_of(s.drop_last(), c)
    }
}

/// The last index of `c`, when there is one, is an index of `s` that
/// holds `c`.
pub proof fn lemma_last_index_of_range(s: Seq<u16>, c: u16)
    ensures
        last_index_of(s, c) matches Some(i) ==> 0 <= i < s.len() && s[i] == c,
    decreases s.len(),
{
    if s.len() > 0 && s.last() != c {
        lemma_last_index_of_range(s.drop_last(), c);
    }
}

/// The first index of `c`, when there is one, is an index of `s` that
/// holds `c`.
pub proof fn lemma_first_index_of_range(s: Seq<u16>, c: u16)
    ensures
        first_index_of(s, c) matches Some(i) ==> 0 <= i < s.len() && s[i] == c,
    decreases s.len(),
{
    if s.len() > 0 {
        lemma_first_index_of_range(s.drop_last(), c);
    }
}

/// The first index of `c` in `s`.
pub fn position_of(s: &[u16], c: u16) -> (found: Option<usize>)
    ensures
        found matches Some(i) ==> first_index_of(s@, c) == Some(i as int),
        found is None ==> first_index_of(s@, c) is None,
        found matches Some(i) ==> i < s@.len() && s@[i as int] == c,
{
    let mut i: usize = 0;
    while i < s.len()
        invariant
            i <= s@.len(),
            first_index_of(s@.take(i as int), c) is None,
        decreases s@.len() - i,
    {
        proof {
            assert(s@.take(i + 1).drop_last() =~= s@.take(i as int));
        }
        if s[i] == c {
            proof {
                lemma_prefix_first_index(s@, c, i + 1, i as int);
            }
            return Some(i);
        }
        i += 1;
    }
    assert(s@.take(i as int) =~= s@);
    None
}

proof fn lemma_prefix_first_index(s: Seq<u16>, c: u16, k: int, j: int)
    requires
        0 < k <= s.len(),
        first_index_of(s.take(k), c) == Some(j),
    ensures
        first_index_of(s, c) == Some(j),
    decreases s.len() - k,
{
    if k < s.len() {
        assert(s.take(k + 1).drop_last() =~= s.take(k));
        assert(first_index_of(s.take(k + 1), c) == Some(j));
        lemma_prefix_first_index(s, c, k + 1, j);
    } else {
        assert(s.take(k) =~= s);
    }
}

/// The last index of `c` among the first `end` units of `s`.
pub fn last_position_before(s: &[u16], end: usize, c: u16) -> (found: Option<usize>)
    requires
        end <= s@.len(),
    ensures
        found matches Some(i) ==> last_index_of(s@.take(end as int), c) == Some(i as int),
        found is None ==> last_index_of(s@.take(end as int), c) is None,
        found matches Some(i) ==> i < end && s@[i as int] == c,
{
    let mut found: Option<usize> = None;
    let mut i: usize = 0;
    while i < end
        invariant
            i <= end <= s@.len(),
            found matches Some(j) ==> last_index_of(s@.take(i as int), c) == Some(j as int),
            found is None ==> last_index_of(s@.take(i as int), c) is None,
            found matches Some(j) ==> j < i && s@[j as int] == c,
        decreases end - i,
    {
        proof {
            assert(s@.take(i + 1).drop_last() =~= s@.take(i as int));
        }
        if s[i] == c {
            found = Some(i);
        }
        i += 1;
    }
    found
}

/// After the colon at `cp` come two slashes (a path-based protocol).
pub open spec fn has_slashes_after(url: Seq<u16>, cp: int) -> bool {
    cp + 3 <= url.len() && url[cp + 1] == SLASH && url[cp + 2] == SLASH
}

/// The URL is an inline image (`data:image/`, in any case).
pub open spec fn is_data_image(url: Seq<u16>) -> bool {
    "data:image/".spec_bytes().len() <= url.len() && agrees_ignoring_ascii_case(
        url,
        "data:image/".spec_bytes(),
    )
}

/// Where the path ends (exclusive): before the last `?`, else before the
/// last `#`, else at the end.
pub open spec fn path_end(url: Seq<u16>) -> int {
    match last_index_of(url, QUESTION) {
        Some(q) => q,
        None => match last_index_of(url, HASH) {
            Some(a) => a,
            None => url.len() as int,
        },
    }
}

/// The last segment of the path: a trailing `/` is skipped (and the
/// extension then kept); the extension (from the last `.` after the
/// segment's start) is dropped, except when the segment is the host name.
pub open spec fn path_name(url: Seq<u16>) -> Seq<u16> {
    let end = path_end(url);
    if end == 0 {
        Seq::empty()
    } else {
        let trailing = url[end - 1] == SLASH;
        if trailing && end - 1 == 0 {
            Seq::empty()
        } else {
            let pe = if trailing {
                end - 2
            } else {
                end - 1
            };
            let slash = last_index_of(url.take(pe + 1), SLASH);
            let start = match slash {
                Some(ps) => ps + 1,
                None => 0,
            };
            let host_only = match (slash, first_index_of(url, COLON)) {
                (Some(_), Some(cp)) => start == cp + 3,
                _ => false,
            };
            let strip = !trailing && !host_only;
            let last = match last_index_of(url.take(pe + 1), DOT) {
                Some(es) => if strip && es > start {
                    es - 1
                } else {
                    pe
                },
                None => pe,
            };
            if last >= start {
                url.subrange(start, last + 1)
            } else {
                Seq::empty()
            }
        }
    }
}

/// A space and the query (after the last `?`, up to a later `#`). When
/// the last `#` comes before the last `?`, the query runs to the end if
/// `query_past_anchor`, else it is left out.
pub open spec fn query_name(url: Seq<u16>, query_past_anchor: bool) -> Seq<u16> {
    match last_index_of(url, QUESTION) {
        None => Seq::empty(),
        Some(q) => {
            let end = match last_index_of(url, HASH) {
                Some(a) => if a > q {
                    a
                } else if query_past_anchor {
                    url.len() as int
                } else {
                    q + 1
                },
                None => url.len() as int,
            };
            seq![SPACE] + if end > q + 1 {
                url.subrange(q + 1, end)
            } else {
                Seq::empty()
            }
        },
    }
}

/// A space and the fragment (after the last `#`).
pub open spec fn anchor_name(url: Seq<u16>) -> Seq<u16> {
    match last_index_of(url, HASH) {
        None => Seq::empty(),
        Some(a) => seq![SPACE] + url.skip(a + 1),
    }
}

/// A name of more than 30 units keeps 30 and gets an ellipsis.
pub open spec fn truncated_name(name: Seq<u16>) -> Seq<u16> {
    if name.len() > 30 {
        name.take(30).push(ELLIPSIS)
    } else {
        name
    }
}

/// The name for `url` (see the module documentation); empty for an empty
/// URL and for an inline image.
pub open spec fn name_for_url(url: Seq<u16>, query_past_anchor: bool) -> Seq<u16> {
    if url.len() == 0 {
        Seq::empty()
    } else {
        match first_index_of(url, COLON) {
            Some(cp) if !has_slashes_after(url, cp) => if is_data_image(url) {
                Seq::empty()
            } else {
                truncated_name(url.skip(cp + 1))
            },
            _ => truncated_name(path_name(url) + query_name(url, query_past_anchor) + anchor_name(url)),
        }
    }
}

/// Appends `units[start..end]` to `out`.
fn append_range(out: &mut Vec<u16>, units: &[u16], start: usize, end: usize)
    requires
        start <= end <= units@.len(),
    ensures
        final(out)@ == old(out)@ + units@.subrange(start as int, end as int),
{
    let ghost before = out@;
    let mut k: usize = start;
    while k < end
        invariant
            start <= k <= end <= units@.len(),
            out@ == before + units@.subrange(start as int, k as int),
        decreases end - k,
    {
        out.push(units[k]);
        proof {
            assert(units@.subrange(start as int, k + 1) =~= units@.subrange(start as int, k as int).push(
                units@[k as int],
            ));
        }
        k += 1;
    }
}

/// Computes `path_name(url)`.
#[verifier::rlimit(40)]
fn path_name_exec(url: &[u16], colon_pos: Option<usize>) -> (name: Vec<u16>)
    requires
        colon_pos matches Some(cp) ==> first_index_of(url@, COLON) == Some(cp as int),
        colon_pos is None ==> first_index_of(url@, COLON) is None,
    ensures
        name@ == path_name(url@),
{
    let n = url.len();
    assert(url@.take(n as int) =~= url@);
    let query_start = last_position_before(url, n, QUESTION);
    let anchor_start = last_position_before(url, n, HASH);
    let path_end_excl: usize = match query_start {
        Some(qs) => qs,
        None => match anchor_start {
            Some(a) => a,
            None => n,
        },
    };
    let mut name: Vec<u16> = Vec::new();
    if path_end_excl == 0 {
        return name;
    }
    let trailing = url[path_end_excl - 1] == SLASH;
    if trailing && path_end_excl - 1 == 0 {
        return name;
    }
    let pe: usize = if trailing {
        path_end_excl - 2
    } else {
        path_end_excl - 1
    };
    let slash = last_position_before(url, pe + 1, SLASH);
    let path_start: usize = match slash {
        Some(ps) => ps + 1,
        None => 0,
    };
    let host_only = match (slash, colon_pos) {
        (Some(_), Some(cp)) => cp <= usize::MAX - 3 && path_start == cp + 3,
        _ => false,
    };
    let strip = !trailing && !host_only;
    let last: usize = match last_position_before(url, pe + 1, DOT) {
        Some(es) => if strip && es > path_start {
            es - 1
        } else {
            pe
        },
        None => pe,
    };
    if last >= path_start {
        append_range(&mut name, url, path_start, last + 1);
        assert(name@ =~= url@.subrange(path_start as int, last + 1));
    }
    name
}

/// Appends `query_name(url, query_past_anchor)`.
fn append_query_name(name: &mut Vec<u16>, url: &[u16], query_past_anchor: bool)
    ensures
        final(name)@ == old(name)@ + query_name(url@, query_past_anchor),
{
    let n = url.len();
    assert(url@.take(n as int) =~= url@);
    let query_start = last_position_before(url, n, QUESTION);
    let anchor_start = last_position_before(url, n, HASH);
    if let Some(qs) = query_start {
        let ghost before = name@;
        name.push(SPACE);
        let end: usize = match anchor_start {
            Some(a) => if a > qs {
                a
            } else if query_past_anchor {
                n
            } else {
                qs + 1
            },
            None => n,
        };
        if end > qs + 1 {
            append_range(name, url, qs + 1, end);
            assert(name@ =~= before + (seq![SPACE] + url@.subrange(qs + 1, end as int)));
        } else {
            assert(name@ =~= before + (seq![SPACE] + Seq::<u16>::empty()));
        }
    } else {
        assert(name@ =~= old(name)@ + query_name(url@, query_past_anchor));
    }
}

/// Appends `anchor_name(url)`.
fn append_anchor_name(name: &mut Vec<u16>, url: &[u16])
    ensures
        final(name)@ == old(name)@ + anchor_name(url@),
{
    let n = url.len();
    assert(url@.take(n as int) =~= url@);
    if let Some(a) = last_position_before(url, n, HASH) {
        let ghost before = name@;
        name.push(SPACE);
        append_range(name, url, a + 1, n);
        assert(name@ =~= before + (seq![SPACE] + url@.skip(a + 1)));
    } else {
        assert(name@ =~= old(name)@ + anchor_name(url@));
    }
}

/// Computes `name_for_url(url, query_past_anchor)`; the result has at
/// most 31 units.
pub fn name_for_url_exec(url: &[u16], query_past_anchor: bool) -> (name: Vec<u16>)
    ensures
        name@ == name_for_url(url@, query_past_anchor),
{
    let n = url.len();
    if n == 0 {
        return Vec::new();
    }
    let colon_pos = position_of(url, COLON);
    if let Some(cp) = colon_pos {
        let has_path_scheme = n - cp >= 3 && url[cp + 1] == SLASH && url[cp + 2] == SLASH;
        if !has_path_scheme {
            if starts_with_ascii_ci(url, "data:image/") {
                return Vec::new();
            }
            let mut rest: Vec<u16> = Vec::new();
            append_range(&mut rest, url, cp + 1, n);
            assert(rest@ =~= url@.skip(cp + 1));
            if rest.len() > 30 {
                rest.truncate(30);
                rest.push(ELLIPSIS);
                assert(rest@ =~= truncated_name(url@.skip(cp + 1)));
            }
            return rest;
        }
    }
    let mut name = path_name_exec(url, colon_pos);
    append_query_name(&mut name, url, query_past_anchor);
    append_anchor_name(&mut name, url);
    if name.len() > 30 {
        name.truncate(30);
        name.push(ELLIPSIS);
        assert(name@ =~= truncated_name(
            path_name(url@) + query_name(url@, query_past_anchor) + anchor_name(url@),
        ));
    }
    name
}

} // verus!

verus! {

/// A name for a URL is at most 30 units, or 30 units and an ellipsis:
/// a longer name is cut, whatever the protocol.
pub proof fn lemma_name_for_url_length(url: Seq<u16>, query_past_anchor: bool)
    ensures
        name_for_url(url, query_past_anchor).len() <= 31,
        name_for_url(url, query_past_anchor).len() == 31 ==> name_for_url(
            url,
            query_past_anchor,
        )[30] == ELLIPSIS,
{
}

/// Appending units other than `c` leaves the last index of `c` where it
/// was.
pub proof fn lemma_last_index_of_append(a: Seq<u16>, b: Seq<u16>, c: u16)
    requires
        forall|i: int| 0 <= i < b.len() ==> b[i] != c,
    ensures
        last_index_of(a + b, c) == last_index_of(a, c),
    decreases b.len(),
{
    if b.len() == 0 {
        assert(a + b =~= a);
    } else {
        assert((a + b).drop_last() =~= a + b.drop_last());
        assert((a + b).last() == b.last());
        lemma_last_index_of_append(a, b.drop_last(), c);
    }
}

/// Only a dot inside the last path segment can shorten a URL's name: a
/// path URL (no protocol, or one followed by `//`) without query or
/// anchor, whose path ends in a segment `seg` after a `/` where `seg` has
/// no `.`, `/`, `?` or `#`, is named `seg` (cut to 30 units), whatever
/// dots its host or directories hold.
pub proof fn lemma_dotless_last_segment_is_the_name(prefix: Seq<u16>, seg: Seq<u16>, query_past_anchor: bool)
    requires
        prefix.len() > 0,
        prefix.last() == SLASH,
        seg.len() > 0,
        forall|i: int|
            0 <= i < seg.len() ==> seg[i] != DOT && seg[i] != SLASH && seg[i] != QUESTION && seg[i] != HASH,
        forall|i: int| 0 <= i < prefix.len() ==> prefix[i] != QUESTION && prefix[i] != HASH,
        match first_index_of(prefix + seg, COLON) {
            Some(cp) => has_slashes_after(prefix + seg, cp),
            None => true,
        },
    ensures
        path_name(prefix + seg) == seg,
        name_for_url(prefix + seg, query_past_anchor) == truncated_name(seg),
{
    let url = prefix + seg;
    let empty = Seq::<u16>::empty();
    assert forall|i: int| 0 <= i < url.len() implies url[i] != QUESTION && url[i] != HASH by {
        if i >= prefix.len() {
            assert(url[i] == seg[i - prefix.len()]);
        }
    }
    assert(empty + url =~= url);
    lemma_last_index_of_append(empty, url, QUESTION);
    lemma_last_index_of_append(empty, url, HASH);
    assert(last_index_of(empty, QUESTION) is None);
    assert(last_index_of(empty, HASH) is None);
    assert(path_end(url) == url.len());
    assert(url.take(url.len() as int) =~= url);
    assert(url[url.len() - 1] == seg.last());
    lemma_last_index_of_append(prefix, seg, SLASH);
    lemma_last_index_of_append(prefix, seg, DOT);
    assert(last_index_of(prefix, SLASH) == Some(prefix.len() - 1));
    lemma_last_index_of_range(prefix, DOT);
    assert(url.subrange(prefix.len() as int, url.len() as int) =~= seg);
    assert(path_name(url) == seg);
    assert(query_name(url, query_past_anchor) == empty);
    assert(anchor_name(url) == empty);
    assert(path_name(url) + query_name(url, query_past_anchor) + anchor_name(url) =~= seg);
}

/// The two ways of reading the query agree unless the last `#` comes
/// before the last `?`.
pub proof fn lemma_query_readings_agree(url: Seq<u16>)
    requires
        !(last_index_of(url, QUESTION) matches Some(q) && last_index_of(url, HASH) matches Some(a)
            && a < q),
    ensures
        name_for_url(url, true) == name_for_url(url, false),
{
    lemma_last_index_of_range(url, QUESTION);
    lemma_last_index_of_range(url, HASH);
    assert(query_name(url, true) == query_name(url, false));
}

} // verus!

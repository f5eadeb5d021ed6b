//! How the MSHTML buffer finds what to re-render: the element id under
//! which a node is looked up, where frames are searched, and the node
//! that covers a changed range.

use crate::wide::{append_units, dec, decimal, utf16, utf16_encode};
use vstd::prelude::*;

verus! {

/// The element id under which MSHTML finds the element with unique
/// number `id`: `ms__id<id>`.
pub fn element_id_for(id: i32) -> (element_id: Vec<u16>)
    ensures
        element_id@ == utf16_encode("ms__id"@) + decimal(id as int),
{
    let mut element_id = utf16("ms__id");
    let digits = dec(id);
    append_units(&mut element_id, digits.as_slice());
    element_id
}

/// The tag of the elements that embed subdocuments: `FRAME` under a
/// `FRAMESET` body, `IFRAME` otherwise (also when the body's tag cannot be
/// read).
pub fn embedding_tag(body_tag: Option<&[u16]>) -> (tag: &'static str)
    ensures
        tag@ == (if body_tag matches Some(t) && t@ == utf16_encode("FRAMESET"@) {
            "FRAME"@
        } else {
            "IFRAME"@
        }),
{
    match body_tag {
        Some(t) => if crate::wide::weq(t, "FRAMESET") {
            "FRAME"
        } else {
            "IFRAME"
        },
        None => "IFRAME",
    }
}

/// `p` is the length of the longest common prefix of two ancestor chains
/// (each from the root down).
pub open spec fn shared_depth(a: Seq<u64>, b: Seq<u64>, p: int) -> bool {
    &&& 0 <= p <= a.len()
    &&& p <= b.len()
    &&& a.take(p) == b.take(p)
    &&& (p == a.len() || p == b.len() || a[p] != b[p])
}

/// The deepest common ancestor of two nodes, from their ancestor chains
/// (root first, each ending with the node itself): the last entry of the
/// longest common prefix, or `None` when the chains share nothing.
pub fn deepest_common_ancestor(a: &[u64], b: &[u64]) -> (common: Option<u64>)
    ensures
        exists|p: int|
            shared_depth(a@, b@, p) && common == (if p == 0 {
                None
            } else {
                Some(a@[p - 1])
            }),
{
    let mut p: usize = 0;
    while p < a.len() && p < b.len() && a[p] == b[p]
        invariant
            p <= a@.len() && p <= b@.len(),
            a@.take(p as int) == b@.take(p as int),
        decreases a@.len() - p,
    {
        assert(a@.take(p + 1) =~= a@.take(p as int).push(a@[p as int]));
        assert(b@.take(p + 1) =~= b@.take(p as int).push(b@[p as int]));
        p += 1;
    }
    assert(shared_depth(a@, b@, p as int));
    if p == 0 {
        None
    } else {
        Some(a[p - 1])
    }
}

/// The common prefix of two chains is determined: one length fits.
pub proof fn lemma_shared_depth_unique(a: Seq<u64>, b: Seq<u64>, p: int, q: int)
    requires
        shared_depth(a, b, p),
        shared_depth(a, b, q),
    ensures
        p == q,
{
    if p < q {
        assert(a.take(q)[p] == b.take(q)[p]);
    } else if q < p {
        assert(a.take(p)[q] == b.take(p)[q]);
    }
}

/// The node to re-render for a changed range whose ends resolved to the
/// nodes `begin` and `end` (`None` where no rendered node was found):
/// the one node when only one end resolved or both resolved to the same
/// node, their deepest common ancestor when they differ, none when
/// neither resolved.
pub fn range_invalidation(begin: Option<u64>, end: Option<u64>, begin_chain: &[u64], end_chain: &[u64]) -> (node: Option<u64>)
    ensures
        match (begin, end) {
            (Some(b), Some(e)) => if b == e {
                node == Some(b)
            } else {
                exists|p: int|
                    shared_depth(begin_chain@, end_chain@, p) && node == (if p == 0 {
                        None
                    } else {
                        Some(begin_chain@[p - 1])
                    })
            },
            (Some(b), None) => node == Some(b),
            (None, Some(e)) => node == Some(e),
            (None, None) => node is None,
        },
{
    match (begin, end) {
        (Some(b), Some(e)) => if b == e {
            Some(b)
        } else {
            deepest_common_ancestor(begin_chain, end_chain)
        },
        (Some(b), None) => Some(b),
        (None, Some(e)) => Some(e),
        (None, None) => None,
    }
}

} // verus!

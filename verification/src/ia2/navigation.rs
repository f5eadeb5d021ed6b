//! The choices made while looking for a content descendant: which text
//! offset a node stands for, and in which order its children are visited.

use vstd::prelude::*;

verus! {

/// What a content-descendant search looks for.
#[derive(Clone, Copy, PartialEq, Eq, Structural, Debug)]
pub enum FindWhat {
    First,
    Caret,
    Last,
    SelectionStart,
    SelectionEnd,
}

/// The search kind that a raw tag stands for: `0` to `4` in the order
/// of the variants.
pub open spec fn find_what_of(v: u32) -> Option<FindWhat> {
    if v == 0 {
        Some(FindWhat::First)
    } else if v == 1 {
        Some(FindWhat::Caret)
    } else if v == 2 {
        Some(FindWhat::Last)
    } else if v == 3 {
        Some(FindWhat::SelectionStart)
    } else if v == 4 {
        Some(FindWhat::SelectionEnd)
    } else {
        None
    }
}

impl FindWhat {
    /// The search kind of a raw tag; `None` for an unknown tag.
    pub fn from_raw(v: u32) -> (what: Option<FindWhat>)
        ensures
            what == find_what_of(v),
    {
        match v {
            0 => Some(FindWhat::First),
            1 => Some(FindWhat::Caret),
            2 => Some(FindWhat::Last),
            3 => Some(FindWhat::SelectionStart),
            4 => Some(FindWhat::SelectionEnd),
            _ => None,
        }
    }

    /// `Last` and `SelectionEnd` visit children from the last one back.
    pub fn is_reverse(&self) -> (b: bool)
        ensures
            b == (*self == FindWhat::Last || *self == FindWhat::SelectionEnd),
    {
        match self {
            FindWhat::Last | FindWhat::SelectionEnd => true,
            _ => false,
        }
    }
}

/// What a text-bearing node reports for the search: its caret offset,
/// character count, selection count and first selection, each `None`
/// where the node could not give it.
pub struct TextFacts {
    pub caret: Option<i32>,
    pub n_characters: Option<i32>,
    pub n_selections: Option<i32>,
    pub first_selection: Option<(i32, i32)>,
}

/// The offset within a text-bearing node that the search stands on, or
/// `None` where the node cannot answer: the start for `First`, the caret
/// for `Caret`, the last character (or the start of an empty text) for
/// `Last`, and the start or the last character of the first selection
/// for the selection searches. A count that could not be read counts as
/// zero; the last character of a selection is its end less one, wrapping.
pub open spec fn content_offset_of(what: FindWhat, facts: TextFacts) -> Option<i32> {
    match what {
        FindWhat::First => Some(0i32),
        FindWhat::Caret => facts.caret,
        FindWhat::Last => {
            let n = match facts.n_characters {
                Some(n) => n,
                None => 0i32,
            };
            Some(if n > 0 { (n - 1) as i32 } else { 0i32 })
        },
        FindWhat::SelectionStart | FindWhat::SelectionEnd => {
            let n = match facts.n_selections {
                Some(n) => n,
                None => 0i32,
            };
            if n == 0 {
                None
            } else {
                match facts.first_selection {
                    None => None,
                    Some((start, end)) => if what == FindWhat::SelectionStart {
                        Some(start)
                    } else {
                        Some(end.wrapping_sub(1))
                    },
                }
            }
        },
    }
}

/// The offset within a text-bearing node that the search stands on.
pub fn content_offset(what: FindWhat, facts: &TextFacts) -> (offset: Option<i32>)
    ensures
        offset == content_offset_of(what, *facts),
{
    match what {
        FindWhat::First => Some(0),
        FindWhat::Caret => facts.caret,
        FindWhat::Last => {
            let n = match facts.n_characters {
                Some(n) => n,
                None => 0,
            };
            Some(
                if n > 0 {
                    n - 1
                } else {
                    0
                },
            )
        },
        FindWhat::SelectionStart | FindWhat::SelectionEnd => {
            let n = match facts.n_selections {
                Some(n) => n,
                None => 0,
            };
            if n == 0 {
                return None;
            }
            match facts.first_selection {
                None => None,
                Some((start, end)) => match what {
                    FindWhat::SelectionStart => Some(start),
                    _ => Some(end.wrapping_sub(1)),
                },
            }
        },
    }
}

/// The child visited at step `i` (from 1) of `child_count` children:
/// `i` itself, or `child_count - (i - 1)` for a reverse search.
pub open spec fn child_at_step(what: FindWhat, child_count: i32, i: i32) -> i32 {
    if what == FindWhat::Last || what == FindWhat::SelectionEnd {
        (child_count - (i - 1)) as i32
    } else {
        i
    }
}

/// The one-based index of the child visited at step `i` of a search over
/// `child_count` children.
pub fn child_index(what: FindWhat, child_count: i32, i: i32) -> (index: i32)
    requires
        1 <= i <= child_count,
    ensures
        index == child_at_step(what, child_count, i),
        1 <= index <= child_count,
{
    if what.is_reverse() {
        child_count - (i - 1)
    } else {
        i
    }
}

/// Over a whole search the steps visit every child exactly once: the
/// step-to-child map is a bijection of `1..=child_count` onto itself.
pub proof fn lemma_children_visited_once(what: FindWhat, child_count: i32, i: i32, j: i32)
    requires
        1 <= i <= child_count,
        1 <= j <= child_count,
    ensures
        1 <= child_at_step(what, child_count, i) <= child_count,
        child_at_step(what, child_count, i) == child_at_step(what, child_count, j) ==> i == j,
        exists|k: i32| 1 <= k <= child_count && child_at_step(what, child_count, k) == i,
{
    let k: i32 = if what == FindWhat::Last || what == FindWhat::SelectionEnd {
        (child_count - (i - 1)) as i32
    } else {
        i
    };
    assert(child_at_step(what, child_count, k) == i);
}

} // verus!

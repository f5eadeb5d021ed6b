//! Asking for an object's relation targets: how many to ask for and how
//! many to keep, and when a label counts as visible.

use vstd::prelude::*;

verus! {

pub const STATE_SYSTEM_INVISIBLE: i32 = 0x8000;

/// The target count to ask the server for: Chrome ignores a limit, so it
/// is asked for all targets (0); others get the caller's limit.
pub fn relation_request_limit(max_targets: i32, is_chrome: bool) -> (limit: i32)
    ensures
        limit == (if is_chrome {
            0
        } else {
            max_targets
        }),
{
    if is_chrome {
        0
    } else {
        max_targets
    }
}

/// How many of the `count` targets the server returned are kept: all of
/// them when the caller set no limit (`max_targets <= 0`), else no more
/// than the limit. A negative count counts as none.
pub open spec fn kept_targets(count: i32, max_targets: i32) -> int {
    let available = if count < 0 {
        0
    } else {
        count as int
    };
    if max_targets <= 0 || available <= max_targets {
        available
    } else {
        max_targets as int
    }
}

/// How many of the returned relation targets are kept.
pub fn relation_targets_kept(count: i32, max_targets: i32) -> (kept: usize)
    ensures
        kept == kept_targets(count, max_targets),
        max_targets > 0 ==> kept <= max_targets,
        kept <= (if count < 0 {
            0
        } else {
            count as int
        }),
{
    let available: usize = if count < 0 {
        0
    } else {
        count as usize
    };
    if max_targets <= 0 || available <= max_targets as usize {
        available
    } else {
        max_targets as usize
    }
}

/// A label is visible when its state (if it could be read) lacks the
/// invisible bit and it has text; the text is only asked for when the
/// state says visible.
pub fn label_is_visible(state: Option<i32>, has_text: bool) -> (visible: bool)
    ensures
        visible == (state matches Some(s) && s & STATE_SYSTEM_INVISIBLE == 0 && has_text),
{
    match state {
        Some(s) => (s & STATE_SYSTEM_INVISIBLE) == 0 && has_text,
        None => false,
    }
}

} // verus!

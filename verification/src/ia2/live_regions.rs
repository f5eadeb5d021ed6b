//! Live-region attributes of an IA2 object (`container-live`,
//! `container-relevant`, `container-busy`, `atomic`, `container-atomic`).

use crate::attribs::AttribMap;
use crate::search::contains_seq;
use crate::strings::{str_contains, str_eq};
use vstd::prelude::*;

verus! {

/// How urgently a live region's changes are announced.
#[derive(Debug, Clone, Copy, PartialEq, Eq, Structural)]
pub enum LivePoliteness {
    Polite,
    Assertive,
    Rude,
}

/// The `container-live` value that names a politeness.
pub open spec fn politeness_name(p: LivePoliteness) -> Seq<char> {
    match p {
        LivePoliteness::Polite => "polite"@,
        LivePoliteness::Assertive => "assertive"@,
        LivePoliteness::Rude => "rude"@,
    }
}

/// The politeness that a `container-live` value names, if any.
pub open spec fn politeness_of(value: Seq<char>) -> Option<LivePoliteness> {
    if value == "polite"@ {
        Some(LivePoliteness::Polite)
    } else if value == "assertive"@ {
        Some(LivePoliteness::Assertive)
    } else if value == "rude"@ {
        Some(LivePoliteness::Rude)
    } else {
        None
    }
}

impl LivePoliteness {
    /// The `container-live` value that yielded this politeness.
    pub fn as_str(&self) -> (name: &'static str)
        ensures
            name@ == politeness_name(*self),
    {
        match self {
            LivePoliteness::Polite => "polite",
            LivePoliteness::Assertive => "assertive",
            LivePoliteness::Rude => "rude",
        }
    }
}

/// The value of `name` in `map` is exactly `expected`.
pub open spec fn attrib_is(map: Map<Seq<char>, Seq<char>>, name: Seq<char>, expected: Seq<char>) -> bool {
    map.contains_key(name) && map[name] == expected
}

/// The politeness named by the `container-live` attribute; `None` when it
/// is absent or names none (such as `off`).
pub fn parse_live_politeness(map: &AttribMap) -> (politeness: Option<LivePoliteness>)
    ensures
        politeness == (if map@.contains_key("container-live"@) {
            politeness_of(map@["container-live"@])
        } else {
            None
        }),
{
    let value = match map.get("container-live") {
        Some(v) => v,
        None => return None,
    };
    if str_eq(value.as_str(), "polite") {
        Some(LivePoliteness::Polite)
    } else if str_eq(value.as_str(), "assertive") {
        Some(LivePoliteness::Assertive)
    } else if str_eq(value.as_str(), "rude") {
        Some(LivePoliteness::Rude)
    } else {
        None
    }
}

/// Which kinds of change a live region reports.
#[derive(Debug, Clone, Copy, PartialEq, Eq, Structural)]
pub struct Relevance {
    pub additions: bool,
    pub text: bool,
}

/// The relevance that a `container-relevant` value (or its absence)
/// gives: absent or `all` means both; otherwise each kind whose word
/// occurs in the value.
pub open spec fn relevance_of(value: Option<Seq<char>>) -> Relevance {
    match value {
        None => Relevance { additions: true, text: true },
        Some(v) => if v == "all"@ {
            Relevance { additions: true, text: true }
        } else {
            Relevance { additions: contains_seq(v, "additions"@), text: contains_seq(v, "text"@) }
        },
    }
}

/// Reads the `container-relevant` attribute (see `relevance_of`).
pub fn parse_container_relevant(map: &AttribMap) -> (relevance: Relevance)
    ensures
        relevance == relevance_of(
            if map@.contains_key("container-relevant"@) {
                Some(map@["container-relevant"@])
            } else {
                None
            },
        ),
{
    match map.get("container-relevant") {
        None => Relevance { additions: true, text: true },
        Some(v) => {
            if str_eq(v.as_str(), "all") {
                Relevance { additions: true, text: true }
            } else {
                Relevance {
                    additions: str_contains(v.as_str(), "additions"),
                    text: str_contains(v.as_str(), "text"),
                }
            }
        },
    }
}

/// `true` when the attribute `name` is present with the value `true`.
fn attrib_is_true(map: &AttribMap, name: &str) -> (b: bool)
    ensures
        b == attrib_is(map@, name@, "true"@),
{
    match map.get(name) {
        Some(v) => str_eq(v.as_str(), "true"),
        None => false,
    }
}

/// `container-busy` is `true`.
pub fn is_container_busy(map: &AttribMap) -> (b: bool)
    ensures
        b == attrib_is(map@, "container-busy"@, "true"@),
{
    attrib_is_true(map, "container-busy")
}

/// `atomic` is `true`.
pub fn is_atomic(map: &AttribMap) -> (b: bool)
    ensures
        b == attrib_is(map@, "atomic"@, "true"@),
{
    attrib_is_true(map, "atomic")
}

/// `container-atomic` is `true`.
pub fn is_container_atomic(map: &AttribMap) -> (b: bool)
    ensures
        b == attrib_is(map@, "container-atomic"@, "true"@),
{
    attrib_is_true(map, "container-atomic")
}

} // verus!

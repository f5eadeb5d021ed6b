//! The decisions of the WebKit virtual buffer, which renders the plain
//! MSAA tree: the role attribute, which nodes and children it skips, and
//! the text of a leaf.

use crate::search::{starts_with_seq, units_start_with};
use crate::wide::{append_units, dec, decimal, utf16, utf16_encode};
use vstd::prelude::*;

verus! {

pub const ROLE_SYSTEM_COLUMN: i32 = 0x1b;
pub const ROLE_SYSTEM_LIST: i32 = 0x21;
pub const ROLE_SYSTEM_TEXT: i32 = 0x2a;
pub const ROLE_SYSTEM_COMBOBOX: i32 = 0x2e;
pub const STATE_SYSTEM_READONLY: i32 = 0x40;
pub const STATE_SYSTEM_FOCUSABLE: i32 = 0x10_0000;

/// What an object's role query gave back.
pub enum RoleVariant {
    /// The query failed.
    Failed,
    /// An empty value.
    Empty,
    /// A role number.
    Number(i32),
    /// A role string.
    Text(Vec<u16>),
    /// A value of any other kind.
    Other,
}

/// The role number and the role attribute text for a role query: a number
/// gives itself and its decimal form, a string gives role 0 and the
/// string, a failed query or an empty value gives role 0 and `"0"`, and
/// any other value role 0 and no text.
pub open spec fn role_of_variant(v: RoleVariant) -> (i32, Seq<u16>) {
    match v {
        RoleVariant::Number(l) => (l, decimal(l as int)),
        RoleVariant::Text(t) => (0i32, t@),
        RoleVariant::Failed | RoleVariant::Empty => (0i32, decimal(0)),
        RoleVariant::Other => (0i32, Seq::empty()),
    }
}

/// The role number and the role attribute text for a role query.
pub fn role_from_variant(v: &RoleVariant) -> (role: (i32, Vec<u16>))
    ensures
        (role.0, role.1@) == role_of_variant(*v),
{
    match v {
        RoleVariant::Number(l) => (*l, dec(*l)),
        RoleVariant::Text(t) => {
            let mut text: Vec<u16> = Vec::new();
            append_units(&mut text, t.as_slice());
            (0, text)
        },
        RoleVariant::Failed | RoleVariant::Empty => (0, dec(0)),
        RoleVariant::Other => (0, Vec::new()),
    }
}

/// What an object's state query gave back.
pub enum StateVariant {
    Failed,
    Number(i32),
    Other,
}

/// The state mask of a state query: its number, or 0.
pub fn states_from_variant(v: &StateVariant) -> (states: i32)
    ensures
        states == (match v {
            StateVariant::Number(l) => *l,
            _ => 0i32,
        }),
{
    match v {
        StateVariant::Number(l) => *l,
        _ => 0,
    }
}

/// A column object is never rendered: WebKit exposes each table both by
/// rows and by columns.
pub fn skips_node(role: i32) -> (b: bool)
    ensures
        b == (role == ROLE_SYSTEM_COLUMN),
{
    role == ROLE_SYSTEM_COLUMN
}

/// Objects whose children are never rendered: combo boxes, editable
/// lists and focusable text fields.
pub open spec fn children_suppressed_for(role: i32, states: i32) -> bool {
    role == ROLE_SYSTEM_COMBOBOX || (role == ROLE_SYSTEM_LIST && states & STATE_SYSTEM_READONLY
        == 0) || (role == ROLE_SYSTEM_TEXT && states & STATE_SYSTEM_FOCUSABLE != 0)
}

/// `true` when the object's children are not rendered.
pub fn children_suppressed(role: i32, states: i32) -> (b: bool)
    ensures
        b == children_suppressed_for(role, states),
{
    role == ROLE_SYSTEM_COMBOBOX || (role == ROLE_SYSTEM_LIST && states & STATE_SYSTEM_READONLY
        == 0) || (role == ROLE_SYSTEM_TEXT && states & STATE_SYSTEM_FOCUSABLE != 0)
}

/// The text that stands for an absent string.
pub open spec fn or_empty(s: Option<Seq<u16>>) -> Seq<u16> {
    match s {
        Some(t) => t,
        None => Seq::empty(),
    }
}

/// The prefix that marks a real description.
pub open spec fn description_prefix() -> Seq<u16> {
    utf16_encode("Description: "@)
}

/// The text of a leaf object: its name (not for focusable text fields or
/// combo boxes), else its value, else its description when that starts
/// with `"Description: "` (without the prefix), else a space when it is
/// focusable, else nothing.
pub open spec fn leaf_text_of(
    role: i32,
    states: i32,
    name: Option<Seq<u16>>,
    value: Option<Seq<u16>>,
    description: Option<Seq<u16>>,
) -> Seq<u16> {
    let named = if (role != ROLE_SYSTEM_TEXT || states & STATE_SYSTEM_FOCUSABLE == 0) && role
        != ROLE_SYSTEM_COMBOBOX {
        or_empty(name)
    } else {
        Seq::empty()
    };
    let valued = if named.len() == 0 {
        or_empty(value)
    } else {
        named
    };
    let described = if valued.len() == 0 {
        match description {
            Some(d) => if starts_with_seq(d, description_prefix()) {
                d.skip(description_prefix().len() as int)
            } else {
                valued
            },
            None => valued,
        }
    } else {
        valued
    };
    if described.len() == 0 && states & STATE_SYSTEM_FOCUSABLE != 0 {
        seq![0x20u16]
    } else {
        described
    }
}

fn suffix_from(units: &[u16], from: usize) -> (rest: Vec<u16>)
    requires
        from <= units@.len(),
    ensures
        rest@ == units@.skip(from as int),
{
    let mut rest: Vec<u16> = Vec::new();
    let mut j: usize = from;
    while j < units.len()
        invariant
            from <= j <= units@.len(),
            rest@ == units@.subrange(from as int, j as int),
        decreases units@.len() - j,
    {
        rest.push(units[j]);
        assert(units@.subrange(from as int, j + 1) =~= units@.subrange(from as int, j as int).push(
            units@[j as int],
        ));
        j += 1;
    }
    assert(units@.subrange(from as int, units@.len() as int) =~= units@.skip(from as int));
    rest
}

fn copy_of(units: &[u16]) -> (copy: Vec<u16>)
    ensures
        copy@ == units@,
{
    let mut copy: Vec<u16> = Vec::new();
    append_units(&mut copy, units);
    copy
}

/// The text of a leaf object from its name, value and description (each
/// `None` where the object has none); empty when it shows nothing.
pub fn leaf_text(
    role: i32,
    states: i32,
    name: Option<&[u16]>,
    value: Option<&[u16]>,
    description: Option<&[u16]>,
) -> (text: Vec<u16>)
    ensures
        text@ == leaf_text_of(
            role,
            states,
            match name {
                Some(n) => Some(n@),
                None => None,
            },
            match value {
                Some(v) => Some(v@),
                None => None,
            },
            match description {
                Some(d) => Some(d@),
                None => None,
            },
        ),
{
    let ghost n_opt = match name {
        Some(n) => Some(n@),
        None => None,
    };
    let ghost v_opt = match value {
        Some(v) => Some(v@),
        None => None,
    };
    let mut content: Vec<u16> = Vec::new();
    if (role != ROLE_SYSTEM_TEXT || states & STATE_SYSTEM_FOCUSABLE == 0) && role
        != ROLE_SYSTEM_COMBOBOX {
        if let Some(n) = name {
            content = copy_of(n);
        }
    }
    let ghost named = content@;
    if content.len() == 0 {
        if let Some(v) = value {
            content = copy_of(v);
        }
    }
    assert(content@ == (if named.len() == 0 {
        or_empty(v_opt)
    } else {
        named
    }));
    if content.len() == 0 {
        if let Some(d) = description {
            let prefix = utf16("Description: ");
            if units_start_with(d, prefix.as_slice()) {
                content = suffix_from(d, prefix.len());
            }
        }
    }
    if content.len() == 0 && states & STATE_SYSTEM_FOCUSABLE != 0 {
        content = vec![0x20u16];
    }
    content
}


pub const EVENT_OBJECT_REORDER: u32 = 0x8004;
pub const EVENT_OBJECT_STATECHANGE: u32 = 0x800a;
pub const EVENT_OBJECT_NAMECHANGE: u32 = 0x800c;
pub const EVENT_OBJECT_VALUECHANGE: u32 = 0x800e;

/// The window events that make the WebKit buffer re-render a node: value
/// and state changes and reorders.
pub fn win_event_is_relevant(event_id: u32) -> (b: bool)
    ensures
        b == (event_id == EVENT_OBJECT_VALUECHANGE || event_id == EVENT_OBJECT_STATECHANGE
            || event_id == EVENT_OBJECT_REORDER),
{
    event_id == EVENT_OBJECT_VALUECHANGE || event_id == EVENT_OBJECT_STATECHANGE || event_id
        == EVENT_OBJECT_REORDER
}

/// The unique id of the node that an event's child id stands for: WebKit
/// sends ids negated (the negation wraps for the least `i32`).
pub fn event_node_id(child_id: i32) -> (id: i32)
    ensures
        id == 0i32.wrapping_sub(child_id),
{
    0i32.wrapping_sub(child_id)
}

} // verus!

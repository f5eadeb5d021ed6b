//! The decisions of the Lotus Notes rich-text virtual buffer: a root
//! node over the document's MSAA children, each rendered as one node with
//! one text node.

use crate::ia2::webkit_render::{
    RoleVariant, EVENT_OBJECT_NAMECHANGE, EVENT_OBJECT_REORDER, EVENT_OBJECT_STATECHANGE,
    EVENT_OBJECT_VALUECHANGE,
};
use crate::wide::{append_units, dec, decimal};
use vstd::prelude::*;

verus! {

pub const ROLE_SYSTEM_TEXT: i32 = 0x2a;

/// The role number and the role attribute text of a child: a number
/// gives itself and its decimal form, a string gives role 0 and the
/// string, a failed query gives role 0 and `"0"`, and any other value
/// (an empty one too) role 0 and no text.
pub open spec fn child_role_of(v: RoleVariant) -> (i32, Seq<u16>) {
    match v {
        RoleVariant::Number(l) => (l, decimal(l as int)),
        RoleVariant::Text(t) => (0i32, t@),
        RoleVariant::Failed => (0i32, decimal(0)),
        RoleVariant::Empty | RoleVariant::Other => (0i32, Seq::empty()),
    }
}

/// The role number and the role attribute text of a child.
pub fn child_role(v: &RoleVariant) -> (role: (i32, Vec<u16>))
    ensures
        (role.0, role.1@) == child_role_of(*v),
{
    match v {
        RoleVariant::Number(l) => (*l, dec(*l)),
        RoleVariant::Text(t) => {
            let mut text: Vec<u16> = Vec::new();
            append_units(&mut text, t.as_slice());
            (0, text)
        },
        RoleVariant::Failed => (0, dec(0)),
        RoleVariant::Empty | RoleVariant::Other => (0, Vec::new()),
    }
}

/// The text of a child: its value when not empty, else its name when not
/// empty and the child is no text field, else a space.
pub open spec fn control_content_of(role: i32, name: Seq<u16>, value: Seq<u16>) -> Seq<u16> {
    if value.len() > 0 {
        value
    } else if role != ROLE_SYSTEM_TEXT && name.len() > 0 {
        name
    } else {
        seq![0x20u16]
    }
}

/// The text of a child from its name and value (empty where a query
/// failed).
pub fn control_content(role: i32, name: &[u16], value: &[u16]) -> (content: Vec<u16>)
    ensures
        content@ == control_content_of(role, name@, value@),
        content@.len() > 0,
{
    let mut content: Vec<u16> = Vec::new();
    if value.len() > 0 {
        append_units(&mut content, value);
    } else if role != ROLE_SYSTEM_TEXT && name.len() > 0 {
        append_units(&mut content, name);
    } else {
        content.push(0x20);
        assert(content@ =~= seq![0x20u16]);
    }
    content
}

/// The window events that make the buffer re-render a node: reorders and
/// name, value and state changes.
pub fn win_event_is_relevant(event_id: u32) -> (b: bool)
    ensures
        b == (event_id == EVENT_OBJECT_REORDER || event_id == EVENT_OBJECT_NAMECHANGE
            || event_id == EVENT_OBJECT_VALUECHANGE || event_id == EVENT_OBJECT_STATECHANGE),
{
    event_id == EVENT_OBJECT_REORDER || event_id == EVENT_OBJECT_NAMECHANGE || event_id
        == EVENT_OBJECT_VALUECHANGE || event_id == EVENT_OBJECT_STATECHANGE
}

} // verus!

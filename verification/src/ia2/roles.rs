//! Reading an object's role, and recognising the text box of a combo
//! box.

use crate::ia2::webkit_render::{RoleVariant, ROLE_SYSTEM_TEXT, STATE_SYSTEM_FOCUSABLE};
use crate::wide::append_units;
use vstd::prelude::*;

verus! {

/// An object's role and role string: its IA2 role when that is not 0;
/// otherwise its MSAA role, a number giving the role and a string giving
/// role 0 with that string.
pub open spec fn long_role_of(ia2_role: i32, msaa_role: RoleVariant) -> (i32, Option<Seq<u16>>) {
    if ia2_role != 0 {
        (ia2_role, None)
    } else {
        match msaa_role {
            RoleVariant::Number(l) => (l, None),
            RoleVariant::Text(t) => (0i32, Some(t@)),
            _ => (0i32, None),
        }
    }
}

/// An object's role and role string from its IA2 role (0 when it could
/// not be read) and its MSAA role (read only when the IA2 role is 0).
pub fn long_role(ia2_role: i32, msaa_role: &RoleVariant) -> (role: (i32, Option<Vec<u16>>))
    ensures
        (role.0, match role.1 {
            Some(s) => Some(s@),
            None => None,
        }) == long_role_of(ia2_role, *msaa_role),
{
    if ia2_role != 0 {
        return (ia2_role, None);
    }
    match msaa_role {
        RoleVariant::Number(l) => (*l, None),
        RoleVariant::Text(t) => {
            let mut s: Vec<u16> = Vec::new();
            append_units(&mut s, t.as_slice());
            (0, Some(s))
        },
        _ => (0, None),
    }
}

/// The first child of a combo box is its text box when it is a text
/// field whose state (a number) is focusable.
pub fn is_combo_text_box(child_role: Option<i32>, child_state: Option<i32>) -> (b: bool)
    ensures
        b == (child_role == Some(ROLE_SYSTEM_TEXT) && (child_state matches Some(s) && s
            & STATE_SYSTEM_FOCUSABLE != 0)),
{
    match (child_role, child_state) {
        (Some(r), Some(s)) => r == ROLE_SYSTEM_TEXT && (s & STATE_SYSTEM_FOCUSABLE) != 0,
        _ => false,
    }
}

} // verus!

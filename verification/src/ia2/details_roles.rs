//! The comma-separated `detailsRoles` attribute.

use crate::wide::{append_units, ascii_utf16, widened_bytes};
use vstd::string::StringSliceAdditionalSpecFns;
use vstd::prelude::*;

verus! {

/// The new `detailsRoles` value: `role` alone when the attribute is
/// absent, else the existing value, a comma and `role` (a comma even
/// after an empty value).
pub open spec fn details_roles_after(existing: Option<Seq<u16>>, role: Seq<u16>) -> Seq<u16> {
    match existing {
        Some(e) => e + seq![0x2Cu16] + role,
        None => role,
    }
}

/// Builds the new value of the `detailsRoles` attribute (see
/// `details_roles_after`).
pub fn combine_details_roles(existing: Option<&[u16]>, role: &[u16]) -> (value: Vec<u16>)
    ensures
        value@ == details_roles_after(
            match existing {
                Some(e) => Some(e@),
                None => None,
            },
            role@,
        ),
{
    let mut out: Vec<u16> = Vec::new();
    match existing {
        Some(e) => {
            append_units(&mut out, e);
            out.push(0x2C);
            append_units(&mut out, role);
        },
        None => {
            append_units(&mut out, role);
            assert(out@ =~= role@);
        },
    }
    out
}

/// The role recorded for a details target: its `role` attribute, or
/// `unknown` when it has none.
pub open spec fn target_role_of(role: Option<Seq<u16>>) -> Seq<u16> {
    match role {
        Some(r) => r,
        None => widened_bytes("unknown".spec_bytes()),
    }
}

/// The `detailsRoles` value after extending `existing` with each role in
/// turn.
pub open spec fn details_roles_over(existing: Option<Seq<u16>>, roles: Seq<Seq<u16>>) -> Option<
    Seq<u16>,
>
    decreases roles.len(),
{
    if roles.len() == 0 {
        existing
    } else {
        Some(details_roles_after(details_roles_over(existing, roles.drop_last()), roles.last()))
    }
}

/// The roles recorded for details targets, each by its `role` attribute.
pub open spec fn target_roles(roles: Seq<Option<Vec<u16>>>) -> Seq<Seq<u16>> {
    roles.map_values(
        |r: Option<Vec<u16>>|
            target_role_of(
                match r {
                    Some(v) => Some(v@),
                    None => None,
                },
            ),
    )
}

/// The `detailsRoles` value of a node whose details targets (those found
/// in the buffer, in order) have these `role` attributes: each target's
/// role, or `unknown`, is added in turn to the existing value.
pub fn extend_details_roles(existing: Option<Vec<u16>>, roles: &[Option<Vec<u16>>]) -> (value: Option<Vec<u16>>)
    ensures
        match value {
            Some(v) => details_roles_over(
                match existing {
                    Some(e) => Some(e@),
                    None => None,
                },
                target_roles(roles@),
            ) == Some(v@),
            None => details_roles_over(
                match existing {
                    Some(e) => Some(e@),
                    None => None,
                },
                target_roles(roles@),
            ) is None,
        },
{
    let ghost start = match &existing {
        Some(e) => Some(e@),
        None => None,
    };
    let ghost all = target_roles(roles@);
    let mut value = existing;
    let mut k: usize = 0;
    while k < roles.len()
        invariant
            k <= roles@.len(),
            all == target_roles(roles@),
            (match value {
                Some(v) => Some(v@),
                None => None,
            }) == details_roles_over(start, all.take(k as int)),
        decreases roles@.len() - k,
    {
        let unknown_text = "unknown";
        proof {
            reveal_strlit("unknown");
        }
        assert(vstd::string::is_ascii(unknown_text));
        let unknown = ascii_utf16(unknown_text);
        let role: &[u16] = match &roles[k] {
            Some(r) => r.as_slice(),
            None => unknown.as_slice(),
        };
        let next = match &value {
            Some(v) => combine_details_roles(Some(v.as_slice()), role),
            None => combine_details_roles(None, role),
        };
        proof {
            assert(all.take(k + 1).drop_last() =~= all.take(k as int));
            assert(all.take(k + 1).last() == role@);
        }
        value = Some(next);
        k += 1;
    }
    assert(all.take(k as int) =~= all);
    value
}

} // verus!

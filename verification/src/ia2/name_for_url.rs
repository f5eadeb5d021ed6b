//! `getNameForURL` as the IA2 buffer uses it.

use crate::url_name::{name_for_url, name_for_url_exec};
use vstd::prelude::*;

verus! {

/// A short readable name for `url` (see `crate::url_name`); when the
/// last `#` comes before the last `?`, the query runs to the end of the
/// URL.
pub fn get_name_for_url(url: &[u16]) -> (name: Vec<u16>)
    ensures
        name@ == name_for_url(url@, true),
{
    name_for_url_exec(url, true)
}

} // verus!

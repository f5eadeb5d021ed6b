//! The state that a Gecko virtual-buffer backend keeps between renders.

use crate::wide::{utf16_encode, weq};
use vstd::prelude::*;

verus! {

/// Per-backend state: the toolkit name that the application reported on
/// the last full render.
pub struct GeckoBackendState {
    pub toolkit_name: Vec<u16>,
}

impl GeckoBackendState {
    /// A state with no toolkit name yet.
    pub fn new() -> (state: GeckoBackendState)
        ensures
            state.toolkit_name@ == Seq::<u16>::empty(),
    {
        GeckoBackendState { toolkit_name: Vec::new() }
    }

    /// `true` when the toolkit name is `"Chrome"`.
    pub fn is_chrome(&self) -> (b: bool)
        ensures
            b == (self.toolkit_name@ == utf16_encode("Chrome"@)),
    {
        weq(self.toolkit_name.as_slice(), "Chrome")
    }

    /// The start of a render: a full render (`is_root_call`) stores the
    /// toolkit name that the application reports now; the answer is then
    /// whether the stored name is `"Chrome"`.
    pub fn begin_render(&mut self, is_root_call: bool, reported_name: Vec<u16>) -> (chrome: bool)
        ensures
            final(self).toolkit_name@ == (if is_root_call {
                reported_name@
            } else {
                old(self).toolkit_name@
            }),
            chrome == (final(self).toolkit_name@ == utf16_encode("Chrome"@)),
    {
        if is_root_call {
            self.toolkit_name = reported_name;
        }
        self.is_chrome()
    }
}

impl Default for GeckoBackendState {
    fn default() -> (state: GeckoBackendState)
        ensures
            state.toolkit_name@ == Seq::<u16>::empty(),
    {
        GeckoBackendState::new()
    }
}

} // verus!

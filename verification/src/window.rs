//! Window identifiers and the per-window bookkeeping the store keeps.

use vstd::prelude::*;

verus! {

/// An identifier the display server issued for a window. The core never
/// looks inside a window; two handles name the same window exactly when
/// their identifiers are equal.
#[derive(Clone, Copy, Debug, PartialEq, Eq, Hash, Structural)]
pub struct WindowHandle(pub u64);

/// A window as the store sees it: its handle and the two flags that take
/// it out of the tiled set.
#[derive(Clone, Copy, Debug, PartialEq, Eq, Structural)]
pub struct ManagedWindow {
    pub handle: WindowHandle,
    pub floating: bool,
    pub fullscreen: bool,
}

impl ManagedWindow {
    /// A window takes part in tiling unless it floats or fills the screen.
    pub open spec fn spec_is_tiled(self) -> bool {
        !self.floating && !self.fullscreen
    }

    /// A freshly managed window: tiled, neither floating nor fullscreen.
    pub fn new(handle: WindowHandle) -> (w: Self)
        ensures
            w == (ManagedWindow { handle, floating: false, fullscreen: false }),
    {
        ManagedWindow { handle, floating: false, fullscreen: false }
    }

    #[verifier::when_used_as_spec(spec_is_tiled)]
    pub fn is_tiled(self) -> (b: bool)
        ensures
            b == self.spec_is_tiled(),
    {
        !self.floating && !self.fullscreen
    }
}

} // verus!

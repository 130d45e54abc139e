//! What the host reports of the pointer and the keyboard each frame.

use vstd::prelude::*;

verus! {

/// The pointer: where it hovers, if anywhere, and whether the secondary
/// button, which engages looking around, is held.
///
/// `P` is the type of a pointer position.
#[derive(Debug, Clone, Copy)]
pub struct PointerState<P> {
    pub pos: Option<P>,
    pub secondary_down: bool,
}

/// The six movement keys, each `true` while held.
#[derive(Debug, Clone, Copy)]
pub struct KeyboardState {
    pub w: bool,
    pub a: bool,
    pub s: bool,
    pub d: bool,
    pub q: bool,
    pub e: bool,
}

} // verus!

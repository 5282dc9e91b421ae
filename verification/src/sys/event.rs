//! Input events.

use vstd::prelude::*;

verus! {

/// Whether the mouse button is held.
#[derive(Clone, Copy, PartialEq, Eq, Structural, Debug)]
pub enum MouseState {
    Up,
    Down,
}

} // verus!

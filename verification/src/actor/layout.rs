//! Commands to the layout.

use vstd::prelude::*;

use crate::model::Direction;

verus! {

/// A change of the layout that the user asks for.
#[derive(Clone, Copy, PartialEq, Eq, Structural, Debug)]
pub enum LayoutCommand {
    MoveFocus(Direction),
    ChangeLayoutKind,
    ToggleColumnTabbed,
    CycleColumnWidth,
}

} // verus!

//! The layout terms that configuration and commands are written in.

use vstd::prelude::*;

verus! {

/// How the windows of a space are arranged.
#[derive(Clone, Copy, PartialEq, Eq, Structural, Debug)]
pub enum LayoutKind {
    /// Tiles that split the screen.
    Tree,
    /// Columns on a strip that scrolls.
    Scroll,
}

/// In which direction the first split of a space runs.
#[derive(Clone, Copy, PartialEq, Eq, Structural, Debug)]
pub enum RootOrientation {
    Horizontal,
    Vertical,
}

/// A direction on the screen.
#[derive(Clone, Copy, PartialEq, Eq, Structural, Debug)]
pub enum Direction {
    Left,
    Right,
    Up,
    Down,
}

} // verus!

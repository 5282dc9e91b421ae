//! The bars that show which windows share a place.

use vstd::prelude::*;

use crate::sys::screen::SpaceId;

verus! {

/// What the bars are told.
#[derive(Clone, Copy, PartialEq, Eq, Structural, Debug)]
pub enum Event {
    /// A space is no longer managed.
    SpaceDisabled(SpaceId),
    /// No space is managed any more.
    GlobalDisabled,
}

} // verus!

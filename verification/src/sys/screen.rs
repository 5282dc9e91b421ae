//! Screens and spaces.

use vstd::prelude::*;

use crate::sys::geometry::{CGFloat, CGRect};

verus! {

/// A space: one of the desktops that a screen can show.
#[derive(Clone, Copy, PartialEq, Eq, Structural, Hash, Debug)]
pub struct SpaceId {
    pub id: u64,
}

impl SpaceId {
    pub fn new(id: u64) -> (space: SpaceId)
        ensures
            space == (SpaceId { id }),
    {
        SpaceId { id }
    }
}

/// A screen.
#[derive(Clone, Copy, PartialEq, Eq, Structural, Hash, Debug)]
pub struct ScreenId {
    pub id: u32,
}

impl ScreenId {
    pub fn new(id: u32) -> (screen: ScreenId)
        ensures
            screen == (ScreenId { id }),
    {
        ScreenId { id }
    }
}

/// Converts between the two coordinate systems of the screen, which differ in
/// the direction of the vertical axis. Without a screen height nothing can be
/// converted.
#[derive(Clone, Copy, PartialEq, Debug)]
pub struct CoordinateConverter {
    pub screen_height: Option<CGFloat>,
}

impl Default for CoordinateConverter {
    fn default() -> (converter: CoordinateConverter)
        ensures
            converter.screen_height is None,
    {
        CoordinateConverter { screen_height: None }
    }
}

/// What is known of one screen.
#[derive(Clone, Copy, PartialEq, Debug)]
pub struct ScreenInfo {
    pub id: ScreenId,
    /// The part of the screen that windows may cover.
    pub visible_frame: CGRect,
    pub scale_factor: CGFloat,
}

/// Spaces and screens are told apart by their numbers, and nothing is converted
/// until a screen is known.
pub proof fn screens_and_spaces_keep_their_numbers(
    a: u64,
    space: SpaceId,
    b: u32,
    screen: ScreenId,
    converter: CoordinateConverter,
)
    requires
        call_ensures(SpaceId::new, (a,), space),
        call_ensures(ScreenId::new, (b,), screen),
        call_ensures(<CoordinateConverter as Default>::default, (), converter),
    ensures
        space.id == a,
        screen.id == b,
        converter.screen_height is None,
{
}

} // verus!

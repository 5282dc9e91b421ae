//! The mouse.

use std::sync::Arc;

use vstd::prelude::*;

use crate::config::Config;
use crate::sys::geometry::CGRect;
use crate::sys::screen::CoordinateConverter;

verus! {

/// What the mouse actor is told.
#[derive(Debug)]
pub enum Request {
    ScreenParametersChanged(Vec<CGRect>, CoordinateConverter),
    /// The cursor stays hidden.
    EnforceHidden,
    ConfigUpdated(Arc<Config>),
}

/// What a [`Request`] says.
pub enum RequestView {
    ScreenParametersChanged(Seq<CGRect>, CoordinateConverter),
    EnforceHidden,
    ConfigUpdated(Arc<Config>),
}

impl View for Request {
    type V = RequestView;

    open spec fn view(&self) -> RequestView {
        match *self {
            Request::ScreenParametersChanged(frames, converter) => {
                RequestView::ScreenParametersChanged(frames@, converter)
            },
            Request::EnforceHidden => RequestView::EnforceHidden,
            Request::ConfigUpdated(config) => RequestView::ConfigUpdated(config),
        }
    }
}

} // verus!

//! Actors in the window manager.
//!
//! Each actor manages some important resource, like an external application or
//! the layout state. The flow of events between these actors defines the
//! overall behavior of the window manager. Here an actor is a state and a
//! function from an event to the messages that it sends.

pub mod app;
pub mod dock;
pub mod group_bars;
pub mod layout;
pub mod mouse;
pub mod notification_center;
pub mod reactor;
pub mod space_manager;
pub mod status;
pub mod window_server;
pub mod wm_controller;

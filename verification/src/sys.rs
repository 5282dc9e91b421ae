//! What the window manager knows of the system it runs on.

pub mod app;
pub mod bundle;
pub mod event;
pub mod geometry;
pub mod screen;
pub mod window_server;

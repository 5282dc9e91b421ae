//! The decision logic of a tiling window manager: which spaces are managed,
//! how windows are animated, what every actor answers to every event, and how
//! a configuration is put together.
//!
//! Nothing in here talks to the operating system. Each actor takes an event,
//! together with whatever had to be read from the system, and returns the
//! messages to send.

pub mod actor;
pub mod config;
pub mod model;
pub mod sys;
pub mod text;

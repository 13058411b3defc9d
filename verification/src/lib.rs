//! Core logic of a desktop goal-tracking tray application.
//!
//! The crate has two collaborating pieces, both pure and fully specified:
//! a menu builder, which turns an ordered list of goal records into a
//! hierarchical tray-menu description, and an event router, which decodes
//! the opaque identifier the OS reports on a tray click into the action to
//! perform. The surrounding GUI shell installs the described menu, shows
//! or hides the window, emits events to the front-end and exits the
//! process; none of that I/O lives here.

pub mod goal;
pub mod menu;
pub mod router;
pub mod text;

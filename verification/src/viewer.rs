//! What the viewer decides: which file to open, when to reload it, what to
//! animate and what to draw over the scene.
//!
//! The application owns the window, the files and the arithmetic; it asks the
//! functions of this module what to do next.

pub mod animation;
pub mod camera;
pub mod clock;
pub mod display;
pub mod extent;
pub mod files;
pub mod grid;
pub mod laws;
pub mod paths;
pub mod report;
pub mod session;

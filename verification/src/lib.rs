//! Physics, transforms and a viewer for OpenUSD scenes: the decisions, proved.
//!
//! A scene is captured from the stage that `openusd` composed ([`capture`]) or
//! authored here ([`stage`]). The physics schemas are authored and read back
//! ([`physics`]), and so are transforms ([`xform`]). What a physics world is
//! given for them is decided in [`rapier`], and what the viewer does in
//! [`viewer`].
//!
//! Floating-point numbers are held as their bits ([`ieee`]): they are stored,
//! narrowed and compared here, and all arithmetic on them is the caller's.

pub mod attribute_laws;
pub mod attributes;
pub mod capture;
pub mod ieee;
pub mod path;
pub mod physics;
pub mod rapier;
pub mod stage;
pub mod stage_laws;
pub mod text;
pub mod tokens;
pub mod value;
pub mod viewer;
pub mod xform;
pub mod xform_laws;

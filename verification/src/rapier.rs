//! What a physics world is given for a scene's bodies, colliders and joints.
//!
//! The functions of this module decide; the caller, which owns the world,
//! builds what they decided. An entity is its 64 bits.

pub mod bodies;
pub mod colliders;
pub mod groups;
pub mod hierarchy;
pub mod joints;
pub mod laws;
pub mod scene;
pub mod world;

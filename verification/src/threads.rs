//! Threads kept in local files: the live writers of their rollouts, and the
//! rotation of a rollout into a new segment.
pub mod error;
pub mod lifecycle;
pub mod path;
pub mod registry;
pub mod rotation;
pub mod rotation_laws;
pub mod segments;

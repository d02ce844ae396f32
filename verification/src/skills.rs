//! The tools that list remote skills and read their resources.
pub mod catalog;
pub mod list;
pub mod read;
pub mod state;

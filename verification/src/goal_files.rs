//! Files for the inputs of a goal.
//!
//! Long objectives and pasted text are written under the app server's home
//! directory. The objective that is kept refers to these files, so that later
//! turns can read the long inputs by path.
pub mod error;
pub mod materialize;
pub mod placeholders;
pub mod reference;

//! Maintenance of a guardian's review session between its reviews.
pub mod completion;
pub mod eager_compaction;

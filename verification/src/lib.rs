//! Extracts the commit history and reference set of a source repository,
//! normalizes each commit and reference into a flat record, and persists the
//! records into a relational store in bounded, strictly sequential,
//! transactional batches.

pub mod batch;
pub mod laws;
pub mod model;
pub mod pipeline;
pub mod records;
pub mod sink;

//! The decisions of a worker.
pub mod plan;
pub mod steps;

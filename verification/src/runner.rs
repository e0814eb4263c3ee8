//! The decisions of the orchestrator that runs the workers.
pub mod cancel;
pub mod plan;
pub mod steps;
pub mod wait;

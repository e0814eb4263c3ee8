//! What reporters write while tests run.
pub mod json;
pub mod label;
pub mod lines;
pub mod progress;
pub mod status;

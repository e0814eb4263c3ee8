//! What a run leaves behind for the next one.
pub mod artifact;
pub mod history;
pub mod laws;
pub mod quarantine;

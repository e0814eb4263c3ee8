//! Outcomes of tests.
pub mod flaky;
pub mod kind;
pub mod quarantine;

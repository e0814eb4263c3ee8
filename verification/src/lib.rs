//! The logic of a Python test runner: quarantine and outcome history, fixture
//! resolution, report lines, and the decisions of the orchestrator and its workers.
pub mod cache;
pub mod cli;
pub mod duration;
pub mod exit;
pub mod fixtures;
pub mod line;
pub mod name;
pub mod reporter;
pub mod result;
pub mod runner;
pub mod style;
pub mod text;
pub mod worker;

use vstd::prelude::*;

verus! {

} // verus!

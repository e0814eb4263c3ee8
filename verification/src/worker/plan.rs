//! The decisions of a worker.
use crate::cache::artifact::{self, parent};
use crate::exit::ExitStatus;
use crate::name;
use crate::reporter::status::StatusLevel;
use vstd::prelude::*;

verus! {

/// The options of a worker that its start-up looks at.
#[derive(Debug)]
pub struct SubTestCommand {
    /// The sources whose coverage is measured.
    pub cov: Vec<String>,
    /// Where the coverage data goes.
    pub cov_data_file: Option<String>,
    /// Whether snapshots are to be updated.
    pub snapshot_update: Option<bool>,
}

impl Default for SubTestCommand {
    fn default() -> (command: Self)
        ensures
            command.cov@.len() == 0,
            command.cov_data_file is None,
            command.snapshot_update is None,
    {
        SubTestCommand { cov: Vec::new(), cov_data_file: None, snapshot_update: None }
    }
}

/// What coverage is measured, and where the data goes.
#[derive(Debug)]
pub struct CoverageConfig {
    pub sources: Vec<String>,
    pub data_file: String,
}

/// Why a worker does not start.
#[derive(Debug, Clone, Copy, PartialEq, Eq, Structural)]
pub enum WorkerError {
    /// Coverage is asked for, but no file for the data is named.
    MissingCoverageDataFile,
}

impl WorkerError {
    /// The message for an error.
    pub open spec fn message(self) -> Seq<char> {
        match self {
            WorkerError::MissingCoverageDataFile =>
                "karva-worker requires `--cov-data-file` when `--cov` is set"@,
        }
    }

    /// The message for this error.
    pub fn to_text(self) -> (message: String)
        ensures
            message@ == self.message(),
    {
        match self {
            WorkerError::MissingCoverageDataFile => {
                "karva-worker requires `--cov-data-file` when `--cov` is set".to_owned()
            },
        }
    }
}

/// Copies a list of strings.
fn copy_strings(list: &Vec<String>) -> (copy: Vec<String>)
    ensures
        copy@ == list@,
{
    let mut copy: Vec<String> = Vec::new();
    let mut i: usize = 0;
    while i < list.len()
        invariant
            i <= list@.len(),
            copy@ == list@.take(i as int),
        decreases list@.len() - i,
    {
        copy.push(list[i].clone());
        i += 1;
        assert(copy@ =~= list@.take(i as int));
    }
    assert(list@.take(i as int) =~= list@);
    copy
}

/// What coverage a worker measures: none without sources, and an error without a file for
/// the data.
pub fn worker_coverage_config(sub_command: &SubTestCommand) -> (config: Result<
    Option<CoverageConfig>,
    WorkerError,
>)
    ensures
        match config {
            Ok(None) => sub_command.cov@.len() == 0,
            Ok(Some(config)) => sub_command.cov@.len() > 0 && config.sources@ == sub_command.cov@
                && sub_command.cov_data_file == Some(config.data_file),
            Err(WorkerError::MissingCoverageDataFile) => sub_command.cov@.len() > 0
                && sub_command.cov_data_file is None,
        },
{
    if sub_command.cov.len() == 0 {
        return Ok(None);
    }
    match &sub_command.cov_data_file {
        Some(data_file) => Ok(
            Some(
                CoverageConfig {
                    sources: copy_strings(&sub_command.cov),
                    data_file: data_file.clone(),
                },
            ),
        ),
        None => Err(WorkerError::MissingCoverageDataFile),
    }
}

/// Which reporter a worker uses.
#[derive(Debug, Clone, Copy, PartialEq, Eq, Structural)]
pub enum ReporterChoice {
    Json,
    Dummy,
    TestCase,
}

/// The reporter for these settings.
pub open spec fn reporter_for(json: bool, status_level: StatusLevel) -> ReporterChoice {
    if json {
        ReporterChoice::Json
    } else if status_level == StatusLevel::Silent {
        ReporterChoice::Dummy
    } else {
        ReporterChoice::TestCase
    }
}

/// Chooses the reporter: JSON where it is asked for, none at the level that shows nothing.
pub fn choose_reporter(json: bool, status_level: StatusLevel) -> (choice: ReporterChoice)
    ensures
        choice == reporter_for(json, status_level),
{
    if json {
        ReporterChoice::Json
    } else if status_level == StatusLevel::Silent {
        ReporterChoice::Dummy
    } else {
        ReporterChoice::TestCase
    }
}

impl ReporterChoice {
    /// Whether the reporter publishes the test that is running.
    pub fn publishes_progress(self) -> (publishes: bool)
        ensures
            publishes == !(self is Dummy),
    {
        !matches!(self, ReporterChoice::Dummy)
    }
}

/// How a worker starts up.
#[derive(Debug)]
pub struct WorkerPlan {
    /// Whether snapshots are to be updated.
    pub snapshot_update: bool,
    pub coverage: Option<CoverageConfig>,
    pub reporter: ReporterChoice,
    /// The directory that must be there before the progress file can be written.
    pub progress_dir: Option<String>,
}

/// Plans the start of a worker from its options, or says why it does not start.
pub fn plan_worker(
    sub_command: &SubTestCommand,
    json: bool,
    status_level: StatusLevel,
    progress_file: &str,
) -> (plan: Result<WorkerPlan, WorkerError>)
    ensures
        match plan {
            Ok(plan) => {
                &&& plan.snapshot_update == (sub_command.snapshot_update == Some(true))
                &&& match plan.coverage {
                    Some(config) => sub_command.cov@.len() > 0 && config.sources@
                        == sub_command.cov@ && sub_command.cov_data_file == Some(config.data_file),
                    None => sub_command.cov@.len() == 0,
                }
                &&& plan.reporter == reporter_for(json, status_level)
                &&& artifact::is_parent(progress_file@, name::optional_text(plan.progress_dir))
            },
            Err(WorkerError::MissingCoverageDataFile) => sub_command.cov@.len() > 0
                && sub_command.cov_data_file is None,
        },
{
    let coverage = match worker_coverage_config(sub_command) {
        Ok(coverage) => coverage,
        Err(error) => return Err(error),
    };
    let snapshot_update = match sub_command.snapshot_update {
        Some(update) => update,
        None => false,
    };
    Ok(
        WorkerPlan {
            snapshot_update,
            coverage,
            reporter: choose_reporter(json, status_level),
            progress_dir: parent(progress_file),
        },
    )
}

/// The number of failures as the failure limit counts them.
pub open spec fn counted_failures(failed: nat) -> nat {
    if failed <= u32::MAX {
        failed
    } else {
        u32::MAX as nat
    }
}

/// The failure limit is reached.
pub open spec fn budget_spent(limit: Option<u32>, failed: nat) -> bool {
    limit matches Some(limit) && counted_failures(failed) >= limit
}

/// What a worker does when its tests are done.
#[derive(Debug, Clone, Copy, PartialEq, Eq, Structural)]
pub struct WorkerEnd {
    /// Tell the other workers to stop.
    pub signal_fail_fast: bool,
    pub status: ExitStatus,
}

/// How a worker ends after `failed` of its tests failed: the other workers are told to stop
/// when the failure limit is reached, and the worker itself has done its work either way.
pub fn end_worker(limit: Option<u32>, failed: usize) -> (end: WorkerEnd)
    ensures
        end.signal_fail_fast == budget_spent(limit, failed as nat),
        end.status == ExitStatus::Success,
{
    let count: u32 = if failed as u64 <= u32::MAX as u64 {
        failed as u32
    } else {
        u32::MAX
    };
    let signal_fail_fast = match limit {
        Some(limit) => count >= limit,
        None => false,
    };
    WorkerEnd { signal_fail_fast, status: ExitStatus::Success }
}

/// Without a failure limit no number of failures stops the other workers, and a limit that is
/// reached stays reached.
pub proof fn law_spent_budgets_stay_spent(limit: Option<u32>, failed: nat, more: nat)
    requires
        failed <= more,
    ensures
        limit is None ==> !budget_spent(limit, failed),
        budget_spent(limit, failed) ==> budget_spent(limit, more),
{
}

/// The failure limit is reached by as many failures as it says, and by more; without a limit it
/// never is.
pub proof fn law_limits_count_every_failure(limit: u32, failed: nat)
    ensures
        budget_spent(Some(limit), failed) <==> failed >= limit,
        !budget_spent(None, failed),
{
}

/// JSON is written exactly where it is asked for, whatever the level. Elsewhere nothing is
/// reported at the level that shows nothing, and lines are at every other level.
pub proof fn law_reporters_follow_the_settings(json: bool, level: StatusLevel)
    ensures
        reporter_for(json, level) == ReporterChoice::Json <==> json,
        reporter_for(json, level) == ReporterChoice::Dummy <==> !json && level is Silent,
        reporter_for(json, level) == ReporterChoice::TestCase <==> !json && !(level is Silent),
{
}

} // verus!

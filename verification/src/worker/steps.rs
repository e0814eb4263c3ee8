//! The steps of a worker, in order.
use vstd::prelude::*;

verus! {

/// One step of a worker.
#[derive(Debug, Clone, Copy, PartialEq, Eq, Structural)]
pub enum WorkerStep {
    /// Read the arguments, those in argument files too.
    ReadArguments,
    /// Tell the tests to update snapshots.
    EnableSnapshotUpdate,
    /// Set up colours, status levels and logging.
    SetUpOutput,
    /// Read the working directory.
    ReadWorkingDirectory,
    /// Parse the filter expressions.
    ParseFilter,
    /// Decide on coverage.
    PlanCoverage,
    /// Parse the id of the run.
    ParseRunId,
    /// Create the directory of the progress file.
    CreateProgressDirectory,
    /// Open the progress file.
    OpenProgressFile,
    /// Run the tests.
    RunTests,
    /// Leave the results for the orchestrator.
    WriteResult,
    /// Tell the other workers to stop.
    SignalFailFast,
    /// End.
    Finish,
}

/// The number of steps.
pub const STEP_COUNT: usize = 13;

/// The place of a step.
pub open spec fn rank(step: WorkerStep) -> int {
    match step {
        WorkerStep::ReadArguments => 0,
        WorkerStep::EnableSnapshotUpdate => 1,
        WorkerStep::SetUpOutput => 2,
        WorkerStep::ReadWorkingDirectory => 3,
        WorkerStep::ParseFilter => 4,
        WorkerStep::PlanCoverage => 5,
        WorkerStep::ParseRunId => 6,
        WorkerStep::CreateProgressDirectory => 7,
        WorkerStep::OpenProgressFile => 8,
        WorkerStep::RunTests => 9,
        WorkerStep::WriteResult => 10,
        WorkerStep::SignalFailFast => 11,
        WorkerStep::Finish => 12,
    }
}

/// What decides which steps a worker takes. What is found out on the way is filled in when
/// the step that finds it out is done.
#[derive(Debug, Clone, Copy, PartialEq, Eq, Structural)]
pub struct WorkerFacts {
    /// Snapshots are to be updated; known once the arguments are read.
    pub snapshot_update: bool,
    /// The progress file is in a directory; known once the run is.
    pub has_progress_dir: bool,
    /// The reporter publishes the running test; known once the arguments are read.
    pub publishes_progress: bool,
    /// The failure limit is reached; known once the tests are run.
    pub budget_spent: bool,
}

/// A worker with these facts takes `step`.
pub open spec fn applies(facts: WorkerFacts, step: WorkerStep) -> bool {
    match step {
        WorkerStep::EnableSnapshotUpdate => facts.snapshot_update,
        WorkerStep::CreateProgressDirectory => facts.has_progress_dir,
        WorkerStep::OpenProgressFile => facts.publishes_progress,
        WorkerStep::SignalFailFast => facts.budget_spent,
        _ => true,
    }
}

/// The place that the last step done has, one before the first when none is done.
pub open spec fn rank_done(done: Option<WorkerStep>) -> int {
    match done {
        Some(step) => rank(step),
        None => -1,
    }
}

/// `step` is the first one behind the place `before` that the worker takes.
pub open spec fn follows(facts: WorkerFacts, before: int, step: WorkerStep) -> bool {
    &&& applies(facts, step)
    &&& before < rank(step)
    &&& forall|between: WorkerStep|
        before < #[trigger] rank(between) < rank(step) ==> !applies(facts, between)
}

fn step_at(place: usize) -> (step: WorkerStep)
    requires
        place < STEP_COUNT,
    ensures
        rank(step) == place,
{
    match place {
        0 => WorkerStep::ReadArguments,
        1 => WorkerStep::EnableSnapshotUpdate,
        2 => WorkerStep::SetUpOutput,
        3 => WorkerStep::ReadWorkingDirectory,
        4 => WorkerStep::ParseFilter,
        5 => WorkerStep::PlanCoverage,
        6 => WorkerStep::ParseRunId,
        7 => WorkerStep::CreateProgressDirectory,
        8 => WorkerStep::OpenProgressFile,
        9 => WorkerStep::RunTests,
        10 => WorkerStep::WriteResult,
        11 => WorkerStep::SignalFailFast,
        _ => WorkerStep::Finish,
    }
}

fn place_of(step: WorkerStep) -> (place: usize)
    ensures
        place == rank(step),
        place < STEP_COUNT,
{
    match step {
        WorkerStep::ReadArguments => 0,
        WorkerStep::EnableSnapshotUpdate => 1,
        WorkerStep::SetUpOutput => 2,
        WorkerStep::ReadWorkingDirectory => 3,
        WorkerStep::ParseFilter => 4,
        WorkerStep::PlanCoverage => 5,
        WorkerStep::ParseRunId => 6,
        WorkerStep::CreateProgressDirectory => 7,
        WorkerStep::OpenProgressFile => 8,
        WorkerStep::RunTests => 9,
        WorkerStep::WriteResult => 10,
        WorkerStep::SignalFailFast => 11,
        WorkerStep::Finish => 12,
    }
}

fn is_taken(facts: &WorkerFacts, step: WorkerStep) -> (taken: bool)
    ensures
        taken == applies(*facts, step),
{
    match step {
        WorkerStep::EnableSnapshotUpdate => facts.snapshot_update,
        WorkerStep::CreateProgressDirectory => facts.has_progress_dir,
        WorkerStep::OpenProgressFile => facts.publishes_progress,
        WorkerStep::SignalFailFast => facts.budget_spent,
        _ => true,
    }
}

/// The step to take after `done`: the first one behind it that the worker takes.
pub fn next_step(facts: &WorkerFacts, done: Option<WorkerStep>) -> (step: WorkerStep)
    requires
        done != Some(WorkerStep::Finish),
    ensures
        follows(*facts, rank_done(done), step),
{
    let mut place: usize = match done {
        Some(step) => place_of(step) + 1,
        None => 0,
    };
    while place + 1 < STEP_COUNT
        invariant
            rank_done(done) < place < STEP_COUNT,
            forall|between: WorkerStep|
                rank_done(done) < #[trigger] rank(between) < place ==> !applies(*facts, between),
        decreases STEP_COUNT - place,
    {
        let step = step_at(place);
        if is_taken(facts, step) {
            return step;
        }
        assert forall|between: WorkerStep|
            rank_done(done) < #[trigger] rank(between) < place + 1 implies !applies(
            *facts,
            between,
        ) by {
            if rank(between) == place {
                lemma_rank_tells_steps_apart(between, step);
            }
        }
        place += 1;
    }
    WorkerStep::Finish
}

/// No two steps have the same place.
pub proof fn lemma_rank_tells_steps_apart(a: WorkerStep, b: WorkerStep)
    requires
        rank(a) == rank(b),
    ensures
        a == b,
{
}

/// What a failure of a step is reported as, ahead of its cause; none where the cause speaks
/// for itself. `progress_dir` is the directory of the progress file.
pub open spec fn failure_context(step: WorkerStep, progress_dir: Seq<char>) -> Option<Seq<char>> {
    match step {
        WorkerStep::ReadArguments => Some("Failed to read CLI arguments from file"@),
        WorkerStep::ReadWorkingDirectory => Some("Failed to get the current working directory"@),
        WorkerStep::ParseFilter => Some("invalid `--filter` expression"@),
        WorkerStep::ParseRunId => Some("Invalid run id"@),
        WorkerStep::CreateProgressDirectory => Some(
            "Failed to create worker progress directory `"@ + progress_dir + "`"@,
        ),
        WorkerStep::OpenProgressFile => Some("Failed to open worker progress file"@),
        _ => None,
    }
}

/// What a failure of `step` is reported as, ahead of its cause.
pub fn failure_text(step: WorkerStep, progress_dir: &str) -> (context: Option<String>)
    ensures
        crate::name::optional_text(context) == failure_context(step, progress_dir@),
{
    match step {
        WorkerStep::ReadArguments => Some("Failed to read CLI arguments from file".to_owned()),
        WorkerStep::ReadWorkingDirectory => Some(
            "Failed to get the current working directory".to_owned(),
        ),
        WorkerStep::ParseFilter => Some("invalid `--filter` expression".to_owned()),
        WorkerStep::ParseRunId => Some("Invalid run id".to_owned()),
        WorkerStep::CreateProgressDirectory => Some(
            "Failed to create worker progress directory `".to_owned().concat(progress_dir).concat(
                "`",
            ),
        ),
        WorkerStep::OpenProgressFile => Some("Failed to open worker progress file".to_owned()),
        _ => None,
    }
}

/// The error for a working directory whose path is not Unicode, `shown` being what can be
/// shown of it.
pub fn non_unicode_cwd(shown: &str) -> (message: String)
    ensures
        message@ == "The current working directory `"@ + shown@
            + "` contains non-Unicode characters. karva only supports Unicode paths."@,
{
    "The current working directory `".to_owned().concat(shown).concat(
        "` contains non-Unicode characters. karva only supports Unicode paths.",
    )
}

/// The tests run only after everything that can refuse the start has been gone through, and
/// the other workers are told to stop only after the results are left.
pub proof fn law_results_are_left_before_the_signal(facts: WorkerFacts)
    ensures
        applies(facts, WorkerStep::RunTests),
        applies(facts, WorkerStep::WriteResult),
        rank(WorkerStep::PlanCoverage) < rank(WorkerStep::ParseRunId) < rank(
            WorkerStep::CreateProgressDirectory,
        ) < rank(WorkerStep::OpenProgressFile) < rank(WorkerStep::RunTests) < rank(
            WorkerStep::WriteResult,
        ) < rank(WorkerStep::SignalFailFast),
{
}

/// The `i`th of `steps` is the first one that the worker takes behind the one before it.
pub open spec fn comes_next(facts: WorkerFacts, steps: Seq<WorkerStep>, i: int) -> bool {
    follows(
        facts,
        rank_done(
            if i == 0 {
                None
            } else {
                Some(steps[i - 1])
            },
        ),
        steps[i],
    )
}

/// `steps` are the steps of a worker with these facts: they begin with the first one taken, go
/// on with the next one each time and end with `Finish`.
pub open spec fn is_run(facts: WorkerFacts, steps: Seq<WorkerStep>) -> bool {
    &&& steps.len() > 0
    &&& steps.last() is Finish
    &&& forall|i: int| 0 <= i < steps.len() ==> #[trigger] comes_next(facts, steps, i)
}

/// A worker takes exactly the steps that apply, in the order of their places.
proof fn lemma_run_takes_what_applies(facts: WorkerFacts, steps: Seq<WorkerStep>, step: WorkerStep)
    requires
        is_run(facts, steps),
    ensures
        steps.contains(step) <==> applies(facts, step),
        forall|i: int, j: int|
            0 <= i < j < steps.len() ==> rank(#[trigger] steps[i]) < rank(#[trigger] steps[j]),
{
    assert forall|i: int, j: int| 0 <= i < j < steps.len() implies rank(#[trigger] steps[i]) < rank(
        #[trigger] steps[j],
    ) by {
        lemma_ranks_grow(facts, steps, i, j);
    }
    if applies(facts, step) {
        lemma_step_is_reached(facts, steps, step, steps.len() - 1);
    }
    if steps.contains(step) {
        let i = choose|i: int| 0 <= i < steps.len() && steps[i] == step;
        assert(comes_next(facts, steps, i));
    }
}

proof fn lemma_ranks_grow(facts: WorkerFacts, steps: Seq<WorkerStep>, i: int, j: int)
    requires
        is_run(facts, steps),
        0 <= i < j < steps.len(),
    ensures
        rank(steps[i]) < rank(steps[j]),
    decreases j,
{
    assert(comes_next(facts, steps, j));
    if i < j - 1 {
        lemma_ranks_grow(facts, steps, i, j - 1);
    }
}

/// A step that applies and does not come after the `i`th step is among the first ones.
proof fn lemma_step_is_reached(
    facts: WorkerFacts,
    steps: Seq<WorkerStep>,
    step: WorkerStep,
    i: int,
)
    requires
        is_run(facts, steps),
        applies(facts, step),
        0 <= i < steps.len(),
        rank(step) <= rank(steps[i]),
    ensures
        steps.contains(step),
    decreases i,
{
    assert(comes_next(facts, steps, i));
    if rank(step) == rank(steps[i]) {
        lemma_rank_tells_steps_apart(step, steps[i]);
    } else if i > 0 {
        if rank(step) > rank(steps[i - 1]) {
            assert(!applies(facts, step));
        } else {
            lemma_step_is_reached(facts, steps, step, i - 1);
        }
    }
}

/// A worker takes each step exactly when it is wanted: the optional ones when the facts ask for
/// them, all others always.
pub proof fn law_steps_are_taken_when_wanted(facts: WorkerFacts, steps: Seq<WorkerStep>)
    requires
        is_run(facts, steps),
    ensures
        steps.contains(WorkerStep::EnableSnapshotUpdate) <==> facts.snapshot_update,
        steps.contains(WorkerStep::CreateProgressDirectory) <==> facts.has_progress_dir,
        steps.contains(WorkerStep::OpenProgressFile) <==> facts.publishes_progress,
        steps.contains(WorkerStep::SignalFailFast) <==> facts.budget_spent,
        steps.contains(WorkerStep::ReadArguments),
        steps.contains(WorkerStep::SetUpOutput),
        steps.contains(WorkerStep::ReadWorkingDirectory),
        steps.contains(WorkerStep::ParseFilter),
        steps.contains(WorkerStep::PlanCoverage),
        steps.contains(WorkerStep::ParseRunId),
        steps.contains(WorkerStep::RunTests),
        steps.contains(WorkerStep::WriteResult),
        steps.contains(WorkerStep::Finish),
{
    lemma_run_takes_what_applies(facts, steps, WorkerStep::ReadArguments);
    lemma_run_takes_what_applies(facts, steps, WorkerStep::EnableSnapshotUpdate);
    lemma_run_takes_what_applies(facts, steps, WorkerStep::SetUpOutput);
    lemma_run_takes_what_applies(facts, steps, WorkerStep::ReadWorkingDirectory);
    lemma_run_takes_what_applies(facts, steps, WorkerStep::ParseFilter);
    lemma_run_takes_what_applies(facts, steps, WorkerStep::PlanCoverage);
    lemma_run_takes_what_applies(facts, steps, WorkerStep::ParseRunId);
    lemma_run_takes_what_applies(facts, steps, WorkerStep::CreateProgressDirectory);
    lemma_run_takes_what_applies(facts, steps, WorkerStep::OpenProgressFile);
    lemma_run_takes_what_applies(facts, steps, WorkerStep::RunTests);
    lemma_run_takes_what_applies(facts, steps, WorkerStep::WriteResult);
    lemma_run_takes_what_applies(facts, steps, WorkerStep::SignalFailFast);
    lemma_run_takes_what_applies(facts, steps, WorkerStep::Finish);
}

/// A worker takes its steps in this order, each at most once.
pub proof fn law_steps_are_taken_in_order(
    facts: WorkerFacts,
    steps: Seq<WorkerStep>,
    i: int,
    j: int,
    p: int,
    q: int,
)
    requires
        is_run(facts, steps),
        0 <= i < j < steps.len(),
        0 <= p < 13,
        0 <= q < 13,
    ensures
        ({
            let order = seq![
                WorkerStep::ReadArguments,
                WorkerStep::EnableSnapshotUpdate,
                WorkerStep::SetUpOutput,
                WorkerStep::ReadWorkingDirectory,
                WorkerStep::ParseFilter,
                WorkerStep::PlanCoverage,
                WorkerStep::ParseRunId,
                WorkerStep::CreateProgressDirectory,
                WorkerStep::OpenProgressFile,
                WorkerStep::RunTests,
                WorkerStep::WriteResult,
                WorkerStep::SignalFailFast,
                WorkerStep::Finish,
            ];
            steps[i] == order[p] && steps[j] == order[q] ==> p < q
        }),
{
    lemma_run_takes_what_applies(facts, steps, steps[i]);
    let order = seq![
        WorkerStep::ReadArguments,
        WorkerStep::EnableSnapshotUpdate,
        WorkerStep::SetUpOutput,
        WorkerStep::ReadWorkingDirectory,
        WorkerStep::ParseFilter,
        WorkerStep::PlanCoverage,
        WorkerStep::ParseRunId,
        WorkerStep::CreateProgressDirectory,
        WorkerStep::OpenProgressFile,
        WorkerStep::RunTests,
        WorkerStep::WriteResult,
        WorkerStep::SignalFailFast,
        WorkerStep::Finish,
    ];
    assert(rank(order[p]) == p);
    assert(rank(order[q]) == q);
    assert(rank(steps[i]) < rank(steps[j]));
}

/// What follows a step of a worker: the step that comes next in order, where a step that is not
/// wanted is passed over.
pub proof fn law_the_next_wanted_step_follows(
    facts: WorkerFacts,
    done: Option<WorkerStep>,
    step: WorkerStep,
)
    requires
        follows(facts, rank_done(done), step),
    ensures
        done is None ==> step == WorkerStep::ReadArguments,
        done == Some(WorkerStep::ReadArguments) ==> step == if facts.snapshot_update {
            WorkerStep::EnableSnapshotUpdate
        } else {
            WorkerStep::SetUpOutput
        },
        done == Some(WorkerStep::EnableSnapshotUpdate) ==> step == WorkerStep::SetUpOutput,
        done == Some(WorkerStep::SetUpOutput) ==> step == WorkerStep::ReadWorkingDirectory,
        done == Some(WorkerStep::ReadWorkingDirectory) ==> step == WorkerStep::ParseFilter,
        done == Some(WorkerStep::ParseFilter) ==> step == WorkerStep::PlanCoverage,
        done == Some(WorkerStep::PlanCoverage) ==> step == WorkerStep::ParseRunId,
        done == Some(WorkerStep::ParseRunId) && facts.has_progress_dir ==> step
            == WorkerStep::CreateProgressDirectory,
        done == Some(WorkerStep::ParseRunId) && !facts.has_progress_dir || done == Some(
            WorkerStep::CreateProgressDirectory,
        ) ==> step == if facts.publishes_progress {
            WorkerStep::OpenProgressFile
        } else {
            WorkerStep::RunTests
        },
        done == Some(WorkerStep::OpenProgressFile) ==> step == WorkerStep::RunTests,
        done == Some(WorkerStep::RunTests) ==> step == WorkerStep::WriteResult,
        done == Some(WorkerStep::WriteResult) ==> step == if facts.budget_spent {
            WorkerStep::SignalFailFast
        } else {
            WorkerStep::Finish
        },
        done == Some(WorkerStep::SignalFailFast) ==> step == WorkerStep::Finish,
{
    assert(rank(WorkerStep::ReadArguments) == 0);
    assert(rank(WorkerStep::EnableSnapshotUpdate) == 1);
    assert(rank(WorkerStep::SetUpOutput) == 2);
    assert(rank(WorkerStep::ReadWorkingDirectory) == 3);
    assert(rank(WorkerStep::ParseFilter) == 4);
    assert(rank(WorkerStep::PlanCoverage) == 5);
    assert(rank(WorkerStep::ParseRunId) == 6);
    assert(rank(WorkerStep::CreateProgressDirectory) == 7);
    assert(rank(WorkerStep::OpenProgressFile) == 8);
    assert(rank(WorkerStep::RunTests) == 9);
    assert(rank(WorkerStep::WriteResult) == 10);
    assert(rank(WorkerStep::SignalFailFast) == 11);
    assert(rank(WorkerStep::Finish) == 12);
}

/// A failure to create the directory of the progress file names that directory between
/// backquotes. Failures of the other steps are reported alike for every directory: those of the
/// steps that read, parse or open something with a text of their own, the rest as they are.
pub proof fn law_failures_are_put_into_context(step: WorkerStep, dir: Seq<char>, other: Seq<char>)
    ensures
        failure_context(WorkerStep::CreateProgressDirectory, dir) == Some(
            "Failed to create worker progress directory "@ + seq!['`'] + dir + seq!['`'],
        ),
        step != WorkerStep::CreateProgressDirectory ==> failure_context(step, dir)
            == failure_context(step, other),
        failure_context(step, dir) is Some <==> step is ReadArguments || step
            is ReadWorkingDirectory || step is ParseFilter || step is ParseRunId || step
            is CreateProgressDirectory || step is OpenProgressFile,
        step is ReadArguments ==> failure_context(step, dir) == Some(
            "Failed to read CLI arguments from file"@,
        ),
        step is ReadWorkingDirectory ==> failure_context(step, dir) == Some(
            "Failed to get the current working directory"@,
        ),
        step is ParseFilter ==> failure_context(step, dir) == Some(
            "invalid `--filter` expression"@,
        ),
        step is ParseRunId ==> failure_context(step, dir) == Some("Invalid run id"@),
        step is OpenProgressFile ==> failure_context(step, dir) == Some(
            "Failed to open worker progress file"@,
        ),
{
    reveal_strlit("Failed to create worker progress directory `");
    reveal_strlit("Failed to create worker progress directory ");
    reveal_strlit("`");
    assert("Failed to create worker progress directory `"@ + dir + "`"@
        =~= "Failed to create worker progress directory "@ + seq!['`'] + dir + seq!['`']);
}

} // verus!

//! The steps of a run, in order.
use crate::runner::wait::WaitOutcome;
use vstd::prelude::*;

verus! {

/// One step of a run.
#[derive(Debug, Clone, Copy, PartialEq, Eq, Structural)]
pub enum RunStep {
    /// Install the Ctrl+C handler.
    InstallShutdownHandler,
    /// Start the clock of the run timeout.
    StartClock,
    /// Collect the tests of the project.
    Collect,
    /// Write the line that announces the start.
    AnnounceStart,
    /// Read the durations of earlier runs.
    ReadDurations,
    /// Read which tests failed last.
    ReadLastFailed,
    /// Split the tests up between the workers.
    Partition,
    /// Find the program that workers run.
    FindWorker,
    /// Start the workers.
    SpawnWorkers,
    /// Wait for the workers.
    WaitForWorkers,
    /// Stop the workers and report what was interrupted.
    CancelWorkers,
    /// Stop the workers that remain.
    KillWorkers,
    /// Merge the results that the workers left.
    AggregateResults,
    /// Add the interrupted tests to the results.
    RegisterInterrupted,
    /// Write down which tests failed.
    WriteLastFailed,
    /// Find the coverage files that the workers left.
    CollectCoverage,
    /// Hand the results back.
    Finish,
}

/// The number of steps.
pub const STEP_COUNT: usize = 17;

/// The place of a step in a run.
pub open spec fn rank(step: RunStep) -> int {
    match step {
        RunStep::InstallShutdownHandler => 0,
        RunStep::StartClock => 1,
        RunStep::Collect => 2,
        RunStep::AnnounceStart => 3,
        RunStep::ReadDurations => 4,
        RunStep::ReadLastFailed => 5,
        RunStep::Partition => 6,
        RunStep::FindWorker => 7,
        RunStep::SpawnWorkers => 8,
        RunStep::WaitForWorkers => 9,
        RunStep::CancelWorkers => 10,
        RunStep::KillWorkers => 11,
        RunStep::AggregateResults => 12,
        RunStep::RegisterInterrupted => 13,
        RunStep::WriteLastFailed => 14,
        RunStep::CollectCoverage => 15,
        RunStep::Finish => 16,
    }
}

/// What decides which steps a run takes. What is found out on the way is filled in when
/// the step that finds it out is done.
#[derive(Debug, Clone, Copy, PartialEq, Eq, Structural)]
pub struct RunFacts {
    /// Ctrl+C is to be handled.
    pub create_ctrlc_handler: bool,
    /// The run has a time limit.
    pub has_timeout: bool,
    pub no_cache: bool,
    pub last_failed: bool,
    /// Coverage is measured.
    pub coverage: bool,
    /// The number of tests, once they are collected.
    pub total_tests: usize,
    /// How waiting for the workers ended, once it has.
    pub outcome: Option<WaitOutcome>,
}

/// A run with these facts takes `step`.
pub open spec fn applies(facts: RunFacts, step: RunStep) -> bool {
    match step {
        RunStep::InstallShutdownHandler => facts.create_ctrlc_handler,
        RunStep::StartClock => facts.has_timeout,
        RunStep::AnnounceStart => facts.total_tests > 0,
        RunStep::ReadDurations => !facts.no_cache,
        RunStep::ReadLastFailed => facts.last_failed,
        RunStep::CancelWorkers => facts.outcome == Some(WaitOutcome::Cancelled),
        RunStep::KillWorkers => facts.outcome != Some(WaitOutcome::Cancelled),
        RunStep::RegisterInterrupted => facts.outcome == Some(WaitOutcome::Cancelled),
        RunStep::WriteLastFailed => !facts.no_cache,
        RunStep::CollectCoverage => facts.coverage,
        _ => true,
    }
}

/// The place that the last step done has, one before the first when none is done.
pub open spec fn rank_done(done: Option<RunStep>) -> int {
    match done {
        Some(step) => rank(step),
        None => -1,
    }
}

/// `step` is the first one behind the place `before` that the run takes.
pub open spec fn follows(facts: RunFacts, before: int, step: RunStep) -> bool {
    &&& applies(facts, step)
    &&& before < rank(step)
    &&& forall|between: RunStep|
        before < #[trigger] rank(between) < rank(step) ==> !applies(facts, between)
}

fn step_at(place: usize) -> (step: RunStep)
    requires
        place < STEP_COUNT,
    ensures
        rank(step) == place,
{
    match place {
        0 => RunStep::InstallShutdownHandler,
        1 => RunStep::StartClock,
        2 => RunStep::Collect,
        3 => RunStep::AnnounceStart,
        4 => RunStep::ReadDurations,
        5 => RunStep::ReadLastFailed,
        6 => RunStep::Partition,
        7 => RunStep::FindWorker,
        8 => RunStep::SpawnWorkers,
        9 => RunStep::WaitForWorkers,
        10 => RunStep::CancelWorkers,
        11 => RunStep::KillWorkers,
        12 => RunStep::AggregateResults,
        13 => RunStep::RegisterInterrupted,
        14 => RunStep::WriteLastFailed,
        15 => RunStep::CollectCoverage,
        _ => RunStep::Finish,
    }
}

fn place_of(step: RunStep) -> (place: usize)
    ensures
        place == rank(step),
        place < STEP_COUNT,
{
    match step {
        RunStep::InstallShutdownHandler => 0,
        RunStep::StartClock => 1,
        RunStep::Collect => 2,
        RunStep::AnnounceStart => 3,
        RunStep::ReadDurations => 4,
        RunStep::ReadLastFailed => 5,
        RunStep::Partition => 6,
        RunStep::FindWorker => 7,
        RunStep::SpawnWorkers => 8,
        RunStep::WaitForWorkers => 9,
        RunStep::CancelWorkers => 10,
        RunStep::KillWorkers => 11,
        RunStep::AggregateResults => 12,
        RunStep::RegisterInterrupted => 13,
        RunStep::WriteLastFailed => 14,
        RunStep::CollectCoverage => 15,
        RunStep::Finish => 16,
    }
}

fn is_taken(facts: &RunFacts, step: RunStep) -> (taken: bool)
    ensures
        taken == applies(*facts, step),
{
    let cancelled = match facts.outcome {
        Some(outcome) => outcome == WaitOutcome::Cancelled,
        None => false,
    };
    match step {
        RunStep::InstallShutdownHandler => facts.create_ctrlc_handler,
        RunStep::StartClock => facts.has_timeout,
        RunStep::AnnounceStart => facts.total_tests > 0,
        RunStep::ReadDurations => !facts.no_cache,
        RunStep::ReadLastFailed => facts.last_failed,
        RunStep::CancelWorkers => cancelled,
        RunStep::KillWorkers => !cancelled,
        RunStep::RegisterInterrupted => cancelled,
        RunStep::WriteLastFailed => !facts.no_cache,
        RunStep::CollectCoverage => facts.coverage,
        _ => true,
    }
}

/// The step to take after `done`: the first one behind it that the run takes.
pub fn next_step(facts: &RunFacts, done: Option<RunStep>) -> (step: RunStep)
    requires
        done != Some(RunStep::Finish),
    ensures
        follows(*facts, rank_done(done), step),
{
    let mut place: usize = match done {
        Some(step) => place_of(step) + 1,
        None => 0,
    };
    while place + 1 < STEP_COUNT
        invariant
            rank_done(done) < place < STEP_COUNT,
            forall|between: RunStep|
                rank_done(done) < #[trigger] rank(between) < place ==> !applies(*facts, between),
        decreases STEP_COUNT - place,
    {
        let step = step_at(place);
        if is_taken(facts, step) {
            return step;
        }
        assert forall|between: RunStep|
            rank_done(done) < #[trigger] rank(between) < place + 1 implies !applies(
            *facts,
            between,
        ) by {
            if rank(between) == place {
                lemma_rank_tells_steps_apart(between, step);
            }
        }
        place += 1;
    }
    RunStep::Finish
}

/// A failure of `step` ends the run; failures of the other steps are only logged.
pub fn aborts_on_error(step: RunStep) -> (aborts: bool)
    ensures
        aborts == (step is Collect || step is FindWorker || step is SpawnWorkers
            || step is AggregateResults || step is CollectCoverage),
{
    matches!(
        step,
        RunStep::Collect | RunStep::FindWorker | RunStep::SpawnWorkers | RunStep::AggregateResults
            | RunStep::CollectCoverage
    )
}

/// No two steps have the same place.
pub proof fn lemma_rank_tells_steps_apart(a: RunStep, b: RunStep)
    requires
        rank(a) == rank(b),
    ensures
        a == b,
{
}

/// The `i`th of `steps` is the first one that the run takes behind the one before it.
pub open spec fn comes_next(facts: RunFacts, steps: Seq<RunStep>, i: int) -> bool {
    follows(
        facts,
        rank_done(
            if i == 0 {
                None
            } else {
                Some(steps[i - 1])
            },
        ),
        steps[i],
    )
}

/// `steps` is a run with these facts: it begins with the first step taken, goes on with the
/// next one each time and ends with `Finish`.
pub open spec fn is_run(facts: RunFacts, steps: Seq<RunStep>) -> bool {
    &&& steps.len() > 0
    &&& steps.last() is Finish
    &&& forall|i: int| 0 <= i < steps.len() ==> #[trigger] comes_next(facts, steps, i)
}

/// A run takes exactly the steps that apply.
proof fn lemma_run_takes_what_applies(facts: RunFacts, steps: Seq<RunStep>, step: RunStep)
    requires
        is_run(facts, steps),
    ensures
        steps.contains(step) <==> applies(facts, step),
        forall|i: int, j: int|
            0 <= i < j < steps.len() ==> rank(#[trigger] steps[i]) < rank(#[trigger] steps[j]),
{
    assert forall|i: int, j: int| 0 <= i < j < steps.len() implies rank(#[trigger] steps[i]) < rank(
        #[trigger] steps[j],
    ) by {
        lemma_ranks_grow(facts, steps, i, j);
    }
    if applies(facts, step) {
        lemma_step_is_reached(facts, steps, step, steps.len() - 1);
    }
    if steps.contains(step) {
        let i = choose|i: int| 0 <= i < steps.len() && steps[i] == step;
        assert(comes_next(facts, steps, i));
    }
}

proof fn lemma_ranks_grow(facts: RunFacts, steps: Seq<RunStep>, i: int, j: int)
    requires
        is_run(facts, steps),
        0 <= i < j < steps.len(),
    ensures
        rank(steps[i]) < rank(steps[j]),
    decreases j,
{
    assert(comes_next(facts, steps, j));
    if i < j - 1 {
        lemma_ranks_grow(facts, steps, i, j - 1);
    }
}

/// A step that applies and does not come after the `i`th step is among the first ones.
proof fn lemma_step_is_reached(facts: RunFacts, steps: Seq<RunStep>, step: RunStep, i: int)
    requires
        is_run(facts, steps),
        applies(facts, step),
        0 <= i < steps.len(),
        rank(step) <= rank(steps[i]),
    ensures
        steps.contains(step),
    decreases i,
{
    assert(comes_next(facts, steps, i));
    if rank(step) == rank(steps[i]) {
        lemma_rank_tells_steps_apart(step, steps[i]);
    } else if i > 0 {
        if rank(step) > rank(steps[i - 1]) {
            assert(!applies(facts, step));
        } else {
            lemma_step_is_reached(facts, steps, step, i - 1);
        }
    }
}

/// The Ctrl+C handler and the clock of the run timeout are there before collection starts,
/// so that both cover the whole run.
pub proof fn law_limits_cover_the_whole_run(
    facts: RunFacts,
    steps: Seq<RunStep>,
    early: int,
    collect: int,
)
    requires
        is_run(facts, steps),
        0 <= early < steps.len(),
        0 <= collect < steps.len(),
        steps[early] is InstallShutdownHandler || steps[early] is StartClock,
        steps[collect] is Collect,
    ensures
        early < collect,
{
    lemma_run_takes_what_applies(facts, steps, RunStep::Collect);
    if collect < early {
        assert(rank(steps[collect]) < rank(steps[early]));
    }
}

/// Every run stops its workers, in exactly one of the two ways, before results are read.
pub proof fn law_workers_are_stopped_once(facts: RunFacts, steps: Seq<RunStep>)
    requires
        is_run(facts, steps),
    ensures
        steps.contains(RunStep::CancelWorkers) <==> !steps.contains(RunStep::KillWorkers),
        steps.contains(RunStep::CancelWorkers) <==> facts.outcome == Some(WaitOutcome::Cancelled),
        forall|i: int, j: int|
            0 <= i < steps.len() && 0 <= j < steps.len() && (#[trigger] steps[i] is CancelWorkers
                || steps[i] is KillWorkers) && #[trigger] steps[j] is AggregateResults ==> i < j,
{
    lemma_run_takes_what_applies(facts, steps, RunStep::CancelWorkers);
    lemma_run_takes_what_applies(facts, steps, RunStep::KillWorkers);
    assert forall|i: int, j: int|
        0 <= i < steps.len() && 0 <= j < steps.len() && (#[trigger] steps[i] is CancelWorkers
            || steps[i] is KillWorkers) && #[trigger] steps[j] is AggregateResults implies i
        < j by {
        if j < i {
            assert(rank(steps[j]) < rank(steps[i]));
        }
    }
}

/// A run without cache neither reads durations nor writes down what failed.
pub proof fn law_no_cache_leaves_the_cache_alone(facts: RunFacts, steps: Seq<RunStep>)
    requires
        is_run(facts, steps),
    ensures
        facts.no_cache <==> !steps.contains(RunStep::ReadDurations),
        facts.no_cache <==> !steps.contains(RunStep::WriteLastFailed),
{
    lemma_run_takes_what_applies(facts, steps, RunStep::ReadDurations);
    lemma_run_takes_what_applies(facts, steps, RunStep::WriteLastFailed);
}

/// A step is only chosen by facts that are known by then: up to collection neither the
/// number of tests nor the outcome is consulted, and up to the wait not the outcome.
pub proof fn law_unknown_facts_are_not_consulted(
    facts: RunFacts,
    total_tests: usize,
    outcome: Option<WaitOutcome>,
    step: RunStep,
)
    ensures
        rank(step) <= rank(RunStep::Collect) ==> applies(facts, step) == applies(
            (RunFacts { total_tests, outcome, ..facts }),
            step,
        ),
        rank(step) <= rank(RunStep::WaitForWorkers) ==> applies(facts, step) == applies(
            (RunFacts { outcome, ..facts }),
            step,
        ),
        applies(facts, RunStep::Collect),
        applies(facts, RunStep::WaitForWorkers),
{
}

/// A run takes each step exactly when it is wanted: the optional ones when the facts ask for
/// them, all others always.
pub proof fn law_steps_are_taken_when_wanted(facts: RunFacts, steps: Seq<RunStep>)
    requires
        is_run(facts, steps),
    ensures
        steps.contains(RunStep::InstallShutdownHandler) <==> facts.create_ctrlc_handler,
        steps.contains(RunStep::StartClock) <==> facts.has_timeout,
        steps.contains(RunStep::AnnounceStart) <==> facts.total_tests > 0,
        steps.contains(RunStep::ReadDurations) <==> !facts.no_cache,
        steps.contains(RunStep::ReadLastFailed) <==> facts.last_failed,
        steps.contains(RunStep::CancelWorkers) <==> facts.outcome == Some(WaitOutcome::Cancelled),
        steps.contains(RunStep::KillWorkers) <==> facts.outcome != Some(WaitOutcome::Cancelled),
        steps.contains(RunStep::RegisterInterrupted) <==> facts.outcome == Some(WaitOutcome::Cancelled),
        steps.contains(RunStep::WriteLastFailed) <==> !facts.no_cache,
        steps.contains(RunStep::CollectCoverage) <==> facts.coverage,
        steps.contains(RunStep::Collect),
        steps.contains(RunStep::Partition),
        steps.contains(RunStep::FindWorker),
        steps.contains(RunStep::SpawnWorkers),
        steps.contains(RunStep::WaitForWorkers),
        steps.contains(RunStep::AggregateResults),
        steps.contains(RunStep::Finish),
{
    lemma_run_takes_what_applies(facts, steps, RunStep::InstallShutdownHandler);
    lemma_run_takes_what_applies(facts, steps, RunStep::StartClock);
    lemma_run_takes_what_applies(facts, steps, RunStep::Collect);
    lemma_run_takes_what_applies(facts, steps, RunStep::AnnounceStart);
    lemma_run_takes_what_applies(facts, steps, RunStep::ReadDurations);
    lemma_run_takes_what_applies(facts, steps, RunStep::ReadLastFailed);
    lemma_run_takes_what_applies(facts, steps, RunStep::Partition);
    lemma_run_takes_what_applies(facts, steps, RunStep::FindWorker);
    lemma_run_takes_what_applies(facts, steps, RunStep::SpawnWorkers);
    lemma_run_takes_what_applies(facts, steps, RunStep::WaitForWorkers);
    lemma_run_takes_what_applies(facts, steps, RunStep::CancelWorkers);
    lemma_run_takes_what_applies(facts, steps, RunStep::KillWorkers);
    lemma_run_takes_what_applies(facts, steps, RunStep::AggregateResults);
    lemma_run_takes_what_applies(facts, steps, RunStep::RegisterInterrupted);
    lemma_run_takes_what_applies(facts, steps, RunStep::WriteLastFailed);
    lemma_run_takes_what_applies(facts, steps, RunStep::CollectCoverage);
    lemma_run_takes_what_applies(facts, steps, RunStep::Finish);
}

/// A run takes its steps in this order, each at most once.
pub proof fn law_steps_are_taken_in_order(
    facts: RunFacts,
    steps: Seq<RunStep>,
    i: int,
    j: int,
    p: int,
    q: int,
)
    requires
        is_run(facts, steps),
        0 <= i < j < steps.len(),
        0 <= p < 17,
        0 <= q < 17,
    ensures
        ({
            let order = seq![
                RunStep::InstallShutdownHandler,
                RunStep::StartClock,
                RunStep::Collect,
                RunStep::AnnounceStart,
                RunStep::ReadDurations,
                RunStep::ReadLastFailed,
                RunStep::Partition,
                RunStep::FindWorker,
                RunStep::SpawnWorkers,
                RunStep::WaitForWorkers,
                RunStep::CancelWorkers,
                RunStep::KillWorkers,
                RunStep::AggregateResults,
                RunStep::RegisterInterrupted,
                RunStep::WriteLastFailed,
                RunStep::CollectCoverage,
                RunStep::Finish,
            ];
            steps[i] == order[p] && steps[j] == order[q] ==> p < q
        }),
{
    lemma_run_takes_what_applies(facts, steps, steps[i]);
    let order = seq![
        RunStep::InstallShutdownHandler,
        RunStep::StartClock,
        RunStep::Collect,
        RunStep::AnnounceStart,
        RunStep::ReadDurations,
        RunStep::ReadLastFailed,
        RunStep::Partition,
        RunStep::FindWorker,
        RunStep::SpawnWorkers,
        RunStep::WaitForWorkers,
        RunStep::CancelWorkers,
        RunStep::KillWorkers,
        RunStep::AggregateResults,
        RunStep::RegisterInterrupted,
        RunStep::WriteLastFailed,
        RunStep::CollectCoverage,
        RunStep::Finish,
    ];
    assert(rank(order[p]) == p);
    assert(rank(order[q]) == q);
    assert(rank(steps[i]) < rank(steps[j]));
}

/// What follows a step of a run: the step that comes next in order, where a step that is not
/// wanted is passed over.
pub proof fn law_the_next_wanted_step_follows(facts: RunFacts, done: Option<RunStep>, step: RunStep)
    requires
        follows(facts, rank_done(done), step),
    ensures
        done is None ==> step == if facts.create_ctrlc_handler {
            RunStep::InstallShutdownHandler
        } else if facts.has_timeout {
            RunStep::StartClock
        } else {
            RunStep::Collect
        },
        done == Some(RunStep::InstallShutdownHandler) ==> step == if facts.has_timeout {
            RunStep::StartClock
        } else {
            RunStep::Collect
        },
        done == Some(RunStep::StartClock) ==> step == RunStep::Collect,
        done == Some(RunStep::Collect) && facts.total_tests > 0 ==> step == RunStep::AnnounceStart,
        done == Some(RunStep::Collect) && facts.total_tests == 0 || done == Some(
            RunStep::AnnounceStart,
        ) ==> step == if !facts.no_cache {
            RunStep::ReadDurations
        } else if facts.last_failed {
            RunStep::ReadLastFailed
        } else {
            RunStep::Partition
        },
        done == Some(RunStep::ReadDurations) ==> step == if facts.last_failed {
            RunStep::ReadLastFailed
        } else {
            RunStep::Partition
        },
        done == Some(RunStep::ReadLastFailed) ==> step == RunStep::Partition,
        done == Some(RunStep::Partition) ==> step == RunStep::FindWorker,
        done == Some(RunStep::FindWorker) ==> step == RunStep::SpawnWorkers,
        done == Some(RunStep::SpawnWorkers) ==> step == RunStep::WaitForWorkers,
        done == Some(RunStep::WaitForWorkers) ==> step == if facts.outcome == Some(
            WaitOutcome::Cancelled,
        ) {
            RunStep::CancelWorkers
        } else {
            RunStep::KillWorkers
        },
        done == Some(RunStep::CancelWorkers) && facts.outcome == Some(WaitOutcome::Cancelled)
            || done == Some(RunStep::KillWorkers) ==> step == RunStep::AggregateResults,
        done == Some(RunStep::AggregateResults) && facts.outcome == Some(WaitOutcome::Cancelled)
            ==> step == RunStep::RegisterInterrupted,
        done == Some(RunStep::AggregateResults) && facts.outcome != Some(WaitOutcome::Cancelled)
            || done == Some(RunStep::RegisterInterrupted) ==> step == if !facts.no_cache {
            RunStep::WriteLastFailed
        } else if facts.coverage {
            RunStep::CollectCoverage
        } else {
            RunStep::Finish
        },
        done == Some(RunStep::WriteLastFailed) ==> step == if facts.coverage {
            RunStep::CollectCoverage
        } else {
            RunStep::Finish
        },
        done == Some(RunStep::CollectCoverage) ==> step == RunStep::Finish,
{
    assert(rank(RunStep::InstallShutdownHandler) == 0);
    assert(rank(RunStep::StartClock) == 1);
    assert(rank(RunStep::Collect) == 2);
    assert(rank(RunStep::AnnounceStart) == 3);
    assert(rank(RunStep::ReadDurations) == 4);
    assert(rank(RunStep::ReadLastFailed) == 5);
    assert(rank(RunStep::Partition) == 6);
    assert(rank(RunStep::FindWorker) == 7);
    assert(rank(RunStep::SpawnWorkers) == 8);
    assert(rank(RunStep::WaitForWorkers) == 9);
    assert(rank(RunStep::CancelWorkers) == 10);
    assert(rank(RunStep::KillWorkers) == 11);
    assert(rank(RunStep::AggregateResults) == 12);
    assert(rank(RunStep::RegisterInterrupted) == 13);
    assert(rank(RunStep::WriteLastFailed) == 14);
    assert(rank(RunStep::CollectCoverage) == 15);
    assert(rank(RunStep::Finish) == 16);
}

/// The outputs of a run.
#[derive(Debug)]
pub struct RunOutput<R> {
    /// Test results merged across all workers.
    pub results: R,
    /// Paths of the coverage files that the workers wrote; empty without coverage.
    pub coverage_files: Vec<String>,
    /// Whether the run was stopped because its time was up.
    pub timed_out: bool,
}

impl<R> RunOutput<R> {
    /// What a run hands back. Without coverage, `coverage_files` is left out.
    pub fn new(results: R, coverage_files: Vec<String>, facts: &RunFacts) -> (output: Self)
        ensures
            output.results == results,
            facts.coverage ==> output.coverage_files@ == coverage_files@,
            !facts.coverage ==> output.coverage_files@.len() == 0,
            output.timed_out == (facts.outcome == Some(WaitOutcome::TimedOut)),
    {
        let timed_out = match facts.outcome {
            Some(outcome) => outcome == WaitOutcome::TimedOut,
            None => false,
        };
        RunOutput {
            results,
            coverage_files: if facts.coverage {
                coverage_files
            } else {
                Vec::new()
            },
            timed_out,
        }
    }
}

} // verus!

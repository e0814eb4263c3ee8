use karva::duration::Duration;
use karva::runner::cancel::{
    cancel_steps, cancellation_report, elapsed_since_start, format_in_flight_test,
    in_flight_tests, interrupted_tests, join_cancel_line, running_tests, sigint_line,
    stop_commands, unix_ms, CancelStep, CurrentTest, StopCommand,
};
use karva::runner::plan::{
    active_profile, collect_paths, last_failed_set, previous_durations, start_line, worker_count,
    workers_to_spawn, ParallelTestConfig, RecordedDuration, TestOrdering,
};
use karva::runner::steps::{aborts_on_error, next_step, RunFacts, RunOutput, RunStep};
use karva::runner::wait::{
    ShutdownStatus, WaitAction, WaitConditions, WaitEvent, WaitOutcome, WorkerStatus, WorkerWait,
};

/// Held by every test that sets whether colours are written.
static COLOURS: std::sync::Mutex<()> = std::sync::Mutex::new(());

fn set_colours() -> std::sync::MutexGuard<'static, ()> {
    COLOURS.lock().unwrap_or_else(|poisoned| poisoned.into_inner())
}

#[test]
fn elapsed_since_start_calculates_duration() {
    assert_eq!(
        elapsed_since_start(1_500, 1_000, 0),
        Duration::from_millis(500)
    );
}

#[test]
fn elapsed_since_start_handles_future_start_time() {
    assert_eq!(elapsed_since_start(1_000, 1_500, 0), Duration::zero());
}

#[test]
fn durations_from_milliseconds() {
    assert_eq!(
        Duration::from_millis(1_234),
        Duration {
            secs: 1,
            nanos: 234_000_000
        }
    );
    assert!(Duration::from_millis(5).reaches(&Duration::from_millis(5)));
    assert!(!Duration::from_millis(4).reaches(&Duration::from_millis(5)));
}

#[test]
fn clocks_saturate() {
    assert_eq!(unix_ms(None), 0);
    assert_eq!(unix_ms(Some(17)), 17);
    assert_eq!(unix_ms(Some(u64::MAX as u128)), u64::MAX);
    assert_eq!(unix_ms(Some(u64::MAX as u128 + 1)), u64::MAX);
}

fn all_conditions() -> WaitConditions {
    WaitConditions {
        shutdown: true,
        fail_fast: true,
        timeout: Some(Duration::from_millis(100)),
    }
}

#[test]
fn waiting_for_no_workers_is_over_at_once() {
    let wait = WorkerWait::new(all_conditions(), vec![]);
    assert_eq!(wait.action(), WaitAction::Finish(WaitOutcome::AllCompleted));
}

#[test]
fn a_full_round_checks_everything_in_order() {
    let mut wait = WorkerWait::new(all_conditions(), vec![0, 1, 2]);
    assert_eq!(wait.action(), WaitAction::PollWorkers);
    let polled = WaitEvent::Polled(vec![
        WorkerStatus::Running,
        WorkerStatus::Exited,
        WorkerStatus::Running,
    ]);
    assert!(wait.accepts(&polled));
    assert!(!wait.accepts(&WaitEvent::Slept));
    assert!(!wait.accepts(&WaitEvent::Polled(vec![])));
    assert_eq!(wait.step(&polled), WaitAction::CheckShutdown);
    assert_eq!(wait.workers(), &[0, 2]);
    assert_eq!(
        wait.step(&WaitEvent::Shutdown(ShutdownStatus::Quiet)),
        WaitAction::CheckFailFast
    );
    assert_eq!(wait.step(&WaitEvent::FailFast(false)), WaitAction::ReadClock);
    assert_eq!(
        wait.step(&WaitEvent::Clock(Duration::from_millis(99))),
        WaitAction::Sleep
    );
    assert_eq!(wait.step(&WaitEvent::Slept), WaitAction::PollWorkers);
    let gone = WaitEvent::Polled(vec![WorkerStatus::Lost, WorkerStatus::Exited]);
    assert_eq!(
        wait.step(&gone),
        WaitAction::Finish(WaitOutcome::AllCompleted)
    );
}

#[test]
fn each_condition_ends_the_wait() {
    let running = || WaitEvent::Polled(vec![WorkerStatus::Running]);
    for status in [ShutdownStatus::Requested, ShutdownStatus::Disconnected] {
        let mut wait = WorkerWait::new(all_conditions(), vec![7]);
        wait.step(&running());
        assert_eq!(
            wait.step(&WaitEvent::Shutdown(status)),
            WaitAction::Finish(WaitOutcome::Cancelled)
        );
    }
    let no_handler = WaitConditions {
        shutdown: false,
        ..all_conditions()
    };
    let mut wait = WorkerWait::new(no_handler, vec![7]);
    assert_eq!(wait.step(&running()), WaitAction::CheckFailFast);
    assert_eq!(
        wait.step(&WaitEvent::FailFast(true)),
        WaitAction::Finish(WaitOutcome::FailFast)
    );
    let only_timeout = WaitConditions {
        fail_fast: false,
        ..no_handler
    };
    let mut wait = WorkerWait::new(only_timeout, vec![7]);
    assert_eq!(wait.step(&running()), WaitAction::ReadClock);
    assert_eq!(
        wait.step(&WaitEvent::Clock(Duration::from_millis(100))),
        WaitAction::Finish(WaitOutcome::TimedOut)
    );
    let nothing = WaitConditions {
        timeout: None,
        ..only_timeout
    };
    let mut wait = WorkerWait::new(nothing, vec![7]);
    assert_eq!(wait.step(&running()), WaitAction::Sleep);
}

fn current(name: &str, start_unix_ms: u64) -> Option<CurrentTest> {
    Some(CurrentTest {
        name: name.to_string(),
        start_unix_ms,
    })
}

#[test]
fn cancelled_runs_report_what_was_running() {
    let _guard = set_colours();
    colored::control::set_override(false);
    let currents = [current("m::test_a", 500), None, current("plain", 2_000)];
    let tests = in_flight_tests(1_500, &[3, 4, 5], &currents);
    assert_eq!(running_tests(&tests), 2);
    let durations = ["[1s]".to_string(), "[0s]".to_string(), "[0s]".to_string()];
    assert_eq!(
        cancellation_report(&tests, &durations),
        vec![
            "  Cancelling due to interrupt: 2 tests still running\n",
            "      SIGINT [1s] m::test_a\n",
            "      SIGINT [0s] worker 4 (between tests)\n",
            "      SIGINT [0s] plain\n",
        ]
    );
    let interrupted: Vec<(String, Duration)> = interrupted_tests(&tests)
        .into_iter()
        .map(|t| (t.name, t.duration))
        .collect();
    assert_eq!(
        interrupted,
        vec![
            ("m::test_a".to_string(), Duration::from_millis(1_000)),
            ("plain".to_string(), Duration::zero()),
        ]
    );
}

#[test]
fn cancel_lines_count_in_words() {
    assert_eq!(
        join_cancel_line("C", "i", 1),
        "  C due to i: 1 test still running\n"
    );
    assert_eq!(
        join_cancel_line("C", "i", 0),
        "  C due to i: 0 tests still running\n"
    );
}

#[test]
fn in_flight_tests_split_at_the_first_separator() {
    let _guard = set_colours();
    colored::control::set_override(true);
    assert_eq!(
        format_in_flight_test("a::b::c"),
        "\u{1b}[36ma\u{1b}[0m::\u{1b}[1;34mb::c\u{1b}[0m"
    );
    assert_eq!(
        format_in_flight_test("a:b"),
        "\u{1b}[1;34ma:b\u{1b}[0m"
    );
    colored::control::set_override(false);
    assert_eq!(format_in_flight_test("é:::x"), "é:::x");
    assert_eq!(format_in_flight_test("::"), "::");
    assert_eq!(format_in_flight_test(""), "");
}

#[test]
fn sigint_labels_are_coloured() {
    let _guard = set_colours();
    colored::control::set_override(true);
    let tests = in_flight_tests(0, &[12], &[None]);
    assert_eq!(
        sigint_line(&tests[0], "[0s]"),
        "      \u{1b}[1;33mSIGINT\u{1b}[0m [0s] worker 12 (between tests)\n"
    );
}

#[test]
fn every_worker_is_killed_before_one_is_reaped() {
    assert_eq!(
        stop_commands(&[4, 2]),
        vec![
            StopCommand::Kill(4),
            StopCommand::Kill(2),
            StopCommand::Reap(4),
            StopCommand::Reap(2),
        ]
    );
    assert!(stop_commands(&[]).is_empty());
    assert!(cancel_steps(0).is_empty());
    assert_eq!(
        cancel_steps(1),
        vec![
            CancelStep::ReadCurrentTests,
            CancelStep::StopWorkers,
            CancelStep::Settle,
            CancelStep::Report,
        ]
    );
}

#[test]
fn workers_are_capped_by_the_number_of_tests() {
    assert_eq!(worker_count(8, 0), 1);
    assert_eq!(worker_count(8, 5), 1);
    assert_eq!(worker_count(8, 6), 2);
    assert_eq!(worker_count(8, 10), 2);
    assert_eq!(worker_count(8, 11), 3);
    assert_eq!(worker_count(2, 1_000), 2);
    assert_eq!(worker_count(0, 1_000), 0);
    assert_eq!(worker_count(usize::MAX, usize::MAX), usize::MAX / 5);
}

#[test]
fn runs_announce_their_start() {
    let _guard = set_colours();
    colored::control::set_override(false);
    assert_eq!(start_line(0, 1), None);
    assert_eq!(
        start_line(1, 1).unwrap(),
        "    Starting 1 test across 1 worker\n"
    );
    assert_eq!(
        start_line(2, 1).unwrap(),
        "    Starting 2 tests across 1 worker\n"
    );
    assert_eq!(
        start_line(120, 12).unwrap(),
        "    Starting 120 tests across 12 workers\n"
    );
}

#[test]
fn the_start_line_is_coloured() {
    let _guard = set_colours();
    colored::control::set_override(true);
    assert_eq!(
        start_line(2, 1).unwrap(),
        "\u{1b}[1;32m    Starting\u{1b}[0m \u{1b}[1m2\u{1b}[0m tests across \u{1b}[1m1\u{1b}[0m worker\n"
    );
}

#[test]
fn empty_partitions_get_no_worker() {
    assert_eq!(workers_to_spawn(&[3, 0, 1, 0]), vec![0, 2]);
    assert!(workers_to_spawn(&[]).is_empty());
}

#[test]
fn the_first_bad_path_is_the_error() {
    let good: Vec<Result<u8, &str>> = vec![Ok(1), Ok(2)];
    assert_eq!(collect_paths(good), Ok(vec![1, 2]));
    let bad: Vec<Result<u8, &str>> = vec![Ok(1), Err("first"), Ok(2), Err("second")];
    assert_eq!(collect_paths(bad), Err("first"));
}

#[test]
fn profiles_fall_back_to_the_default() {
    let config = ParallelTestConfig {
        num_workers: 2,
        no_cache: false,
        create_ctrlc_handler: true,
        last_failed: false,
        profile: None,
        partition: None,
        test_ordering: TestOrdering::Stable,
    };
    assert_eq!(active_profile(&config.profile), "default");
    assert_eq!(active_profile(&Some("ci".to_string())), "ci");
}

#[test]
fn unusable_caches_guide_nothing() {
    let recorded = || {
        Ok(vec![RecordedDuration {
            name: "t".to_string(),
            duration: Duration::from_millis(1),
        }])
    };
    assert_eq!(previous_durations(false, recorded()).len(), 1);
    assert!(previous_durations(true, recorded()).is_empty());
    assert!(previous_durations(false, Err("io".to_string())).is_empty());
    let names = || Ok(vec!["a".to_string(), "b".to_string(), "a".to_string()]);
    let set = last_failed_set(true, names());
    assert_eq!(set.len(), 2);
    assert!(set.contains("a") && set.contains("b"));
    assert!(last_failed_set(false, names()).is_empty());
    assert!(last_failed_set(true, Err("io".to_string())).is_empty());
}

fn steps_of(facts: &RunFacts) -> Vec<RunStep> {
    let mut steps = vec![next_step(facts, None)];
    while steps[steps.len() - 1] != RunStep::Finish {
        steps.push(next_step(facts, Some(steps[steps.len() - 1])));
    }
    steps
}

#[test]
fn a_plain_run_takes_the_steps_that_apply() {
    let facts = RunFacts {
        create_ctrlc_handler: false,
        has_timeout: false,
        no_cache: true,
        last_failed: false,
        coverage: false,
        total_tests: 0,
        outcome: Some(WaitOutcome::AllCompleted),
    };
    assert_eq!(
        steps_of(&facts),
        vec![
            RunStep::Collect,
            RunStep::Partition,
            RunStep::FindWorker,
            RunStep::SpawnWorkers,
            RunStep::WaitForWorkers,
            RunStep::KillWorkers,
            RunStep::AggregateResults,
            RunStep::Finish,
        ]
    );
}

#[test]
fn a_cancelled_run_registers_what_was_interrupted() {
    let facts = RunFacts {
        create_ctrlc_handler: true,
        has_timeout: true,
        no_cache: false,
        last_failed: true,
        coverage: true,
        total_tests: 3,
        outcome: Some(WaitOutcome::Cancelled),
    };
    assert_eq!(
        steps_of(&facts),
        vec![
            RunStep::InstallShutdownHandler,
            RunStep::StartClock,
            RunStep::Collect,
            RunStep::AnnounceStart,
            RunStep::ReadDurations,
            RunStep::ReadLastFailed,
            RunStep::Partition,
            RunStep::FindWorker,
            RunStep::SpawnWorkers,
            RunStep::WaitForWorkers,
            RunStep::CancelWorkers,
            RunStep::AggregateResults,
            RunStep::RegisterInterrupted,
            RunStep::WriteLastFailed,
            RunStep::CollectCoverage,
            RunStep::Finish,
        ]
    );
    assert!(aborts_on_error(RunStep::Collect));
    assert!(!aborts_on_error(RunStep::WriteLastFailed));
}

#[test]
fn run_outputs_tell_timeouts() {
    let facts = RunFacts {
        create_ctrlc_handler: false,
        has_timeout: true,
        no_cache: false,
        last_failed: false,
        coverage: true,
        total_tests: 3,
        outcome: Some(WaitOutcome::TimedOut),
    };
    let output = RunOutput::new("results", vec!["a".to_string()], &facts);
    assert_eq!(output.results, "results");
    assert!(output.timed_out);
    assert_eq!(output.coverage_files, vec!["a".to_string()]);
    let facts = RunFacts {
        coverage: false,
        outcome: Some(WaitOutcome::Cancelled),
        ..facts
    };
    let output = RunOutput::new((), vec!["a".to_string()], &facts);
    assert!(!output.timed_out);
    assert!(output.coverage_files.is_empty());
}

#[test]
fn early_steps_do_not_depend_on_later_facts() {
    let facts = RunFacts {
        create_ctrlc_handler: true,
        has_timeout: false,
        no_cache: false,
        last_failed: false,
        coverage: false,
        total_tests: 0,
        outcome: None,
    };
    let later = RunFacts {
        total_tests: 9,
        outcome: Some(WaitOutcome::Cancelled),
        ..facts
    };
    for facts in [facts, later] {
        assert_eq!(next_step(&facts, None), RunStep::InstallShutdownHandler);
        assert_eq!(
            next_step(&facts, Some(RunStep::InstallShutdownHandler)),
            RunStep::Collect
        );
        assert_eq!(
            next_step(&facts, Some(RunStep::SpawnWorkers)),
            RunStep::WaitForWorkers
        );
    }
}

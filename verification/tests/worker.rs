use karva::exit::{exit_after_error, ErrorReport, ExitStatus};
use karva::reporter::status::StatusLevel;
use karva::worker::plan::{
    choose_reporter, end_worker, plan_worker, worker_coverage_config, ReporterChoice,
    SubTestCommand, WorkerError,
};
use karva::worker::steps::{failure_text, next_step, non_unicode_cwd, WorkerFacts, WorkerStep};

#[test]
fn coverage_config_is_absent_without_sources() {
    let sub_command = SubTestCommand::default();

    let coverage = worker_coverage_config(&sub_command).expect("coverage config");

    assert!(coverage.is_none());
}

#[test]
fn coverage_config_requires_data_file_when_sources_are_set() {
    let sub_command = SubTestCommand {
        cov: vec!["src".to_string()],
        ..SubTestCommand::default()
    };

    let err = worker_coverage_config(&sub_command)
        .expect_err("missing worker coverage data file should be rejected");

    assert_eq!(
        err.to_text(),
        "karva-worker requires `--cov-data-file` when `--cov` is set"
    );
}

#[test]
fn coverage_config_preserves_sources_and_data_file() {
    let data_file = ".coverage.worker-0".to_string();
    let sub_command = SubTestCommand {
        cov: vec![String::new(), "pkg".to_string()],
        cov_data_file: Some(data_file.clone()),
        ..SubTestCommand::default()
    };

    let coverage = worker_coverage_config(&sub_command)
        .expect("coverage config")
        .expect("coverage should be enabled");

    assert_eq!(coverage.sources, vec![String::new(), "pkg".to_string()]);
    assert_eq!(coverage.data_file, data_file);
}

#[test]
fn exit_codes() {
    assert_eq!(ExitStatus::Success.to_i32(), 0);
    assert_eq!(ExitStatus::Failure.to_i32(), 1);
    assert_eq!(ExitStatus::Error.to_i32(), 2);
}

#[test]
fn broken_pipes_are_no_errors() {
    assert_eq!(exit_after_error(ErrorReport::BrokenPipe), ExitStatus::Success);
    assert_eq!(exit_after_error(ErrorReport::Written), ExitStatus::Error);
    assert_eq!(
        exit_after_error(ErrorReport::WriteFailed { broken_pipe: true }),
        ExitStatus::Success
    );
    assert_eq!(
        exit_after_error(ErrorReport::WriteFailed { broken_pipe: false }),
        ExitStatus::Error
    );
}

#[test]
fn reporters_are_chosen_by_format_and_level() {
    assert_eq!(
        choose_reporter(true, StatusLevel::Silent),
        ReporterChoice::Json
    );
    assert_eq!(
        choose_reporter(false, StatusLevel::Silent),
        ReporterChoice::Dummy
    );
    assert_eq!(
        choose_reporter(false, StatusLevel::Fail),
        ReporterChoice::TestCase
    );
    assert!(ReporterChoice::Json.publishes_progress());
    assert!(!ReporterChoice::Dummy.publishes_progress());
}

#[test]
fn workers_plan_their_start() {
    let sub_command = SubTestCommand {
        snapshot_update: Some(true),
        ..SubTestCommand::default()
    };
    let plan = plan_worker(
        &sub_command,
        false,
        StatusLevel::Pass,
        "/tmp/run/worker-0/current_test.json",
    )
    .unwrap();
    assert!(plan.snapshot_update);
    assert!(plan.coverage.is_none());
    assert_eq!(plan.reporter, ReporterChoice::TestCase);
    assert_eq!(plan.progress_dir, Some("/tmp/run/worker-0".to_string()));
    let bad = SubTestCommand {
        cov: vec!["src".to_string()],
        ..SubTestCommand::default()
    };
    assert_eq!(
        plan_worker(&bad, false, StatusLevel::Pass, "x").unwrap_err(),
        WorkerError::MissingCoverageDataFile
    );
    let plan = plan_worker(&SubTestCommand::default(), true, StatusLevel::Pass, "").unwrap();
    assert!(!plan.snapshot_update);
    assert_eq!(plan.progress_dir, None);
    let plan = plan_worker(&SubTestCommand::default(), true, StatusLevel::Pass, "x").unwrap();
    assert_eq!(plan.progress_dir, Some(String::new()));
    for (path, dir) in [("./f", "."), ("../f", ".."), ("a/./f", "a"), ("/f", "/"), ("a//f", "a")] {
        let plan = plan_worker(&SubTestCommand::default(), true, StatusLevel::Pass, path).unwrap();
        assert_eq!(plan.progress_dir.as_deref(), Some(dir));
    }
    let path = "C:\\run\\worker-0\\current_test.json";
    let plan = plan_worker(&SubTestCommand::default(), true, StatusLevel::Pass, path).unwrap();
    assert!(path.starts_with(&plan.progress_dir.unwrap()));
}

#[test]
fn spent_budgets_stop_the_other_workers() {
    assert!(!end_worker(None, 1_000).signal_fail_fast);
    assert!(!end_worker(Some(2), 1).signal_fail_fast);
    assert!(end_worker(Some(2), 2).signal_fail_fast);
    assert!(end_worker(Some(2), 3).signal_fail_fast);
    assert!(end_worker(Some(u32::MAX), usize::MAX).signal_fail_fast);
    assert_eq!(end_worker(Some(1), 1).status, ExitStatus::Success);
}

#[test]
fn worker_steps_in_order() {
    let facts = WorkerFacts {
        snapshot_update: false,
        has_progress_dir: true,
        publishes_progress: false,
        budget_spent: true,
    };
    let mut steps = vec![next_step(&facts, None)];
    while steps[steps.len() - 1] != WorkerStep::Finish {
        steps.push(next_step(&facts, Some(steps[steps.len() - 1])));
    }
    assert_eq!(
        steps,
        vec![
            WorkerStep::ReadArguments,
            WorkerStep::SetUpOutput,
            WorkerStep::ReadWorkingDirectory,
            WorkerStep::ParseFilter,
            WorkerStep::PlanCoverage,
            WorkerStep::ParseRunId,
            WorkerStep::CreateProgressDirectory,
            WorkerStep::RunTests,
            WorkerStep::WriteResult,
            WorkerStep::SignalFailFast,
            WorkerStep::Finish,
        ]
    );
}

#[test]
fn failures_of_steps_have_contexts() {
    assert_eq!(
        failure_text(WorkerStep::CreateProgressDirectory, "/x").unwrap(),
        "Failed to create worker progress directory `/x`"
    );
    assert_eq!(
        failure_text(WorkerStep::ParseRunId, "").unwrap(),
        "Invalid run id"
    );
    assert_eq!(failure_text(WorkerStep::RunTests, ""), None);
    assert_eq!(
        non_unicode_cwd("/a?"),
        "The current working directory `/a?` contains non-Unicode characters. karva only supports Unicode paths."
    );
}

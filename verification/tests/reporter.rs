use karva::duration::Duration;
use karva::line::{format_test_path, join_report_line, join_test_path, label_padding};
use karva::name::QualifiedTestName;
use karva::reporter::json::{skip_reason, status_str, JsonReporter};
use karva::reporter::label::{count_digits, ResultLabel};
use karva::reporter::lines::TestCaseReporter;
use karva::reporter::progress::{
    next_flusher_step, FlushAction, FlusherStep, ProgressFlush, ProgressSnapshot,
};
use karva::reporter::status::{show_for_status_level, StatusLevel};
use karva::result::kind::IndividualTestResultKind;
use karva::style::{apply, Paint};

/// Held by every test that sets whether colours are written.
static COLOURS: std::sync::Mutex<()> = std::sync::Mutex::new(());

fn set_colours() -> std::sync::MutexGuard<'static, ()> {
    COLOURS.lock().unwrap_or_else(|poisoned| poisoned.into_inner())
}

fn test_name(params: Option<&str>) -> QualifiedTestName {
    QualifiedTestName {
        module_name: "test_module".to_string(),
        function_name: "test_example".to_string(),
        params: params.map(str::to_string),
    }
}

fn skipped(reason: Option<&str>) -> IndividualTestResultKind {
    IndividualTestResultKind::Skipped {
        reason: reason.map(str::to_string),
    }
}

const LEVELS: [StatusLevel; 7] = [
    StatusLevel::Silent,
    StatusLevel::Fail,
    StatusLevel::Retry,
    StatusLevel::Slow,
    StatusLevel::Pass,
    StatusLevel::Skip,
    StatusLevel::All,
];

#[test]
fn levels_show_what_lower_levels_show() {
    let shown = |kind: &IndividualTestResultKind| -> Vec<bool> {
        LEVELS
            .iter()
            .map(|level| show_for_status_level(*level, kind))
            .collect()
    };
    let from_fail = vec![false, true, true, true, true, true, true];
    assert_eq!(shown(&IndividualTestResultKind::Failed), from_fail);
    assert_eq!(shown(&IndividualTestResultKind::Quarantined), from_fail);
    assert_eq!(
        shown(&IndividualTestResultKind::Passed),
        vec![false, false, false, false, true, true, true]
    );
    assert_eq!(
        shown(&skipped(None)),
        vec![false, false, false, false, false, true, true]
    );
    assert!(StatusLevel::Slow.covers(StatusLevel::Retry));
    assert!(!StatusLevel::Retry.covers(StatusLevel::Slow));
}

#[test]
fn results_are_shown_as_lines() {
    let _guard = set_colours();
    colored::control::set_override(false);
    let reporter = TestCaseReporter::new(StatusLevel::All);
    assert_eq!(
        reporter
            .test_case_result(&test_name(None), &IndividualTestResultKind::Passed, "[1s]")
            .unwrap(),
        "        PASS [1s] test_module::test_example\n"
    );
    assert_eq!(
        reporter
            .test_case_result(
                &test_name(Some("(x=1)")),
                &IndividualTestResultKind::Failed,
                "[1s]"
            )
            .unwrap(),
        "        FAIL [1s] test_module::test_example(x=1)\n"
    );
    assert_eq!(
        reporter
            .test_case_result(&test_name(None), &IndividualTestResultKind::Quarantined, "[1s]")
            .unwrap(),
        " QUARANTINED [1s] test_module::test_example\n"
    );
    assert_eq!(
        reporter
            .test_case_result(&test_name(None), &skipped(Some("not ready")), "[1s]")
            .unwrap(),
        "        SKIP [1s] test_module::test_example: not ready\n"
    );
    assert_eq!(
        reporter
            .test_case_result(&test_name(None), &skipped(None), "[1s]")
            .unwrap(),
        "        SKIP [1s] test_module::test_example\n"
    );
    assert_eq!(
        reporter.test_slow(&test_name(None), "[9s]").unwrap(),
        "        SLOW [9s] test_module::test_example\n"
    );
}

#[test]
fn attempts_are_shown_as_lines() {
    let _guard = set_colours();
    colored::control::set_override(false);
    let reporter = TestCaseReporter::new(StatusLevel::Retry);
    assert_eq!(
        reporter
            .test_attempt(&test_name(None), 1, &IndividualTestResultKind::Failed, "[1s]")
            .unwrap(),
        "  TRY 1 FAIL [1s] test_module::test_example\n"
    );
    assert_eq!(
        reporter
            .test_attempt(&test_name(None), 12, &IndividualTestResultKind::Passed, "[1s]")
            .unwrap(),
        " TRY 12 PASS [1s] test_module::test_example\n"
    );
    assert_eq!(
        reporter
            .test_attempt(
                &test_name(None),
                u32::MAX,
                &IndividualTestResultKind::Quarantined,
                "[1s]"
            )
            .unwrap(),
        "TRY 4294967295 QUARANTINED [1s] test_module::test_example\n"
    );
    // Reasons belong to result lines only.
    assert_eq!(
        reporter
            .test_attempt(&test_name(None), 1, &skipped(Some("why")), "[1s]")
            .unwrap(),
        "  TRY 1 SKIP [1s] test_module::test_example\n"
    );
}

#[test]
fn lower_levels_hide_lines() {
    let name = test_name(None);
    let failing = TestCaseReporter::new(StatusLevel::Fail);
    assert!(failing
        .test_case_result(&name, &IndividualTestResultKind::Passed, "[1s]")
        .is_none());
    assert!(failing
        .test_attempt(&name, 1, &IndividualTestResultKind::Failed, "[1s]")
        .is_none());
    assert!(failing.test_slow(&name, "[1s]").is_none());
    let retrying = TestCaseReporter::new(StatusLevel::Retry);
    assert!(retrying.test_slow(&name, "[1s]").is_none());
    let slow = TestCaseReporter::new(StatusLevel::Slow);
    assert!(slow.test_slow(&name, "[1s]").is_some());
}

#[test]
fn lines_are_coloured() {
    let _guard = set_colours();
    colored::control::set_override(true);
    let reporter = TestCaseReporter::new(StatusLevel::All);
    assert_eq!(
        reporter
            .test_case_result(
                &test_name(Some("(x=1)")),
                &IndividualTestResultKind::Passed,
                "[1s]"
            )
            .unwrap(),
        "        \u{1b}[1;32mPASS\u{1b}[0m [1s] \u{1b}[36mtest_module\u{1b}[0m::\u{1b}[1;34mtest_example\u{1b}[0m\u{1b}[1;34m(x=1)\u{1b}[0m\n"
    );
    assert_eq!(ResultLabel::Fail.colored(), "\u{1b}[1;31mFAIL\u{1b}[0m");
    assert_eq!(ResultLabel::Slow.colored(), "\u{1b}[1;33mSLOW\u{1b}[0m");
    assert_eq!(ResultLabel::Skip.colored(), "\u{1b}[1;33mSKIP\u{1b}[0m");
}

#[test]
fn paints_write_escape_codes_only_when_on() {
    let _guard = set_colours();
    colored::control::set_override(true);
    let codes = [
        (Paint::GreenBold, "1;32"),
        (Paint::RedBold, "1;31"),
        (Paint::YellowBold, "1;33"),
        (Paint::BlueBold, "1;34"),
        (Paint::Cyan, "36"),
        (Paint::Bold, "1"),
    ];
    for (paint, code) in codes {
        assert_eq!(apply(paint, "x"), format!("\u{1b}[{code}mx\u{1b}[0m"));
        assert_eq!(apply(paint, ""), format!("\u{1b}[{code}m\u{1b}[0m"));
        assert_eq!(
            apply(paint, "a\u{1b}[0mb"),
            format!("\u{1b}[{code}ma\u{1b}[0m\u{1b}[{code}mb\u{1b}[0m")
        );
    }
    colored::control::set_override(false);
    for (paint, _) in codes {
        assert_eq!(apply(paint, "a\u{1b}[0mb"), "a\u{1b}[0mb");
    }
}

#[test]
fn paths_and_lines_are_joined() {
    let _guard = set_colours();
    colored::control::set_override(false);
    assert_eq!(format_test_path(&test_name(Some("(1)"))), "test_module::test_example(1)");
    assert_eq!(join_test_path("m", "f", ""), "m::f");
    assert_eq!(join_report_line("> ", "L", "[d]", "p"), "> L [d] p");
    assert_eq!(label_padding(0), "            ");
    assert_eq!(label_padding(11), " ");
    assert_eq!(label_padding(12), "");
    assert_eq!(label_padding(40), "");
}

#[test]
fn digits_are_counted() {
    assert_eq!(count_digits(0), 1);
    assert_eq!(count_digits(9), 1);
    assert_eq!(count_digits(10), 2);
    assert_eq!(count_digits(99), 2);
    assert_eq!(count_digits(100), 3);
    assert_eq!(count_digits(u32::MAX), 10);
}

#[test]
fn json_events_carry_the_result() {
    let reporter = JsonReporter::new();
    let event = reporter.test_case_result(
        &test_name(None),
        &IndividualTestResultKind::Passed,
        Duration::from_millis(250),
    );
    assert_eq!(event.event_type, "test");
    assert_eq!(event.name, "test_module::test_example");
    assert_eq!(event.status, "passed");
    assert_eq!(event.duration, Duration::from_millis(250));
    assert_eq!(event.reason, None);
    assert_eq!(event.attempt, None);
    let event = reporter.test_attempt(
        &test_name(None),
        2,
        &skipped(Some("not ready")),
        Duration::zero(),
    );
    assert_eq!(event.event_type, "test_attempt");
    assert_eq!(event.status, "skipped");
    assert_eq!(event.reason, Some("not ready".to_string()));
    assert_eq!(event.attempt, Some(2));
    let event = reporter.test_slow(&test_name(Some("(x)")), Duration::from_millis(1_500));
    assert_eq!(event.event_type, "test_slow");
    assert_eq!(event.name, "test_module::test_example(x)");
    assert_eq!(event.duration, Duration::from_millis(1_500));
}

#[test]
fn json_words() {
    assert_eq!(status_str(&IndividualTestResultKind::Failed), "failed");
    assert_eq!(status_str(&IndividualTestResultKind::Quarantined), "quarantined");
    assert_eq!(skip_reason(&IndividualTestResultKind::Failed), None);
    assert_eq!(skip_reason(&skipped(None)), None);
}

#[test]
fn progress_is_flushed_when_it_changes() {
    let mut flush = ProgressFlush::new();
    assert_eq!(flush.action(&None), FlushAction::Nothing);
    let snapshot = ProgressSnapshot::starting(&test_name(None), Some(1_000));
    assert_eq!(snapshot.name, "test_module::test_example");
    assert_eq!(snapshot.start_unix_ms, 1_000);
    let current = Some(snapshot.clone());
    assert_eq!(flush.action(&current), FlushAction::Write);
    flush.flushed(Some(snapshot.clone()), false);
    assert_eq!(flush.action(&current), FlushAction::Write);
    flush.flushed(Some(snapshot), true);
    assert_eq!(flush.action(&current), FlushAction::Nothing);
    let later = Some(ProgressSnapshot::starting(&test_name(None), Some(1_001)));
    assert_eq!(flush.action(&later), FlushAction::Write);
    assert_eq!(flush.action(&None), FlushAction::Clear);
    flush.flushed(None, true);
    assert_eq!(flush.action(&None), FlushAction::Nothing);
    assert_eq!(
        ProgressSnapshot::starting(&test_name(None), None).start_unix_ms,
        0
    );
}

#[test]
fn flushers_stop_with_an_empty_file() {
    let mut step = FlusherStep::CheckStop;
    let mut steps = vec![];
    for stop in [false, false, false, true, true, true, true] {
        step = next_flusher_step(step, stop);
        steps.push(step);
    }
    assert_eq!(
        steps,
        vec![
            FlusherStep::Flush,
            FlusherStep::Sleep,
            FlusherStep::CheckStop,
            FlusherStep::LastFlush,
            FlusherStep::LastClear,
            FlusherStep::Done,
            FlusherStep::Done,
        ]
    );
}

#[test]
fn json_test_event_serializes_as_one_object() {
    let event = JsonReporter::new().test_case_result(
        &test_name(None),
        &IndividualTestResultKind::Passed,
        Duration::from_millis(15),
    );
    assert_eq!(event.event_type, "test");
    assert_eq!(event.name, "test_module::test_example");
    assert_eq!(event.status, "passed");
    assert_eq!(event.duration, Duration::from_millis(15));
    assert_eq!(event.reason, None);
    assert_eq!(event.attempt, None);
}

#[test]
fn json_test_event_includes_skip_reason_and_attempt() {
    let event = JsonReporter::new().test_attempt(
        &test_name(None),
        2,
        &skipped(Some("not ready")),
        Duration::zero(),
    );
    assert_eq!(event.event_type, "test_attempt");
    assert_eq!(event.name, "test_module::test_example");
    assert_eq!(event.status, "skipped");
    assert_eq!(event.duration, Duration::zero());
    assert_eq!(event.reason, Some("not ready".to_string()));
    assert_eq!(event.attempt, Some(2));
}

#[test]
fn json_slow_event_serializes() {
    let event = JsonReporter::new().test_slow(&test_name(None), Duration::from_millis(1_500));
    assert_eq!(event.event_type, "test_slow");
    assert_eq!(event.name, "test_module::test_example");
    assert_eq!(event.duration, Duration::from_millis(1_500));
}

/// Brings a flush up to date and says what it took.
fn flush_to(flush: &mut ProgressFlush, current: Option<ProgressSnapshot>) -> FlushAction {
    let action = flush.action(&current);
    flush.flushed(current, true);
    action
}

fn starts_and_finishes(test_name: &QualifiedTestName) {
    let mut flush = ProgressFlush::new();
    let progress = ProgressSnapshot::starting(test_name, Some(1_700_000_000_000));
    assert_eq!(progress.name, "test_module::test_example");
    assert_eq!(progress.start_unix_ms, 1_700_000_000_000);
    assert_eq!(flush_to(&mut flush, Some(progress)), FlushAction::Write);
    assert_eq!(flush_to(&mut flush, None), FlushAction::Clear);
    assert_eq!(flush.action(&None), FlushAction::Nothing);
}

#[test]
fn progress_file_is_written_and_cleared() {
    starts_and_finishes(&test_name(None));
}

#[test]
fn json_reporter_progress_file_is_written_and_cleared() {
    // Both reporters publish through the same snapshots.
    starts_and_finishes(&test_name(None));
}

#[test]
fn progress_file_reuses_marker_without_stale_content() {
    let mut flush = ProgressFlush::new();
    let longer = QualifiedTestName {
        module_name: "test_module".to_string(),
        function_name: "test_example_with_a_much_longer_name".to_string(),
        params: None,
    };
    let progress = ProgressSnapshot::starting(&longer, Some(1));
    assert_eq!(
        progress.name,
        "test_module::test_example_with_a_much_longer_name"
    );
    assert_eq!(flush_to(&mut flush, Some(progress)), FlushAction::Write);
    // The test may finish and the next one start between two rounds.
    let progress = ProgressSnapshot::starting(&test_name(None), Some(2));
    assert_eq!(progress.name, "test_module::test_example");
    assert_eq!(flush_to(&mut flush, Some(progress.clone())), FlushAction::Write);
    assert_eq!(flush.action(&Some(progress)), FlushAction::Nothing);
}

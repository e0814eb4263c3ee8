use karva::cache::history::{TestHistory, HISTORY_LIMIT};
use karva::cache::quarantine::{
    sorted_by_name, update_history_and_quarantine, QuarantineList,
};
use karva::cli::{quarantine, QuarantineAction, QuarantineCommand};
use karva::duration::Duration;
use karva::exit::ExitStatus;
use karva::name::QualifiedTestName;
use karva::result::flaky::FlakyTest;
use karva::result::kind::{IndividualTestResultKind, TestResultKind, INVALID_KIND};
use karva::result::quarantine::{
    DisplayQuarantinedFailures, QuarantineReason, QuarantinedFailure, QuarantinedTest,
    StoredOutcome, TestOutcomeRecord,
};

/// Held by every test that sets whether colours are written.
static COLOURS: std::sync::Mutex<()> = std::sync::Mutex::new(());

fn set_colours() -> std::sync::MutexGuard<'static, ()> {
    COLOURS.lock().unwrap_or_else(|poisoned| poisoned.into_inner())
}

fn flaky(module: &str, function: &str, params: Option<&str>) -> FlakyTest {
    FlakyTest {
        module_name: module.to_string(),
        function_name: function.to_string(),
        params: params.map(str::to_string),
        passed_on: 2,
        total_attempts: 3,
        duration: Duration::from_millis(10),
    }
}

fn listed(list: &QuarantineList) -> String {
    let command = QuarantineCommand {
        action: QuarantineAction::List,
    };
    let (output, status) = quarantine(&command, list);
    assert_eq!(status, ExitStatus::Success);
    output
}

#[test]
fn history_flip_requires_multiple_transitions() {
    let mut history = TestHistory::default();
    // Single fail after passes is a regression, not a flake.
    history.record("t", StoredOutcome::Passed);
    history.record("t", StoredOutcome::Passed);
    history.record("t", StoredOutcome::Failed);
    assert!(history.flaky_by_history().is_empty());

    // P-F-P oscillates.
    history.record("t", StoredOutcome::Passed);
    assert_eq!(history.flaky_by_history(), vec!["t".to_string()]);
}

#[test]
fn update_quarantines_retry_flaky() {
    let mut history = TestHistory::default();
    let mut quarantine = QuarantineList::default();
    let flaky = FlakyTest {
        module_name: "mod".into(),
        function_name: "test_x".into(),
        params: Some("(x=1)".into()),
        passed_on: 2,
        total_attempts: 3,
        duration: Duration::from_millis(10),
    };
    let outcomes = [TestOutcomeRecord::new(
        "mod::test_x(x=1)",
        StoredOutcome::Flaky,
    )];
    let newly = update_history_and_quarantine(&mut history, &mut quarantine, &outcomes, &[flaky]);
    assert_eq!(newly.len(), 1);
    assert_eq!(newly[0].name, "mod::test_x(x=1)");
    assert_eq!(newly[0].reason, QuarantineReason::RetryFlaky);
    assert!(quarantine.contains("mod::test_x(x=1)"));
}

#[test]
fn quarantine_roundtrip() {
    let mut list = QuarantineList::default();
    list.add("a::test_1", QuarantineReason::RetryFlaky);
    let stored = list.to_stored();
    let read = QuarantineList::from_stored(Some(stored));
    assert_eq!(read.tests().len(), 1);
    assert_eq!(read.tests()[0].name, "a::test_1");
}

#[test]
fn quarantine_list_empty() {
    assert_eq!(listed(&QuarantineList::default()), "No quarantined tests.\n");
}

#[test]
fn quarantine_auto_detects_retry_flaky_and_lists() {
    let mut history = TestHistory::default();
    let mut list = QuarantineList::default();
    let outcomes = [TestOutcomeRecord::new("test::test_flaky", StoredOutcome::Flaky)];
    let newly = update_history_and_quarantine(
        &mut history,
        &mut list,
        &outcomes,
        &[flaky("test", "test_flaky", None)],
    );
    assert_eq!(
        newly,
        vec![QuarantinedTest::new("test::test_flaky", QuarantineReason::RetryFlaky)]
    );
    assert_eq!(listed(&list), "test::test_flaky (retry-flaky)\n");
}

#[test]
fn quarantine_history_flip_detects_oscillation() {
    let mut history = TestHistory::default();
    let mut list = QuarantineList::default();
    for outcome in [StoredOutcome::Passed, StoredOutcome::Failed] {
        let outcomes = [TestOutcomeRecord::new("test::test_flip", outcome)];
        let newly = update_history_and_quarantine(&mut history, &mut list, &outcomes, &[]);
        assert!(newly.is_empty());
    }
    let outcomes = [TestOutcomeRecord::new("test::test_flip", StoredOutcome::Passed)];
    let newly = update_history_and_quarantine(&mut history, &mut list, &outcomes, &[]);
    assert_eq!(
        newly,
        vec![QuarantinedTest::new("test::test_flip", QuarantineReason::HistoryFlip)]
    );
    assert_eq!(listed(&list), "test::test_flip (history-flip)\n");
}

#[test]
fn quarantine_tracks_parametrized_variants_separately() {
    let mut history = TestHistory::default();
    let mut list = QuarantineList::default();
    let outcomes = [
        TestOutcomeRecord::new("test::test_param(x=1)", StoredOutcome::Flaky),
        TestOutcomeRecord::new("test::test_param(x=2)", StoredOutcome::Passed),
    ];
    update_history_and_quarantine(
        &mut history,
        &mut list,
        &outcomes,
        &[flaky("test", "test_param", Some("(x=1)"))],
    );
    assert!(list.contains("test::test_param(x=1)"));
    assert!(!list.contains("test::test_param(x=2)"));
    assert_eq!(listed(&list), "test::test_param(x=1) (retry-flaky)\n");
}

#[test]
fn fail_pass_fail_is_a_flip() {
    let mut history = TestHistory::new();
    for outcome in [
        StoredOutcome::Failed,
        StoredOutcome::Flaky,
        StoredOutcome::Failed,
    ] {
        history.record("t", outcome);
    }
    assert_eq!(history.flaky_by_history(), vec!["t".to_string()]);
}

#[test]
fn flaky_counts_as_pass_in_histories() {
    let mut history = TestHistory::new();
    for outcome in [
        StoredOutcome::Passed,
        StoredOutcome::Flaky,
        StoredOutcome::Passed,
        StoredOutcome::Flaky,
    ] {
        history.record("t", outcome);
    }
    assert!(history.flaky_by_history().is_empty());
    assert!(StoredOutcome::Flaky.is_pass());
    assert!(!StoredOutcome::Flaky.is_fail());
    assert!(StoredOutcome::Failed.is_fail());
}

#[test]
fn only_recent_outcomes_are_kept() {
    let mut history = TestHistory::new();
    history.record("t", StoredOutcome::Failed);
    for _ in 0..HISTORY_LIMIT {
        history.record("t", StoredOutcome::Passed);
    }
    assert_eq!(history.entries().len(), 1);
    assert_eq!(
        history.entries()[0].outcomes,
        vec![StoredOutcome::Passed; HISTORY_LIMIT]
    );
    history.record("t", StoredOutcome::Failed);
    history.record("t", StoredOutcome::Passed);
    assert_eq!(history.entries()[0].outcomes.len(), HISTORY_LIMIT);
    assert_eq!(history.flaky_by_history(), vec!["t".to_string()]);
}

#[test]
fn overlong_restored_histories_are_cut_on_record() {
    let mut history = TestHistory::new();
    history.restore("t", vec![StoredOutcome::Failed; 30]);
    assert_eq!(history.entries()[0].outcomes.len(), 30);
    history.record("t", StoredOutcome::Passed);
    let outcomes = &history.entries()[0].outcomes;
    assert_eq!(outcomes.len(), HISTORY_LIMIT);
    assert_eq!(outcomes[HISTORY_LIMIT - 1], StoredOutcome::Passed);
    assert_eq!(outcomes[0], StoredOutcome::Failed);
}

#[test]
fn histories_of_different_tests_are_separate() {
    let mut history = TestHistory::new();
    history.record("a", StoredOutcome::Passed);
    history.record("b", StoredOutcome::Failed);
    history.record("a", StoredOutcome::Failed);
    let entries = history.entries();
    assert_eq!(entries.len(), 2);
    let a = entries.iter().find(|e| e.name == "a").unwrap();
    assert_eq!(a.outcomes, vec![StoredOutcome::Passed, StoredOutcome::Failed]);
    let b = entries.iter().find(|e| e.name == "b").unwrap();
    assert_eq!(b.outcomes, vec![StoredOutcome::Failed]);
}

#[test]
fn adding_twice_keeps_the_first_entry() {
    let mut list = QuarantineList::default();
    assert!(list.is_empty());
    assert!(list.add("m::t", QuarantineReason::HistoryFlip));
    assert!(!list.add("m::t", QuarantineReason::RetryFlaky));
    assert_eq!(list.len(), 1);
    assert_eq!(list.tests()[0].reason, QuarantineReason::HistoryFlip);
    assert!(list.names().contains("m::t"));
    assert!(!list.names().contains("m::u"));
}

#[test]
fn sorting_is_stable_and_idempotent() {
    let mut list = QuarantineList::from_tests(vec![
        QuarantinedTest::new("b", QuarantineReason::RetryFlaky),
        QuarantinedTest::new("a", QuarantineReason::HistoryFlip),
        QuarantinedTest::new("b", QuarantineReason::HistoryFlip),
        QuarantinedTest::new("", QuarantineReason::RetryFlaky),
        QuarantinedTest::new("B", QuarantineReason::RetryFlaky),
        QuarantinedTest::new("aa", QuarantineReason::RetryFlaky),
    ]);
    list.sort();
    let expected = vec![
        QuarantinedTest::new("", QuarantineReason::RetryFlaky),
        QuarantinedTest::new("B", QuarantineReason::RetryFlaky),
        QuarantinedTest::new("a", QuarantineReason::HistoryFlip),
        QuarantinedTest::new("aa", QuarantineReason::RetryFlaky),
        QuarantinedTest::new("b", QuarantineReason::RetryFlaky),
        QuarantinedTest::new("b", QuarantineReason::HistoryFlip),
    ];
    assert_eq!(list.tests().to_vec(), expected);
    list.sort();
    assert_eq!(list.tests().to_vec(), expected);
}

#[test]
fn names_sort_as_std_sorts_strings() {
    let names = ["é", "z", "Z", "a\u{10ffff}", "a", "\u{ffff}", "::", ""];
    let tests: Vec<QuarantinedTest> = names
        .iter()
        .map(|n| QuarantinedTest::new(n, QuarantineReason::RetryFlaky))
        .collect();
    let sorted: Vec<String> = sorted_by_name(&tests).into_iter().map(|t| t.name).collect();
    let mut expected: Vec<String> = names.iter().map(|n| n.to_string()).collect();
    expected.sort();
    assert_eq!(sorted, expected);
}

#[test]
fn updates_return_new_tests_in_name_order() {
    let mut history = TestHistory::default();
    let mut list = QuarantineList::default();
    list.add("m::old", QuarantineReason::HistoryFlip);
    for outcome in [
        StoredOutcome::Passed,
        StoredOutcome::Failed,
        StoredOutcome::Passed,
    ] {
        history.record("m::b", outcome);
    }
    let newly = update_history_and_quarantine(
        &mut history,
        &mut list,
        &[],
        &[
            flaky("m", "z", None),
            flaky("m", "old", None),
            flaky("m", "a", None),
            flaky("m", "z", None),
        ],
    );
    let shown: Vec<(String, QuarantineReason)> =
        newly.into_iter().map(|t| (t.name, t.reason)).collect();
    assert_eq!(
        shown,
        vec![
            ("m::a".to_string(), QuarantineReason::RetryFlaky),
            ("m::b".to_string(), QuarantineReason::HistoryFlip),
            ("m::z".to_string(), QuarantineReason::RetryFlaky),
        ]
    );
    let names: Vec<String> = list.tests().iter().map(|t| t.name.clone()).collect();
    assert_eq!(names, vec!["m::old", "m::z", "m::a", "m::b"]);
}

#[test]
fn an_empty_update_adds_nothing() {
    let mut history = TestHistory::default();
    let mut list = QuarantineList::default();
    for outcome in [
        StoredOutcome::Passed,
        StoredOutcome::Failed,
        StoredOutcome::Passed,
    ] {
        history.record("m::b", outcome);
    }
    assert_eq!(
        update_history_and_quarantine(&mut history, &mut list, &[], &[]).len(),
        1
    );
    assert!(update_history_and_quarantine(&mut history, &mut list, &[], &[]).is_empty());
    assert_eq!(list.len(), 1);
}

#[test]
fn the_same_flakes_are_not_added_again() {
    let mut history = TestHistory::default();
    let mut list = QuarantineList::default();
    let flakes = [flaky("m", "a", None), flaky("m", "b", Some("(x=1)"))];
    assert_eq!(
        update_history_and_quarantine(&mut history, &mut list, &[], &flakes).len(),
        2
    );
    assert!(update_history_and_quarantine(&mut history, &mut list, &[], &flakes).is_empty());
    assert_eq!(list.len(), 2);
}

#[test]
fn runs_extend_histories() {
    let mut history = TestHistory::default();
    let mut list = QuarantineList::default();
    history.restore("t", vec![StoredOutcome::Passed; 19]);
    history.restore("untouched", vec![StoredOutcome::Passed; 25]);
    let outcomes = [
        TestOutcomeRecord::new("t", StoredOutcome::Flaky),
        TestOutcomeRecord::new("t", StoredOutcome::Failed),
    ];
    update_history_and_quarantine(&mut history, &mut list, &outcomes, &[]);
    let mut expected = vec![StoredOutcome::Passed; 18];
    expected.extend([StoredOutcome::Flaky, StoredOutcome::Failed]);
    let entries = history.entries();
    let t = entries.iter().find(|e| e.name == "t").unwrap();
    assert_eq!(t.outcomes, expected);
    let untouched = entries.iter().find(|e| e.name == "untouched").unwrap();
    assert_eq!(untouched.outcomes.len(), 25);
}

#[test]
fn a_missing_list_reads_as_empty() {
    assert!(QuarantineList::from_stored(None).is_empty());
}

#[test]
fn kinds_read_back_from_their_words() {
    let kinds = [
        (TestResultKind::Passed, "passed"),
        (TestResultKind::Failed, "failed"),
        (TestResultKind::Skipped, "skipped"),
        (TestResultKind::Flaky, "flaky"),
        (TestResultKind::Slow, "slow"),
        (TestResultKind::Quarantined, "quarantined"),
    ];
    for (kind, word) in kinds {
        assert_eq!(kind.as_str(), word);
        assert_eq!(TestResultKind::from_str(word), Ok(kind));
    }
    assert_eq!(TestResultKind::from_str("Passed"), Err(INVALID_KIND));
    assert_eq!(
        TestResultKind::from_str(""),
        Err("invalid TestResultKind")
    );
}

#[test]
fn results_are_counted_without_their_context() {
    let skipped = IndividualTestResultKind::Skipped {
        reason: Some("why".to_string()),
    };
    assert_eq!(TestResultKind::from(skipped.clone()), TestResultKind::Skipped);
    assert_eq!(
        TestResultKind::from(IndividualTestResultKind::Quarantined),
        TestResultKind::Quarantined
    );
    assert_eq!(
        TestResultKind::from(IndividualTestResultKind::Failed),
        TestResultKind::Failed
    );
    assert_eq!(
        TestResultKind::from(IndividualTestResultKind::Passed),
        TestResultKind::Passed
    );
}

#[test]
fn reasons_have_words() {
    assert_eq!(QuarantineReason::RetryFlaky.as_str(), "retry-flaky");
    assert_eq!(QuarantineReason::HistoryFlip.as_str(), "history-flip");
}

fn failure(params: Option<&str>) -> QuarantinedFailure {
    let name = QualifiedTestName {
        module_name: "test".to_string(),
        function_name: "test_flaky".to_string(),
        params: params.map(str::to_string),
    };
    QuarantinedFailure::from_qualified_name(&name, Duration::from_millis(10))
}

#[test]
fn quarantined_failures_show_label_duration_and_path() {
    let _guard = set_colours();
    colored::control::set_override(false);
    let records = [failure(None), failure(Some("(x=1)"))];
    assert_eq!(records[1].full_name(), "test::test_flaky(x=1)");
    assert_eq!(records[0].duration, Duration::from_millis(10));
    assert_eq!(
        records[0].display().render("[   0.010s]"),
        " QUARANTINED [   0.010s] test::test_flaky\n"
    );
    let durations = ["[1s]".to_string(), "[2s]".to_string()];
    assert_eq!(
        DisplayQuarantinedFailures::new(&records).render(&durations),
        " QUARANTINED [1s] test::test_flaky\n QUARANTINED [2s] test::test_flaky(x=1)\n"
    );
    assert_eq!(DisplayQuarantinedFailures::new(&[]).render(&[]), "");
}

#[test]
fn quarantined_failures_are_coloured() {
    let _guard = set_colours();
    colored::control::set_override(true);
    assert_eq!(
        failure(Some("(x=1)")).display().render("[1s]"),
        " \u{1b}[1;33mQUARANTINED\u{1b}[0m [1s] \u{1b}[36mtest\u{1b}[0m::\u{1b}[1;34mtest_flaky\u{1b}[0m\u{1b}[1;34m(x=1)\u{1b}[0m\n"
    );
}

#[test]
fn outcome_records_carry_the_full_name() {
    let name = QualifiedTestName {
        module_name: "pkg.mod".to_string(),
        function_name: "test_x".to_string(),
        params: Some("(a=1, b=2)".to_string()),
    };
    let record = TestOutcomeRecord::from_qualified_name(&name, StoredOutcome::Failed);
    assert_eq!(record.name, "pkg.mod::test_x(a=1, b=2)");
    assert_eq!(record.outcome, StoredOutcome::Failed);
}

#[test]
fn variants_have_their_own_names() {
    let name = |params: Option<&str>| {
        QualifiedTestName {
            module_name: "test".to_string(),
            function_name: "test_param".to_string(),
            params: params.map(str::to_string),
        }
        .to_text()
    };
    assert_eq!(name(Some("(x=1)")), "test::test_param(x=1)");
    assert_ne!(name(Some("(x=1)")), name(Some("(x=2)")));
    assert_ne!(name(Some("(x=1)")), name(None));
    assert_eq!(name(Some("")), name(None));
}

#[test]
fn lines_of_joined_lists_follow_each_other() {
    let _guard = set_colours();
    colored::control::set_override(false);
    let all = [failure(None), failure(Some("(x=1)")), failure(Some("(x=2)"))];
    let durations = ["[1s]".to_string(), "[2s]".to_string(), "[3s]".to_string()];
    let first = DisplayQuarantinedFailures::new(&all[..1]).render(&durations[..1]);
    let second = DisplayQuarantinedFailures::new(&all[1..]).render(&durations[1..]);
    assert_eq!(
        DisplayQuarantinedFailures::new(&all).render(&durations),
        first.clone() + &second
    );
    assert_eq!(first, all[0].display().render(&durations[0]));
    assert!(first.ends_with("test::test_flaky\n"));
}

#[test]
fn restored_histories_are_the_same_in_any_order() {
    let mut history = TestHistory::new();
    history.record("a", StoredOutcome::Passed);
    history.record("b", StoredOutcome::Failed);
    for outcome in [StoredOutcome::Passed, StoredOutcome::Failed] {
        history.record("b", outcome);
    }
    let mut restored = TestHistory::new();
    for entry in history.entries().iter().rev() {
        restored.restore(&entry.name, entry.outcomes.clone());
    }
    assert_eq!(restored.entries().len(), 2);
    for entry in history.entries() {
        let back = restored.entries().iter().find(|e| e.name == entry.name).unwrap();
        assert_eq!(back.outcomes, entry.outcomes);
    }
    assert_eq!(restored.flaky_by_history(), history.flaky_by_history());
}

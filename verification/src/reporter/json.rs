//! The events that the JSON reporter emits.
use crate::duration::Duration;
use crate::name::{self, QualifiedTestName};
use crate::result::kind::IndividualTestResultKind;
use vstd::prelude::*;

verus! {

/// A reporter that emits one JSON object per test event, whatever the status level.
#[derive(Debug, Default)]
pub struct JsonReporter;

/// The result of a test, or of one attempt of a retried test.
#[derive(Debug)]
pub struct JsonTestEvent {
    pub event_type: &'static str,
    pub name: String,
    pub status: &'static str,
    pub duration: Duration,
    /// Why the test was skipped, where a reason was given.
    pub reason: Option<String>,
    /// The number of the attempt, for an attempt.
    pub attempt: Option<u32>,
}

/// A test that took longer than the slow threshold.
#[derive(Debug)]
pub struct JsonSlowEvent {
    pub event_type: &'static str,
    pub name: String,
    pub duration: Duration,
}

/// The word for a result.
pub open spec fn status_word(kind: IndividualTestResultKind) -> Seq<char> {
    kind.counted_as().word()
}

/// The word for a result.
pub fn status_str(kind: &IndividualTestResultKind) -> (word: &'static str)
    ensures
        word@ == status_word(*kind),
{
    match kind {
        IndividualTestResultKind::Passed => "passed",
        IndividualTestResultKind::Failed => "failed",
        IndividualTestResultKind::Quarantined => "quarantined",
        IndividualTestResultKind::Skipped { .. } => "skipped",
    }
}

/// The reason why a test was skipped.
pub open spec fn reason_of(kind: IndividualTestResultKind) -> Option<Seq<char>> {
    match kind {
        IndividualTestResultKind::Skipped { reason } => name::optional_text(reason),
        _ => None,
    }
}

/// The reason why a test was skipped, where it was and a reason was given.
pub fn skip_reason(kind: &IndividualTestResultKind) -> (reason: Option<String>)
    ensures
        name::optional_text(reason) == reason_of(*kind),
{
    match kind {
        IndividualTestResultKind::Skipped { reason: Some(reason) } => Some(reason.clone()),
        _ => None,
    }
}

impl JsonReporter {
    /// A reporter.
    pub fn new() -> (reporter: Self) {
        JsonReporter
    }

    /// The event for the result of a test.
    pub fn test_case_result(
        &self,
        test_name: &QualifiedTestName,
        result_kind: &IndividualTestResultKind,
        duration: Duration,
    ) -> (event: JsonTestEvent)
        ensures
            event.event_type@ == "test"@,
            event.name@ == test_name@,
            event.status@ == status_word(*result_kind),
            event.duration == duration,
            name::optional_text(event.reason) == reason_of(*result_kind),
            event.attempt is None,
    {
        JsonTestEvent {
            event_type: "test",
            name: test_name.to_text(),
            status: status_str(result_kind),
            duration,
            reason: skip_reason(result_kind),
            attempt: None,
        }
    }

    /// The event for one attempt of a retried test.
    pub fn test_attempt(
        &self,
        test_name: &QualifiedTestName,
        attempt: u32,
        result_kind: &IndividualTestResultKind,
        duration: Duration,
    ) -> (event: JsonTestEvent)
        ensures
            event.event_type@ == "test_attempt"@,
            event.name@ == test_name@,
            event.status@ == status_word(*result_kind),
            event.duration == duration,
            name::optional_text(event.reason) == reason_of(*result_kind),
            event.attempt == Some(attempt),
    {
        JsonTestEvent {
            event_type: "test_attempt",
            name: test_name.to_text(),
            status: status_str(result_kind),
            duration,
            reason: skip_reason(result_kind),
            attempt: Some(attempt),
        }
    }

    /// The event for a test that took longer than the slow threshold.
    pub fn test_slow(&self, test_name: &QualifiedTestName, duration: Duration) -> (event:
        JsonSlowEvent)
        ensures
            event.event_type@ == "test_slow"@,
            event.name@ == test_name@,
            event.duration == duration,
    {
        JsonSlowEvent { event_type: "test_slow", name: test_name.to_text(), duration }
    }
}

/// The word for a result tells its kind, and a reason is given for skipped tests only: the one
/// they were skipped for.
pub proof fn law_events_tell_kind_and_reason(kind: IndividualTestResultKind)
    ensures
        status_word(kind) == if kind is Passed {
            "passed"@
        } else if kind is Failed {
            "failed"@
        } else if kind is Quarantined {
            "quarantined"@
        } else {
            "skipped"@
        },
        reason_of(kind) == match kind {
            IndividualTestResultKind::Skipped { reason: Some(reason) } => Some(reason@),
            _ => None,
        },
{
}

} // verus!

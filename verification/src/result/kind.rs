//! What became of a test.
use crate::text::same_text;
use vstd::prelude::*;
use vstd::std_specs::convert::FromSpecImpl;

verus! {

/// The outcome of one execution of a test.
#[derive(Debug)]
pub enum IndividualTestResultKind {
    Passed,
    Failed,
    /// Failed while listed in the quarantine set. Still reported, but neither fails
    /// the run nor counts toward the failure limit.
    Quarantined,
    Skipped { reason: Option<String> },
}

impl Clone for IndividualTestResultKind {
    fn clone(&self) -> (copy: Self)
        ensures
            copy == *self,
    {
        match self {
            IndividualTestResultKind::Passed => IndividualTestResultKind::Passed,
            IndividualTestResultKind::Failed => IndividualTestResultKind::Failed,
            IndividualTestResultKind::Quarantined => IndividualTestResultKind::Quarantined,
            IndividualTestResultKind::Skipped { reason: Some(reason) } => {
                IndividualTestResultKind::Skipped { reason: Some(reason.clone()) }
            },
            IndividualTestResultKind::Skipped { reason: None } => {
                IndividualTestResultKind::Skipped { reason: None }
            },
        }
    }
}

/// An outcome as it is counted, context such as skip reasons dropped.
#[derive(Debug, Clone, Copy, PartialEq, Eq, Hash, Structural)]
pub enum TestResultKind {
    Passed,
    Failed,
    Skipped,
    /// Passed only after at least one retry; counted beside `Passed`.
    Flaky,
    /// Took longer than the slow threshold; counted beside the actual outcome.
    Slow,
    /// Failed while quarantined; leaves the run successful.
    Quarantined,
}

/// The error for a word that names no outcome.
pub const INVALID_KIND: &'static str = "invalid TestResultKind";

impl TestResultKind {
    /// The word that an outcome is stored under.
    pub open spec fn word(self) -> Seq<char> {
        match self {
            TestResultKind::Passed => "passed"@,
            TestResultKind::Failed => "failed"@,
            TestResultKind::Skipped => "skipped"@,
            TestResultKind::Flaky => "flaky"@,
            TestResultKind::Slow => "slow"@,
            TestResultKind::Quarantined => "quarantined"@,
        }
    }

    /// The word that this outcome is stored under.
    pub fn as_str(self) -> (word: &'static str)
        ensures
            word@ == self.word(),
    {
        match self {
            TestResultKind::Passed => "passed",
            TestResultKind::Failed => "failed",
            TestResultKind::Skipped => "skipped",
            TestResultKind::Flaky => "flaky",
            TestResultKind::Slow => "slow",
            TestResultKind::Quarantined => "quarantined",
        }
    }

    /// The outcome that a word stands for.
    pub fn from_str(s: &str) -> (kind: Result<Self, &'static str>)
        ensures
            match kind {
                Ok(kind) => kind.word() == s@,
                Err(message) => message@ == INVALID_KIND@ && forall|k: TestResultKind|
                    #[trigger] k.word() != s@,
            },
    {
        if same_text(s, "passed") {
            Ok(TestResultKind::Passed)
        } else if same_text(s, "failed") {
            Ok(TestResultKind::Failed)
        } else if same_text(s, "skipped") {
            Ok(TestResultKind::Skipped)
        } else if same_text(s, "flaky") {
            Ok(TestResultKind::Flaky)
        } else if same_text(s, "slow") {
            Ok(TestResultKind::Slow)
        } else if same_text(s, "quarantined") {
            Ok(TestResultKind::Quarantined)
        } else {
            Err(INVALID_KIND)
        }
    }
}

impl IndividualTestResultKind {
    /// The outcome as it is counted.
    pub open spec fn counted_as(self) -> TestResultKind {
        match self {
            IndividualTestResultKind::Passed => TestResultKind::Passed,
            IndividualTestResultKind::Failed => TestResultKind::Failed,
            IndividualTestResultKind::Quarantined => TestResultKind::Quarantined,
            IndividualTestResultKind::Skipped { .. } => TestResultKind::Skipped,
        }
    }
}

impl From<IndividualTestResultKind> for TestResultKind {
    fn from(val: IndividualTestResultKind) -> (kind: Self) {
        match val {
            IndividualTestResultKind::Passed => TestResultKind::Passed,
            IndividualTestResultKind::Failed => TestResultKind::Failed,
            IndividualTestResultKind::Quarantined => TestResultKind::Quarantined,
            IndividualTestResultKind::Skipped { .. } => TestResultKind::Skipped,
        }
    }
}

impl FromSpecImpl<IndividualTestResultKind> for TestResultKind {
    open spec fn obeys_from_spec() -> bool {
        true
    }

    open spec fn from_spec(val: IndividualTestResultKind) -> TestResultKind {
        val.counted_as()
    }
}

/// Different outcomes are stored under different words, so that a stored word is read
/// back as the outcome it was written for.
pub proof fn law_words_tell_outcomes_apart(a: TestResultKind, b: TestResultKind)
    ensures
        a.word() == b.word() <==> a == b,
{
    reveal_strlit("passed");
    reveal_strlit("failed");
    reveal_strlit("skipped");
    reveal_strlit("flaky");
    reveal_strlit("slow");
    reveal_strlit("quarantined");
    assert("passed"@[0] == 'p' && "failed"@[0] == 'f');
    assert("passed"@.len() == 6 && "failed"@.len() == 6 && "skipped"@.len() == 7);
    assert("flaky"@.len() == 5 && "slow"@.len() == 4 && "quarantined"@.len() == 11);
}

/// Quarantined failures and failures are counted apart: what is counted as failed did fail
/// and was not quarantined.
pub proof fn law_only_failures_count_as_failed(kind: IndividualTestResultKind)
    ensures
        kind.counted_as() == TestResultKind::Failed <==> kind is Failed,
        kind.counted_as() == TestResultKind::Quarantined <==> kind is Quarantined,
{
}

/// Every result is counted as what it is: a skipped one as skipped, whatever the reason.
pub proof fn law_results_are_counted_as_what_they_are(kind: IndividualTestResultKind)
    ensures
        kind is Passed <==> kind.counted_as() == TestResultKind::Passed,
        kind is Failed <==> kind.counted_as() == TestResultKind::Failed,
        kind is Quarantined <==> kind.counted_as() == TestResultKind::Quarantined,
        kind is Skipped <==> kind.counted_as() == TestResultKind::Skipped,
        kind.counted_as() != TestResultKind::Flaky,
        kind.counted_as() != TestResultKind::Slow,
{
}

/// Every outcome is stored under the lower-case word for it.
pub proof fn law_outcomes_are_stored_by_name(kind: TestResultKind)
    ensures
        kind is Passed <==> kind.word() == "passed"@,
        kind is Failed <==> kind.word() == "failed"@,
        kind is Skipped <==> kind.word() == "skipped"@,
        kind is Flaky <==> kind.word() == "flaky"@,
        kind is Slow <==> kind.word() == "slow"@,
        kind is Quarantined <==> kind.word() == "quarantined"@,
{
    law_words_tell_outcomes_apart(kind, TestResultKind::Passed);
    law_words_tell_outcomes_apart(kind, TestResultKind::Failed);
    law_words_tell_outcomes_apart(kind, TestResultKind::Skipped);
    law_words_tell_outcomes_apart(kind, TestResultKind::Flaky);
    law_words_tell_outcomes_apart(kind, TestResultKind::Slow);
    law_words_tell_outcomes_apart(kind, TestResultKind::Quarantined);
}

} // verus!

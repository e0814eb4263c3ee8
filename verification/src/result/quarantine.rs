//! Quarantined tests and the outcomes that put them there.
use crate::duration::Duration;
use crate::line::{self, join_report_line, label_padding, paint_test_path, PathColours};
use crate::name::{self, full_name_text, QualifiedTestName};
use crate::style::{self, apply, Paint};
use vstd::prelude::*;

verus! {

/// Why a test was added to the quarantine set.
#[derive(Debug, Clone, Copy, PartialEq, Eq, Structural)]
pub enum QuarantineReason {
    /// Failed on at least one attempt, then passed on a later retry.
    RetryFlaky,
    /// Outcome history flipped between pass and fail across runs.
    HistoryFlip,
}

impl QuarantineReason {
    /// The word for the reason.
    pub open spec fn word(self) -> Seq<char> {
        match self {
            QuarantineReason::RetryFlaky => "retry-flaky"@,
            QuarantineReason::HistoryFlip => "history-flip"@,
        }
    }

    /// The word for this reason, as lists and the stored set show it.
    pub fn as_str(self) -> (word: &'static str)
        ensures
            word@ == self.word(),
    {
        match self {
            QuarantineReason::RetryFlaky => "retry-flaky",
            QuarantineReason::HistoryFlip => "history-flip",
        }
    }
}

/// Different reasons have different words.
pub proof fn law_words_tell_reasons_apart(a: QuarantineReason, b: QuarantineReason)
    ensures
        a.word() == b.word() <==> a == b,
{
    reveal_strlit("retry-flaky");
    reveal_strlit("history-flip");
    assert("retry-flaky"@.len() == 11 && "history-flip"@.len() == 12);
}

/// A test that is currently quarantined.
#[derive(Debug, PartialEq, Eq)]
pub struct QuarantinedTest {
    /// Fully qualified name, parametrize id included.
    pub name: String,
    pub reason: QuarantineReason,
}

/// What a [`QuarantinedTest`] says.
#[verifier::ext_equal]
pub struct QuarantineEntry {
    pub name: Seq<char>,
    pub reason: QuarantineReason,
}

impl View for QuarantinedTest {
    type V = QuarantineEntry;

    open spec fn view(&self) -> QuarantineEntry {
        QuarantineEntry { name: self.name@, reason: self.reason }
    }
}

impl Clone for QuarantinedTest {
    fn clone(&self) -> (copy: Self)
        ensures
            copy == *self,
    {
        QuarantinedTest { name: self.name.clone(), reason: self.reason }
    }
}

impl QuarantinedTest {
    /// Quarantines the test `name`.
    pub fn new(name: &str, reason: QuarantineReason) -> (test: Self)
        ensures
            test@ == (QuarantineEntry { name: name@, reason }),
    {
        QuarantinedTest { name: name.to_owned(), reason }
    }
}

/// A failure of a quarantined test, kept for the end of the run.
#[derive(Debug)]
pub struct QuarantinedFailure {
    pub module_name: String,
    pub function_name: String,
    pub params: Option<String>,
    pub duration: Duration,
}

/// The label of a quarantined failure.
pub const QUARANTINED: &'static str = "QUARANTINED";

impl QuarantinedFailure {
    /// The name that the test goes by.
    pub open spec fn identity(self) -> Seq<char> {
        name::full_name(self.module_name@, self.function_name@, name::optional_text(self.params))
    }

    /// Records that `test_name` failed after `duration`.
    pub fn from_qualified_name(test_name: &QualifiedTestName, duration: Duration) -> (failure: Self)
        ensures
            failure.module_name@ == test_name.module_name@,
            failure.function_name@ == test_name.function_name@,
            name::optional_text(failure.params) == name::optional_text(test_name.params),
            failure.duration == duration,
            failure.identity() == test_name@,
    {
        QuarantinedFailure {
            module_name: test_name.module_name.clone(),
            function_name: test_name.function_name.clone(),
            params: match &test_name.params {
                Some(params) => Some(params.clone()),
                None => None,
            },
            duration,
        }
    }

    /// The full name of the test, parametrize id included.
    pub fn full_name(&self) -> (name: String)
        ensures
            name@ == self.identity(),
    {
        full_name_text(
            self.module_name.as_str(),
            self.function_name.as_str(),
            match &self.params {
                Some(params) => Some(params.as_str()),
                None => None,
            },
        )
    }

    /// The failure as a line of the summary.
    pub fn display(&self) -> (shown: DisplayQuarantinedFailure<'_>)
        ensures
            shown.failure() == *self,
    {
        DisplayQuarantinedFailure(self)
    }
}

/// Single recorded outcome used for cross-run flaky detection.
#[derive(Debug, Clone, Copy, PartialEq, Eq, Structural)]
pub enum StoredOutcome {
    Passed,
    Failed,
    /// Passed after at least one failed attempt within the same run.
    Flaky,
}

impl StoredOutcome {
    /// The run ended with a pass.
    pub open spec fn passes(self) -> bool {
        self is Passed || self is Flaky
    }

    /// Whether the run ended with a pass.
    pub fn is_pass(self) -> (pass: bool)
        ensures
            pass == self.passes(),
    {
        matches!(self, StoredOutcome::Passed | StoredOutcome::Flaky)
    }

    /// Whether the run ended with a failure.
    pub fn is_fail(self) -> (fail: bool)
        ensures
            fail == (self is Failed),
    {
        matches!(self, StoredOutcome::Failed)
    }
}

/// Every outcome is either a pass or a failure.
pub proof fn law_outcomes_pass_or_fail(outcome: StoredOutcome)
    ensures
        outcome.passes() <==> !(outcome is Failed),
{
}

/// One test's final outcome for a single run, keyed by full qualified name.
#[derive(Debug)]
pub struct TestOutcomeRecord {
    /// Fully qualified name, parametrize id included.
    pub name: String,
    pub outcome: StoredOutcome,
}

impl TestOutcomeRecord {
    /// Records the outcome of the test `name`.
    pub fn new(name: &str, outcome: StoredOutcome) -> (record: Self)
        ensures
            record.name@ == name@,
            record.outcome == outcome,
    {
        TestOutcomeRecord { name: name.to_owned(), outcome }
    }

    /// Records the outcome of the test that `test_name` names.
    pub fn from_qualified_name(test_name: &QualifiedTestName, outcome: StoredOutcome) -> (record:
        Self)
        ensures
            record.name@ == test_name@,
            record.outcome == outcome,
    {
        TestOutcomeRecord { name: test_name.to_text(), outcome }
    }
}

/// A quarantined failure as a line of the summary.
pub struct DisplayQuarantinedFailure<'a>(&'a QuarantinedFailure);

/// Which parts of a failure line are coloured.
pub struct FailureColours {
    pub label: bool,
    pub path: PathColours,
}

/// The line that shows a quarantined failure which took `duration`.
pub open spec fn failure_line(
    on: FailureColours,
    failure: QuarantinedFailure,
    duration: Seq<char>,
) -> Seq<char> {
    line::report_line(
        line::padding(QUARANTINED@.len()),
        style::shade(on.label, Paint::YellowBold, QUARANTINED@),
        duration,
        line::test_path(
            on.path,
            failure.module_name@,
            failure.function_name@,
            name::optional_text(failure.params),
        ),
    ) + "\n"@
}

impl<'a> DisplayQuarantinedFailure<'a> {
    /// The failure that is shown.
    pub closed spec fn failure(self) -> QuarantinedFailure {
        *self.0
    }

    /// The line, `duration` being the formatted duration of the failure.
    pub fn render(&self, duration: &str) -> (line: String)
        ensures
            exists|on: FailureColours|
                line@ == #[trigger] failure_line(on, self.failure(), duration@),
    {
        let record = self.0;
        let padding = label_padding(QUARANTINED.unicode_len());
        let label = apply(Paint::YellowBold, QUARANTINED);
        let path = paint_test_path(
            record.module_name.as_str(),
            record.function_name.as_str(),
            match &record.params {
                Some(params) => Some(params.as_str()),
                None => None,
            },
        );
        let line = join_report_line(padding.as_str(), label.as_str(), duration, path.as_str());
        let ended = line.concat("\n");
        proof {
            let path_on = choose|on: PathColours|
                path@ == #[trigger] line::test_path(
                    on,
                    record.module_name@,
                    record.function_name@,
                    name::optional_text(record.params),
                );
            let on = FailureColours {
                label: label@ == style::shade(true, Paint::YellowBold, QUARANTINED@),
                path: path_on,
            };
            assert(ended@ == failure_line(on, self.failure(), duration@));
        }
        ended
    }
}

/// Quarantined failures as lines of the summary. No failures are no text at all.
pub struct DisplayQuarantinedFailures<'a>(&'a [QuarantinedFailure]);

/// The lines that show quarantined failures, one below the other.
pub open spec fn failure_lines(
    on: Seq<FailureColours>,
    failures: Seq<QuarantinedFailure>,
    durations: Seq<String>,
) -> Seq<char>
    decreases failures.len(),
{
    if failures.len() == 0 {
        Seq::empty()
    } else {
        failure_lines(on.drop_last(), failures.drop_last(), durations.drop_last()) + failure_line(
            on.last(),
            failures.last(),
            durations.last()@,
        )
    }
}

impl<'a> DisplayQuarantinedFailures<'a> {
    /// The failures that are shown.
    pub closed spec fn failures(self) -> Seq<QuarantinedFailure> {
        self.0@
    }

    /// Shows `records`.
    pub fn new(records: &'a [QuarantinedFailure]) -> (shown: Self)
        ensures
            shown.failures() == records@,
    {
        DisplayQuarantinedFailures(records)
    }

    /// The lines, `durations` being the formatted durations of the failures.
    pub fn render(&self, durations: &[String]) -> (lines: String)
        requires
            durations@.len() == self.failures().len(),
        ensures
            exists|on: Seq<FailureColours>|
                on.len() == self.failures().len() && lines@ == #[trigger] failure_lines(
                    on,
                    self.failures(),
                    durations@,
                ),
    {
        let records = self.0;
        let mut lines = String::new();
        let ghost mut on: Seq<FailureColours> = Seq::empty();
        let mut i: usize = 0;
        assert(lines@ =~= failure_lines(on, records@.take(0), durations@.take(0)));
        while i < records.len()
            invariant
                i <= records.len(),
                records@ == self.failures(),
                durations@.len() == records@.len(),
                on.len() == i,
                lines@ == failure_lines(on, records@.take(i as int), durations@.take(i as int)),
            decreases records.len() - i,
        {
            let shown = records[i].display();
            let line = shown.render(durations[i].as_str());
            lines.append(line.as_str());
            proof {
                let one = choose|one: FailureColours|
                    line@ == #[trigger] failure_line(one, records@[i as int], durations@[i as int]@);
                let more = on.push(one);
                assert(more.drop_last() =~= on);
                assert(records@.take(i + 1).drop_last() =~= records@.take(i as int));
                assert(durations@.take(i + 1).drop_last() =~= durations@.take(i as int));
                on = more;
            }
            i += 1;
        }
        proof {
            assert(records@.take(i as int) =~= records@);
            assert(durations@.take(i as int) =~= durations@);
        }
        lines
    }
}

/// The lines of two lists, one behind the other, are the lines of the first and then those of
/// the second.
pub proof fn law_lines_follow_each_other(
    first_on: Seq<FailureColours>,
    first: Seq<QuarantinedFailure>,
    first_durations: Seq<String>,
    second_on: Seq<FailureColours>,
    second: Seq<QuarantinedFailure>,
    second_durations: Seq<String>,
)
    requires
        first_on.len() == first.len(),
        first_durations.len() == first.len(),
        second_on.len() == second.len(),
        second_durations.len() == second.len(),
    ensures
        failure_lines(first_on + second_on, first + second, first_durations + second_durations)
            == failure_lines(first_on, first, first_durations) + failure_lines(
            second_on,
            second,
            second_durations,
        ),
    decreases second.len(),
{
    let ahead = failure_lines(first_on, first, first_durations);
    if second.len() == 0 {
        assert(first_on + second_on =~= first_on);
        assert(first + second =~= first);
        assert(first_durations + second_durations =~= first_durations);
        assert(ahead + Seq::empty() =~= ahead);
    } else {
        law_lines_follow_each_other(
            first_on,
            first,
            first_durations,
            second_on.drop_last(),
            second.drop_last(),
            second_durations.drop_last(),
        );
        assert((first_on + second_on).drop_last() =~= first_on + second_on.drop_last());
        assert((first + second).drop_last() =~= first + second.drop_last());
        assert((first_durations + second_durations).drop_last() =~= first_durations
            + second_durations.drop_last());
        let between = failure_lines(
            second_on.drop_last(),
            second.drop_last(),
            second_durations.drop_last(),
        );
        let last = failure_line(second_on.last(), second.last(), second_durations.last()@);
        assert((ahead + between) + last =~= ahead + (between + last));
    }
}

/// No failures are no text, and one failure is its own line.
pub proof fn law_one_failure_is_one_line(
    on: FailureColours,
    failure: QuarantinedFailure,
    duration: String,
)
    ensures
        failure_lines(Seq::empty(), Seq::empty(), Seq::empty()) == Seq::<char>::empty(),
        failure_lines(seq![on], seq![failure], seq![duration]) == failure_line(
            on,
            failure,
            duration@,
        ),
{
    let line = failure_line(on, failure, duration@);
    assert(seq![failure].drop_last() =~= Seq::empty());
    assert(failure_lines(
        seq![on].drop_last(),
        seq![failure].drop_last(),
        seq![duration].drop_last(),
    ) =~= Seq::empty());
    assert(Seq::<char>::empty() + line =~= line);
}

/// Without colours, the line of a failure ends in the full name of the test and a line end,
/// and is one line where neither the name nor the duration breaks it.
pub proof fn law_plain_lines_end_in_the_name(failure: QuarantinedFailure, duration: Seq<char>)
    ensures
        ({
            let off = FailureColours {
                label: false,
                path: PathColours { module: false, function: false, params: false },
            };
            &&& (failure.identity() + "\n"@).is_suffix_of(failure_line(off, failure, duration))
            &&& !failure.identity().contains('\n') && !duration.contains('\n')
                ==> failure_line(off, failure, duration).index_of_first('\n') == Some(
                failure_line(off, failure, duration).len() - 1,
            )
        }),
{
    let off = FailureColours {
        label: false,
        path: PathColours { module: false, function: false, params: false },
    };
    line::law_plain_path_is_the_name(
        failure.module_name@,
        failure.function_name@,
        name::optional_text(failure.params),
    );
    let whole = failure_line(off, failure, duration);
    let name = failure.identity();
    let lead = line::padding(QUARANTINED@.len()) + QUARANTINED@ + " "@ + duration + " "@;
    reveal_strlit("\n");
    reveal_strlit(" ");
    reveal_strlit("QUARANTINED");
    assert(whole =~= lead + name + "\n"@);
    assert(whole.subrange(lead.len() as int, whole.len() as int) =~= name + "\n"@);
    if !name.contains('\n') && !duration.contains('\n') {
        let end = whole.len() - 1;
        assert forall|i: int| 0 <= i < end implies #[trigger] whole[i] != '\n' by {
            let pad = line::padding(QUARANTINED@.len()).len() as int;
            if i < pad {
                assert(whole[i] == ' ');
            } else if i < pad + 11 {
                assert(whole[i] == QUARANTINED@[i - pad]);
            } else if i == pad + 11 {
                assert(whole[i] == ' ');
            } else if i < pad + 12 + duration.len() {
                assert(whole[i] == duration[i - pad - 12]);
            } else if i == pad + 12 + duration.len() {
                assert(whole[i] == ' ');
            } else {
                assert(whole[i] == name[i - lead.len()]);
            }
        }
        assert(whole[end] == '\n');
        whole.index_of_first_ensures('\n');
    }
}

/// Without colours, the line of a failure is the label in its column, the duration and the
/// full name of the test.
pub proof fn law_plain_lines_are_spelled_out(failure: QuarantinedFailure, duration: Seq<char>)
    ensures
        failure_line(
            (FailureColours {
                label: false,
                path: PathColours { module: false, function: false, params: false },
            }),
            failure,
            duration,
        ) == seq![' '] + "QUARANTINED"@ + seq![' '] + duration + seq![' '] + failure.identity()
            + seq!['\n'],
{
    line::law_plain_path_is_the_name(
        failure.module_name@,
        failure.function_name@,
        name::optional_text(failure.params),
    );
    reveal_strlit("\n");
    reveal_strlit(" ");
    reveal_strlit("QUARANTINED");
    assert(" "@ =~= seq![' ']);
    assert("\n"@ =~= seq!['\n']);
    assert(line::padding(QUARANTINED@.len()) =~= seq![' ']);
}

/// A quarantined failure goes by the name that the test has, and an entry of the quarantine set
/// by the name and the reason it was made with.
pub proof fn law_quarantined_tests_keep_their_names(
    failure: QuarantinedFailure,
    test: QuarantinedTest,
)
    ensures
        failure.params is None ==> failure.identity() == failure.module_name@ + seq![':', ':']
            + failure.function_name@,
        failure.params matches Some(id) ==> failure.identity() == failure.module_name@ + seq![
            ':',
            ':',
        ] + failure.function_name@ + id@,
        test@.name == test.name@,
        test@.reason == test.reason,
{
    reveal_strlit("::");
    assert("::"@ =~= seq![':', ':']);
}

/// A flake that a retry showed is called `retry-flaky`, one that the history showed
/// `history-flip`.
pub proof fn law_reasons_go_by_their_words(reason: QuarantineReason)
    ensures
        reason is RetryFlaky <==> reason.word() == "retry-flaky"@,
        reason is HistoryFlip <==> reason.word() == "history-flip"@,
{
    law_words_tell_reasons_apart(reason, QuarantineReason::RetryFlaky);
    law_words_tell_reasons_apart(reason, QuarantineReason::HistoryFlip);
}

/// In colour, the label of a failure line is bold yellow and the test path has the looks of its
/// parts; padding and duration are never coloured.
pub proof fn law_failure_lines_colour_label_and_path(
    on: FailureColours,
    failure: QuarantinedFailure,
    duration: Seq<char>,
)
    ensures
        failure_line(on, failure, duration) == seq![' '] + style::shade(
            on.label,
            Paint::YellowBold,
            "QUARANTINED"@,
        ) + seq![' '] + duration + seq![' '] + line::test_path(
            on.path,
            failure.module_name@,
            failure.function_name@,
            name::optional_text(failure.params),
        ) + seq!['\n'],
{
    reveal_strlit("\n");
    reveal_strlit(" ");
    reveal_strlit("QUARANTINED");
    assert(" "@ =~= seq![' ']);
    assert("\n"@ =~= seq!['\n']);
    assert(line::padding(QUARANTINED@.len()) =~= seq![' ']);
}

} // verus!

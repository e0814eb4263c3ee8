//! The lines that show results as they come in.
use crate::line::{self, format_test_path, join_report_line, label_padding, PathColours};
use crate::name::{self, QualifiedTestName};
use crate::reporter::label::{self, count_digits, ResultLabel};
use crate::reporter::status::{self, show_for_status_level, StatusLevel};
use crate::result::kind::IndividualTestResultKind;
use crate::style;
use crate::text::{self, decimal_text};
use vstd::prelude::*;

verus! {

/// A reporter that shows nothing.
#[derive(Debug, Default)]
pub struct DummyReporter;

/// A reporter that shows one line for every result.
#[derive(Debug, Clone, Copy, PartialEq, Eq, Structural)]
pub struct TestCaseReporter {
    pub status_level: StatusLevel,
}

/// Which parts of a result line are coloured.
pub struct LineColours {
    pub label: bool,
    pub path: PathColours,
}

/// A line about `test`: what leads up to the label, the label, the duration, the test path
/// and what follows it.
pub open spec fn test_line(
    on: LineColours,
    lead: Seq<char>,
    label: ResultLabel,
    duration: Seq<char>,
    test: QualifiedTestName,
    suffix: Seq<char>,
) -> Seq<char> {
    line::report_line(
        lead,
        style::shade(on.label, label.paint(), label.word()),
        duration,
        line::test_path(
            on.path,
            test.module_name@,
            test.function_name@,
            name::optional_text(test.params),
        ),
    ) + suffix + "\n"@
}

/// `out` is the line, each part coloured or not.
pub open spec fn is_test_line(
    lead: Seq<char>,
    label: ResultLabel,
    duration: Seq<char>,
    test: QualifiedTestName,
    suffix: Seq<char>,
    out: Seq<char>,
) -> bool {
    exists|on: LineColours| out == #[trigger] test_line(on, lead, label, duration, test, suffix)
}

/// What follows the test path: the reason why a test was skipped, where one was given.
pub open spec fn result_suffix(kind: IndividualTestResultKind) -> Seq<char> {
    match kind {
        IndividualTestResultKind::Skipped { reason: Some(reason) } => ": "@ + reason@,
        _ => Seq::empty(),
    }
}

/// What leads up to the label of an attempt: `TRY` and its number, aligned with the label.
pub open spec fn attempt_lead(attempt: nat, label: ResultLabel) -> Seq<char> {
    line::padding(
        ("TRY "@.len() + text::decimal(attempt).len() + 1 + label.word().len()) as nat,
    ) + "TRY "@ + text::decimal(attempt) + " "@
}

/// Writes a line about a test.
fn write_line(
    lead: &str,
    label: ResultLabel,
    duration: &str,
    test_name: &QualifiedTestName,
    suffix: &str,
) -> (line: String)
    ensures
        is_test_line(lead@, label, duration@, *test_name, suffix@, line@),
{
    let colored_label = label.colored();
    let path = format_test_path(test_name);
    let line = join_report_line(lead, colored_label.as_str(), duration, path.as_str());
    let ended = line.concat(suffix).concat("\n");
    proof {
        let path_on = choose|on: PathColours|
            path@ == #[trigger] line::test_path(
                on,
                test_name.module_name@,
                test_name.function_name@,
                name::optional_text(test_name.params),
            );
        let on = LineColours {
            label: colored_label@ == style::shade(true, label.paint(), label.word()),
            path: path_on,
        };
        assert(ended@ == test_line(on, lead@, label, duration@, *test_name, suffix@));
    }
    ended
}

impl TestCaseReporter {
    /// A reporter that shows what `status_level` shows.
    pub fn new(status_level: StatusLevel) -> (reporter: Self)
        ensures
            reporter.status_level == status_level,
    {
        TestCaseReporter { status_level }
    }

    /// The line for the result of a test, `duration` being its formatted duration; none
    /// where the level does not show the result.
    pub fn test_case_result(
        &self,
        test_name: &QualifiedTestName,
        result_kind: &IndividualTestResultKind,
        duration: &str,
    ) -> (line: Option<String>)
        ensures
            match line {
                Some(line) => self.status_level.rank() >= status::lowest_level(*result_kind).rank()
                    && is_test_line(
                    line::padding(label::label_of(*result_kind).word().len()),
                    label::label_of(*result_kind),
                    duration@,
                    *test_name,
                    result_suffix(*result_kind),
                    line@,
                ),
                None => self.status_level.rank() < status::lowest_level(*result_kind).rank(),
            },
    {
        if !show_for_status_level(self.status_level, result_kind) {
            return None;
        }
        let label = ResultLabel::from(result_kind);
        let padding = label_padding(label.text().unicode_len());
        let suffix = match result_kind {
            IndividualTestResultKind::Skipped { reason: Some(reason) } => {
                ": ".to_owned().concat(reason.as_str())
            },
            _ => String::new(),
        };
        Some(write_line(padding.as_str(), label, duration, test_name, suffix.as_str()))
    }

    /// The line for a test that took longer than the slow threshold; none below the level
    /// for slow tests.
    pub fn test_slow(&self, test_name: &QualifiedTestName, duration: &str) -> (line: Option<String>)
        ensures
            match line {
                Some(line) => self.status_level.rank() >= StatusLevel::Slow.rank() && is_test_line(
                    line::padding(ResultLabel::Slow.word().len()),
                    ResultLabel::Slow,
                    duration@,
                    *test_name,
                    Seq::empty(),
                    line@,
                ),
                None => self.status_level.rank() < StatusLevel::Slow.rank(),
            },
    {
        if !self.status_level.covers(StatusLevel::Slow) {
            return None;
        }
        let label = ResultLabel::Slow;
        let padding = label_padding(label.text().unicode_len());
        let nothing = String::new();
        assert(nothing@ =~= Seq::<char>::empty());
        Some(write_line(padding.as_str(), label, duration, test_name, nothing.as_str()))
    }

    /// The line for one attempt of a retried test, the first attempt being number one; none
    /// below the level for retries.
    pub fn test_attempt(
        &self,
        test_name: &QualifiedTestName,
        attempt: u32,
        result_kind: &IndividualTestResultKind,
        duration: &str,
    ) -> (line: Option<String>)
        ensures
            match line {
                Some(line) => self.status_level.rank() >= StatusLevel::Retry.rank() && is_test_line(
                    attempt_lead(attempt as nat, label::label_of(*result_kind)),
                    label::label_of(*result_kind),
                    duration@,
                    *test_name,
                    Seq::empty(),
                    line@,
                ),
                None => self.status_level.rank() < StatusLevel::Retry.rank(),
            },
    {
        if !self.status_level.covers(StatusLevel::Retry) {
            return None;
        }
        let label = ResultLabel::from(result_kind);
        proof {
            reveal_strlit("TRY ");
            label::lemma_words_are_short(label);
        }
        let label_len: usize = "TRY ".unicode_len() + count_digits(attempt) + 1
            + label.text().unicode_len();
        let padding = label_padding(label_len);
        let number = decimal_text(attempt as u64);
        let lead = padding.concat("TRY ").concat(number.as_str()).concat(" ");
        let nothing = String::new();
        assert(nothing@ =~= Seq::<char>::empty());
        Some(write_line(lead.as_str(), label, duration, test_name, nothing.as_str()))
    }
}

/// Attempts align with results: their labels end in the same column, as long as the number
/// leaves room for the label.
pub proof fn law_attempts_align(attempt: nat, label: ResultLabel)
    ensures
        "TRY "@.len() + text::decimal(attempt).len() + 1 + label.word().len()
            <= line::LABEL_COLUMN_WIDTH ==> (attempt_lead(attempt, label) + label.word()).len()
            == line::LABEL_COLUMN_WIDTH,
{
    reveal_strlit("TRY ");
    reveal_strlit(" ");
}

/// What a level shows, every higher level shows too.
pub proof fn law_levels_are_cumulative(
    low: StatusLevel,
    high: StatusLevel,
    kind: IndividualTestResultKind,
)
    requires
        low.rank() <= high.rank(),
        low.rank() >= status::lowest_level(kind).rank(),
    ensures
        high.rank() >= status::lowest_level(kind).rank(),
{
}

/// A quarantined failure stays visible: it is shown at exactly the levels that show failures.
pub proof fn law_quarantined_failures_stay_visible(level: StatusLevel)
    ensures
        level.rank() >= status::lowest_level(IndividualTestResultKind::Quarantined).rank()
            <==> level.rank() >= status::lowest_level(IndividualTestResultKind::Failed).rank(),
        level.rank() >= status::lowest_level(IndividualTestResultKind::Failed).rank()
            <==> level != StatusLevel::Silent,
{
}

/// Without colours, a line about a test is what leads up to the label, the label, the duration,
/// the full name of the test and what follows it.
pub proof fn law_plain_lines_are_spelled_out(
    lead: Seq<char>,
    label: ResultLabel,
    duration: Seq<char>,
    test: QualifiedTestName,
    suffix: Seq<char>,
)
    ensures
        test_line(
            (LineColours {
                label: false,
                path: PathColours { module: false, function: false, params: false },
            }),
            lead,
            label,
            duration,
            test,
            suffix,
        ) == lead + label.word() + seq![' '] + duration + seq![' '] + test@ + suffix + seq!['\n'],
{
    line::law_plain_path_is_the_name(
        test.module_name@,
        test.function_name@,
        name::optional_text(test.params),
    );
    reveal_strlit("\n");
    reveal_strlit(" ");
    assert(" "@ =~= seq![' ']);
    assert("\n"@ =~= seq!['\n']);
}

/// In colour, a line about a test has its label in the look of the label and the test path in
/// the looks of its parts, everything else unchanged.
pub proof fn law_lines_colour_label_and_path(
    on: LineColours,
    lead: Seq<char>,
    label: ResultLabel,
    duration: Seq<char>,
    test: QualifiedTestName,
    suffix: Seq<char>,
)
    ensures
        test_line(on, lead, label, duration, test, suffix) == lead + style::shade(
            on.label,
            label.paint(),
            label.word(),
        ) + seq![' '] + duration + seq![' '] + line::test_path(
            on.path,
            test.module_name@,
            test.function_name@,
            name::optional_text(test.params),
        ) + suffix + seq!['\n'],
{
    reveal_strlit("\n");
    reveal_strlit(" ");
    assert(" "@ =~= seq![' ']);
    assert("\n"@ =~= seq!['\n']);
}

/// A result line ends in the reason exactly where a test was skipped for one.
pub proof fn law_reasons_follow_skipped_tests(kind: IndividualTestResultKind)
    ensures
        result_suffix(kind) == match kind {
            IndividualTestResultKind::Skipped { reason: Some(reason) } => seq![':', ' '] + reason@,
            _ => Seq::empty(),
        },
{
    reveal_strlit(": ");
    assert(": "@ =~= seq![':', ' ']);
}

/// What leads up to the label of an attempt is blank padding, `TRY` and the number; with the
/// label it fills twelve columns, or as many as it needs.
pub proof fn law_attempts_are_numbered(attempt: nat, label: ResultLabel)
    ensures
        ({
            let lead = attempt_lead(attempt, label);
            let written = seq!['T', 'R', 'Y', ' '] + text::decimal(attempt) + seq![' '];
            &&& written.is_suffix_of(lead)
            &&& forall|i: int| 0 <= i < lead.len() - written.len() ==> #[trigger] lead[i] == ' '
            &&& lead.len() + label.word().len() == if written.len() + label.word().len() <= 12 {
                12
            } else {
                written.len() + label.word().len()
            }
        }),
{
    reveal_strlit("TRY ");
    reveal_strlit(" ");
    let lead = attempt_lead(attempt, label);
    let written = seq!['T', 'R', 'Y', ' '] + text::decimal(attempt) + seq![' '];
    assert(" "@ =~= seq![' ']);
    assert("TRY "@ =~= seq!['T', 'R', 'Y', ' ']);
    let blank = line::padding(
        ("TRY "@.len() + text::decimal(attempt).len() + 1 + label.word().len()) as nat,
    );
    assert(lead =~= blank + written);
    assert(lead.subrange(lead.len() - written.len(), lead.len() as int) =~= written);
}

/// Whatever is coloured, a line about a test begins with what leads up to the label and ends
/// with what follows the test path and a line end. The line without colours is one of them.
pub proof fn law_lines_begin_and_end_as_told(
    lead: Seq<char>,
    label: ResultLabel,
    duration: Seq<char>,
    test: QualifiedTestName,
    suffix: Seq<char>,
    out: Seq<char>,
)
    ensures
        is_test_line(lead, label, duration, test, suffix, out) ==> lead.is_prefix_of(out) && (suffix
            + seq!['\n']).is_suffix_of(out),
        is_test_line(
            lead,
            label,
            duration,
            test,
            suffix,
            lead + label.word() + seq![' '] + duration + seq![' '] + test@ + suffix + seq!['\n'],
        ),
{
    reveal_strlit("\n");
    assert("\n"@ =~= seq!['\n']);
    if is_test_line(lead, label, duration, test, suffix, out) {
        let on = choose|on: LineColours|
            out == #[trigger] test_line(on, lead, label, duration, test, suffix);
        law_lines_colour_label_and_path(on, lead, label, duration, test, suffix);
        let end = suffix + seq!['\n'];
        assert(out.take(lead.len() as int) =~= lead);
        assert(out.subrange(out.len() - end.len(), out.len() as int) =~= end);
    }
    law_plain_lines_are_spelled_out(lead, label, duration, test, suffix);
    let off = LineColours {
        label: false,
        path: PathColours { module: false, function: false, params: false },
    };
    assert(is_test_line(
        lead,
        label,
        duration,
        test,
        suffix,
        test_line(off, lead, label, duration, test, suffix),
    ));
}

} // verus!

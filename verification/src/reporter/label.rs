//! The labels of report lines.
use crate::result::kind::IndividualTestResultKind;
use crate::style::{self, apply, Paint};
use crate::text;
use vstd::prelude::*;
use vstd::std_specs::convert::FromSpecImpl;

verus! {

/// The label of a result.
#[derive(Debug, Clone, Copy, PartialEq, Eq, Structural)]
pub enum ResultLabel {
    Pass,
    Fail,
    Skip,
    Slow,
    Quarantined,
}

impl ResultLabel {
    /// The word that a label shows.
    pub open spec fn word(self) -> Seq<char> {
        match self {
            ResultLabel::Pass => "PASS"@,
            ResultLabel::Fail => "FAIL"@,
            ResultLabel::Skip => "SKIP"@,
            ResultLabel::Slow => "SLOW"@,
            ResultLabel::Quarantined => "QUARANTINED"@,
        }
    }

    /// The look of a label.
    pub open spec fn paint(self) -> Paint {
        match self {
            ResultLabel::Pass => Paint::GreenBold,
            ResultLabel::Fail => Paint::RedBold,
            _ => Paint::YellowBold,
        }
    }

    /// The word that this label shows.
    pub fn text(self) -> (word: &'static str)
        ensures
            word@ == self.word(),
    {
        match self {
            ResultLabel::Pass => "PASS",
            ResultLabel::Fail => "FAIL",
            ResultLabel::Skip => "SKIP",
            ResultLabel::Slow => "SLOW",
            ResultLabel::Quarantined => "QUARANTINED",
        }
    }

    /// The word that this label shows, in its look.
    pub fn colored(self) -> (out: String)
        ensures
            style::painted(self.paint(), self.word(), out@),
    {
        let text = self.text();
        match self {
            ResultLabel::Pass => apply(Paint::GreenBold, text),
            ResultLabel::Fail => apply(Paint::RedBold, text),
            ResultLabel::Skip | ResultLabel::Slow | ResultLabel::Quarantined => {
                apply(Paint::YellowBold, text)
            },
        }
    }
}

/// The label of a result.
pub open spec fn label_of(kind: IndividualTestResultKind) -> ResultLabel {
    match kind {
        IndividualTestResultKind::Passed => ResultLabel::Pass,
        IndividualTestResultKind::Failed => ResultLabel::Fail,
        IndividualTestResultKind::Quarantined => ResultLabel::Quarantined,
        IndividualTestResultKind::Skipped { .. } => ResultLabel::Skip,
    }
}

impl From<&IndividualTestResultKind> for ResultLabel {
    fn from(kind: &IndividualTestResultKind) -> (label: Self) {
        match kind {
            IndividualTestResultKind::Passed => ResultLabel::Pass,
            IndividualTestResultKind::Failed => ResultLabel::Fail,
            IndividualTestResultKind::Quarantined => ResultLabel::Quarantined,
            IndividualTestResultKind::Skipped { .. } => ResultLabel::Skip,
        }
    }
}

impl FromSpecImpl<&IndividualTestResultKind> for ResultLabel {
    open spec fn obeys_from_spec() -> bool {
        true
    }

    open spec fn from_spec(kind: &IndividualTestResultKind) -> ResultLabel {
        label_of(*kind)
    }
}

/// The number of digits of `n`.
pub fn count_digits(n: u32) -> (digits: usize)
    ensures
        digits == text::decimal(n as nat).len(),
        1 <= digits <= 10,
{
    proof {
        text::lemma_decimal_is_short(n);
    }
    let mut rest: u32 = n;
    let mut digits: usize = 1;
    while rest >= 10
        invariant
            1 <= digits,
            digits - 1 + text::decimal(rest as nat).len() == text::decimal(n as nat).len(),
            text::decimal(n as nat).len() <= 10,
        decreases rest,
    {
        assert(text::decimal((rest / 10) as nat).len() >= 1);
        rest = rest / 10;
        digits += 1;
    }
    digits
}

/// Every label fits into the label column.
pub proof fn lemma_words_are_short(label: ResultLabel)
    ensures
        label.word().len() <= 11,
{
    reveal_strlit("PASS");
    reveal_strlit("FAIL");
    reveal_strlit("SKIP");
    reveal_strlit("SLOW");
    reveal_strlit("QUARANTINED");
}

/// Every result has the label of its kind, whatever the reason of a skipped one; passes are
/// green, failures red and everything else yellow.
pub proof fn law_labels_tell_the_kind(kind: IndividualTestResultKind)
    ensures
        kind is Passed <==> label_of(kind) == ResultLabel::Pass,
        kind is Failed <==> label_of(kind) == ResultLabel::Fail,
        kind is Quarantined <==> label_of(kind) == ResultLabel::Quarantined,
        kind is Skipped <==> label_of(kind) == ResultLabel::Skip,
        label_of(kind).paint() == if kind is Passed {
            Paint::GreenBold
        } else if kind is Failed {
            Paint::RedBold
        } else {
            Paint::YellowBold
        },
        label_of(kind).word() == if kind is Passed {
            "PASS"@
        } else if kind is Failed {
            "FAIL"@
        } else if kind is Skipped {
            "SKIP"@
        } else {
            "QUARANTINED"@
        },
        ResultLabel::Slow.word() == "SLOW"@,
        ResultLabel::Slow.paint() == Paint::YellowBold,
{
}

} // verus!

//! Which results are shown.
use crate::result::kind::IndividualTestResultKind;
use vstd::prelude::*;

verus! {

/// How much of a run is shown. Levels are cumulative: each one shows what the levels
/// before it show, and more.
#[derive(Debug, Clone, Copy, PartialEq, Eq, Structural)]
pub enum StatusLevel {
    Silent,
    Fail,
    Retry,
    Slow,
    Pass,
    Skip,
    All,
}

impl StatusLevel {
    /// The place of the level among the levels.
    pub open spec fn rank(self) -> nat {
        match self {
            StatusLevel::Silent => 0,
            StatusLevel::Fail => 1,
            StatusLevel::Retry => 2,
            StatusLevel::Slow => 3,
            StatusLevel::Pass => 4,
            StatusLevel::Skip => 5,
            StatusLevel::All => 6,
        }
    }

    fn place(self) -> (place: u8)
        ensures
            place == self.rank(),
    {
        match self {
            StatusLevel::Silent => 0,
            StatusLevel::Fail => 1,
            StatusLevel::Retry => 2,
            StatusLevel::Slow => 3,
            StatusLevel::Pass => 4,
            StatusLevel::Skip => 5,
            StatusLevel::All => 6,
        }
    }

    /// Whether this level shows what `other` shows.
    pub fn covers(self, other: StatusLevel) -> (covered: bool)
        ensures
            covered == (self.rank() >= other.rank()),
    {
        self.place() >= other.place()
    }
}

/// The lowest level that shows a result.
pub open spec fn lowest_level(kind: IndividualTestResultKind) -> StatusLevel {
    match kind {
        IndividualTestResultKind::Failed => StatusLevel::Fail,
        IndividualTestResultKind::Quarantined => StatusLevel::Fail,
        IndividualTestResultKind::Passed => StatusLevel::Pass,
        IndividualTestResultKind::Skipped { .. } => StatusLevel::Skip,
    }
}

/// Whether `level` shows a result. A quarantined failure is shown wherever a failure is.
pub fn show_for_status_level(level: StatusLevel, kind: &IndividualTestResultKind) -> (shown: bool)
    ensures
        shown == (level.rank() >= lowest_level(*kind).rank()),
{
    match level {
        StatusLevel::Silent => false,
        StatusLevel::Fail | StatusLevel::Retry | StatusLevel::Slow => matches!(
            kind,
            IndividualTestResultKind::Failed | IndividualTestResultKind::Quarantined
        ),
        StatusLevel::Pass => matches!(
            kind,
            IndividualTestResultKind::Failed | IndividualTestResultKind::Quarantined
                | IndividualTestResultKind::Passed
        ),
        StatusLevel::Skip | StatusLevel::All => true,
    }
}

/// What each level shows: failures, quarantined or not, from the first level on, passes from
/// `Pass` on, skipped tests from `Skip` on, for whatever reason they were skipped.
pub proof fn law_what_levels_show(level: StatusLevel, kind: IndividualTestResultKind)
    ensures
        ({
            let shown = level.rank() >= lowest_level(kind).rank();
            &&& kind is Failed || kind is Quarantined ==> (shown <==> level != StatusLevel::Silent)
            &&& kind is Passed ==> (shown <==> level == StatusLevel::Pass || level
                == StatusLevel::Skip || level == StatusLevel::All)
            &&& kind is Skipped ==> (shown <==> level == StatusLevel::Skip || level
                == StatusLevel::All)
        }),
{
}

/// The levels in order. Lines about retries are shown from `Retry` on, lines about slow tests
/// from `Slow` on.
pub proof fn law_levels_are_ordered(level: StatusLevel)
    ensures
        StatusLevel::Silent.rank() < StatusLevel::Fail.rank() < StatusLevel::Retry.rank()
            < StatusLevel::Slow.rank() < StatusLevel::Pass.rank() < StatusLevel::Skip.rank()
            < StatusLevel::All.rank(),
        level.rank() >= StatusLevel::Retry.rank() <==> level != StatusLevel::Silent && level
            != StatusLevel::Fail,
        level.rank() >= StatusLevel::Slow.rank() <==> level == StatusLevel::Slow || level
            == StatusLevel::Pass || level == StatusLevel::Skip || level == StatusLevel::All,
{
}

} // verus!

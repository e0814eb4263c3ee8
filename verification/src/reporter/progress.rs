//! The file that says which test a worker is executing.
use crate::name::QualifiedTestName;
use crate::runner::cancel::unix_ms;
use vstd::prelude::*;

verus! {

/// How often the file is brought up to date, in milliseconds.
pub const PROGRESS_FLUSH_INTERVAL_MS: u64 = 25;

/// The test that a worker is executing.
#[derive(Debug, PartialEq, Eq)]
pub struct ProgressSnapshot {
    pub name: String,
    /// When the test started, in milliseconds since the Unix epoch.
    pub start_unix_ms: u64,
}

/// What a [`ProgressSnapshot`] says.
pub struct SnapshotView {
    pub name: Seq<char>,
    pub start_unix_ms: u64,
}

impl View for ProgressSnapshot {
    type V = SnapshotView;

    open spec fn view(&self) -> SnapshotView {
        SnapshotView { name: self.name@, start_unix_ms: self.start_unix_ms }
    }
}

impl Clone for ProgressSnapshot {
    fn clone(&self) -> (copy: Self)
        ensures
            copy == *self,
    {
        ProgressSnapshot { name: self.name.clone(), start_unix_ms: self.start_unix_ms }
    }
}

/// What an optional snapshot says.
pub open spec fn said(snapshot: Option<ProgressSnapshot>) -> Option<SnapshotView> {
    match snapshot {
        Some(snapshot) => Some(snapshot@),
        None => None,
    }
}

impl ProgressSnapshot {
    /// The snapshot for a test that starts now, `since_epoch` being the milliseconds as the
    /// system clock gives them: none where the clock is set before the epoch.
    pub fn starting(test_name: &QualifiedTestName, since_epoch: Option<u128>) -> (snapshot: Self)
        ensures
            snapshot.name@ == test_name@,
            snapshot.start_unix_ms == match since_epoch {
                Some(ms) => if ms <= u64::MAX {
                    ms as int
                } else {
                    u64::MAX as int
                },
                None => 0,
            },
    {
        ProgressSnapshot { name: test_name.to_text(), start_unix_ms: unix_ms(since_epoch) }
    }

    /// Whether both snapshots say the same.
    pub fn same_as(&self, other: &ProgressSnapshot) -> (same: bool)
        ensures
            same == (self@ == other@),
    {
        self.name == other.name && self.start_unix_ms == other.start_unix_ms
    }
}

/// What has to be done to the file.
#[derive(Debug, Clone, Copy, PartialEq, Eq, Structural)]
pub enum FlushAction {
    /// The file is up to date.
    Nothing,
    /// Replace what the file holds by the current snapshot.
    Write,
    /// Empty the file.
    Clear,
}

/// What has to be done so that a file that holds `written` holds `current`.
pub open spec fn flush_action(
    written: Option<SnapshotView>,
    current: Option<SnapshotView>,
) -> FlushAction {
    if current == written {
        FlushAction::Nothing
    } else if current is Some {
        FlushAction::Write
    } else {
        FlushAction::Clear
    }
}

/// What the file holds, as far as it is known.
#[derive(Debug)]
pub struct ProgressFlush {
    written: Option<ProgressSnapshot>,
}

impl ProgressFlush {
    /// What was last written; nothing where the file is empty.
    pub closed spec fn written(self) -> Option<SnapshotView> {
        said(self.written)
    }

    /// A file that is empty.
    pub fn new() -> (flush: Self)
        ensures
            flush.written() is None,
    {
        ProgressFlush { written: None }
    }

    /// What has to be done so that the file holds `current`.
    pub fn action(&self, current: &Option<ProgressSnapshot>) -> (action: FlushAction)
        ensures
            action == flush_action(self.written(), said(*current)),
    {
        match (current, &self.written) {
            (None, None) => FlushAction::Nothing,
            (None, Some(_)) => FlushAction::Clear,
            (Some(_), None) => FlushAction::Write,
            (Some(now), Some(before)) => {
                if now.same_as(before) {
                    FlushAction::Nothing
                } else {
                    FlushAction::Write
                }
            },
        }
    }

    /// Takes note of whether bringing the file to `current` went well. After a failure the
    /// next round tries again.
    pub fn flushed(&mut self, current: Option<ProgressSnapshot>, succeeded: bool)
        ensures
            final(self).written() == written_after(old(self).written(), said(current), succeeded),
    {
        if succeeded {
            self.written = current;
        }
    }
}

/// What a file holds after a round.
pub open spec fn written_after(
    written: Option<SnapshotView>,
    current: Option<SnapshotView>,
    succeeded: bool,
) -> Option<SnapshotView> {
    if succeeded {
        current
    } else {
        written
    }
}

/// After a successful round there is nothing left to do until the test changes, and after a
/// failed one the same is still to be done.
pub proof fn law_rounds_settle(
    written: Option<SnapshotView>,
    current: Option<SnapshotView>,
    succeeded: bool,
)
    ensures
        flush_action(written_after(written, current, succeeded), current) == if succeeded {
            FlushAction::Nothing
        } else {
            flush_action(written, current)
        },
{
}

/// What the flusher does next.
#[derive(Debug, Clone, Copy, PartialEq, Eq, Structural)]
pub enum FlusherStep {
    /// Look whether the flusher is asked to stop.
    CheckStop,
    /// Bring the file up to date.
    Flush,
    /// Sleep for the flush interval.
    Sleep,
    /// Bring the file up to date for the last time.
    LastFlush,
    /// Empty the file.
    LastClear,
    Done,
}

/// What the flusher does after `step`.
pub open spec fn step_after(step: FlusherStep, stop: bool) -> FlusherStep {
    match step {
        FlusherStep::CheckStop => if stop {
            FlusherStep::LastFlush
        } else {
            FlusherStep::Flush
        },
        FlusherStep::Flush => FlusherStep::Sleep,
        FlusherStep::Sleep => FlusherStep::CheckStop,
        FlusherStep::LastFlush => FlusherStep::LastClear,
        FlusherStep::LastClear => FlusherStep::Done,
        FlusherStep::Done => FlusherStep::Done,
    }
}

/// What the flusher does after `step`, `stop` saying whether it is asked to stop.
pub fn next_flusher_step(step: FlusherStep, stop: bool) -> (next: FlusherStep)
    ensures
        next == step_after(step, stop),
{
    match step {
        FlusherStep::CheckStop => {
            if stop {
                FlusherStep::LastFlush
            } else {
                FlusherStep::Flush
            }
        },
        FlusherStep::Flush => FlusherStep::Sleep,
        FlusherStep::Sleep => FlusherStep::CheckStop,
        FlusherStep::LastFlush => FlusherStep::LastClear,
        FlusherStep::LastClear => FlusherStep::Done,
        FlusherStep::Done => FlusherStep::Done,
    }
}

/// A flusher that is asked to stop brings the file up to date once more, empties it and is
/// done, wherever it stands; it is done only once the file was emptied.
pub proof fn law_the_file_ends_empty(step: FlusherStep, stop: bool)
    ensures
        step_after(FlusherStep::CheckStop, true) == FlusherStep::LastFlush,
        step_after(step_after(FlusherStep::CheckStop, true), stop) == FlusherStep::LastClear,
        step_after(step, stop) == FlusherStep::Done ==> step == FlusherStep::LastClear || step
            == FlusherStep::Done,
{
}

/// The file is left alone exactly when it holds the current test, written when it holds another
/// or none, and emptied when no test is running any more.
pub proof fn law_the_file_follows_the_test(
    written: Option<SnapshotView>,
    current: Option<SnapshotView>,
)
    ensures
        flush_action(written, current) == FlushAction::Nothing <==> written == current,
        flush_action(written, current) == FlushAction::Write <==> written != current
            && current is Some,
        flush_action(written, current) == FlushAction::Clear <==> written is Some
            && current is None,
{
}

/// Snapshots say the same exactly when they name the same test and the same start.
pub proof fn law_snapshots_tell_test_and_start(a: ProgressSnapshot, b: ProgressSnapshot)
    ensures
        said(Some(a)) == said(Some(b)) <==> a.name@ == b.name@ && a.start_unix_ms
            == b.start_unix_ms,
        said(Some(a)) != said(None),
{
}

/// Until it is asked to stop, the flusher flushes, sleeps and looks again.
pub proof fn law_the_flusher_goes_on_until_stopped(stop: bool)
    ensures
        step_after(FlusherStep::CheckStop, false) == FlusherStep::Flush,
        step_after(FlusherStep::Flush, stop) == FlusherStep::Sleep,
        step_after(FlusherStep::Sleep, stop) == FlusherStep::CheckStop,
        step_after(FlusherStep::LastFlush, stop) == FlusherStep::LastClear,
        step_after(FlusherStep::LastClear, stop) == FlusherStep::Done,
        step_after(FlusherStep::Done, stop) == FlusherStep::Done,
{
}

/// A round that went well leaves the current test in the file, one that did not what was there.
pub proof fn law_failed_rounds_change_nothing(
    written: Option<SnapshotView>,
    current: Option<SnapshotView>,
)
    ensures
        written_after(written, current, true) == current,
        written_after(written, current, false) == written,
{
}

} // verus!

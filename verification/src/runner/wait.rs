//! Waiting for the workers.
//!
//! The machine says what to look at next, and is told what was seen. It ends
//! with the reason why waiting is over.
use crate::duration::Duration;
use vstd::prelude::*;

verus! {

/// How waiting for the workers ended.
#[derive(Debug, Clone, Copy, PartialEq, Eq, Structural)]
pub enum WaitOutcome {
    /// Every worker exited on its own.
    AllCompleted,
    /// Ctrl+C was received; remaining workers must be killed.
    Cancelled,
    /// A worker hit the fail-fast budget; remaining workers must be killed.
    FailFast,
    /// The run timeout elapsed before the workers finished.
    TimedOut,
}

/// What the orchestrator has to do next.
#[derive(Debug, Clone, Copy, PartialEq, Eq, Structural)]
pub enum WaitAction {
    /// Ask every remaining worker, in order, whether it has exited.
    PollWorkers,
    /// Ask the shutdown channel for a message.
    CheckShutdown,
    /// Look for the fail-fast signal of the run.
    CheckFailFast,
    /// Read how much time has passed since the start of the run.
    ReadClock,
    /// Sleep for the poll interval.
    Sleep,
    /// Stop waiting.
    Finish(WaitOutcome),
}

/// What asking a worker process gave.
#[derive(Debug, Clone, Copy, PartialEq, Eq, Structural)]
pub enum WorkerStatus {
    /// The process has exited.
    Exited,
    /// The process is still running.
    Running,
    /// The process could not be asked.
    Lost,
}

/// What asking the shutdown channel gave.
#[derive(Debug, Clone, Copy, PartialEq, Eq, Structural)]
pub enum ShutdownStatus {
    /// A shutdown message was waiting.
    Requested,
    /// The sending side is gone.
    Disconnected,
    /// No message was waiting.
    Quiet,
}

/// What the orchestrator saw when it did what it was told.
#[derive(Debug)]
pub enum WaitEvent {
    /// The status of every remaining worker, in order.
    Polled(Vec<WorkerStatus>),
    Shutdown(ShutdownStatus),
    /// Whether the fail-fast signal is there.
    FailFast(bool),
    /// The time since the start of the run.
    Clock(Duration),
    Slept,
}

/// Which conditions end the wait early.
#[derive(Debug, Clone, Copy, PartialEq, Eq, Structural)]
pub struct WaitConditions {
    /// A shutdown handler is installed.
    pub shutdown: bool,
    /// The run has a failure limit.
    pub fail_fast: bool,
    /// The time limit of the whole run.
    pub timeout: Option<Duration>,
}

impl WaitConditions {
    /// The first thing to check once the shutdown channel is quiet or absent.
    pub open spec fn after_shutdown(self) -> WaitAction {
        if self.fail_fast {
            WaitAction::CheckFailFast
        } else {
            self.after_fail_fast()
        }
    }

    /// The first thing to do once there is no fail-fast signal.
    pub open spec fn after_fail_fast(self) -> WaitAction {
        if self.timeout is Some {
            WaitAction::ReadClock
        } else {
            WaitAction::Sleep
        }
    }

    /// The first thing to do once workers are known to remain.
    pub open spec fn after_poll(self) -> WaitAction {
        if self.shutdown {
            WaitAction::CheckShutdown
        } else {
            self.after_shutdown()
        }
    }
}

/// The workers among `workers` that are still running.
pub open spec fn still_running(workers: Seq<usize>, seen: Seq<WorkerStatus>) -> Seq<usize>
    decreases workers.len(),
{
    if workers.len() == 0 || seen.len() != workers.len() {
        Seq::empty()
    } else if seen.last() == WorkerStatus::Running {
        still_running(workers.drop_last(), seen.drop_last()).push(workers.last())
    } else {
        still_running(workers.drop_last(), seen.drop_last())
    }
}

/// `event` answers `action` when `workers` remain.
pub open spec fn answers(workers: Seq<usize>, action: WaitAction, event: WaitEvent) -> bool {
    match action {
        WaitAction::PollWorkers => event matches WaitEvent::Polled(seen) && seen@.len()
            == workers.len(),
        WaitAction::CheckShutdown => event is Shutdown,
        WaitAction::CheckFailFast => event is FailFast,
        WaitAction::ReadClock => event is Clock,
        WaitAction::Sleep => event is Slept,
        WaitAction::Finish(_) => false,
    }
}

/// The workers that remain after `event`.
pub open spec fn workers_after(workers: Seq<usize>, event: WaitEvent) -> Seq<usize> {
    match event {
        WaitEvent::Polled(seen) => still_running(workers, seen@),
        _ => workers,
    }
}

/// What to do after `event`, `workers` being those that remained before it.
pub open spec fn action_after(
    conditions: WaitConditions,
    workers: Seq<usize>,
    event: WaitEvent,
) -> WaitAction {
    match event {
        WaitEvent::Polled(seen) => if still_running(workers, seen@).len() == 0 {
            WaitAction::Finish(WaitOutcome::AllCompleted)
        } else {
            conditions.after_poll()
        },
        WaitEvent::Shutdown(ShutdownStatus::Quiet) => conditions.after_shutdown(),
        WaitEvent::Shutdown(_) => WaitAction::Finish(WaitOutcome::Cancelled),
        WaitEvent::FailFast(true) => WaitAction::Finish(WaitOutcome::FailFast),
        WaitEvent::FailFast(false) => conditions.after_fail_fast(),
        WaitEvent::Clock(now) => if conditions.timeout matches Some(limit) && now.length()
            >= limit.length() {
            WaitAction::Finish(WaitOutcome::TimedOut)
        } else {
            WaitAction::Sleep
        },
        WaitEvent::Slept => WaitAction::PollWorkers,
    }
}

/// Waits for workers.
#[derive(Debug)]
pub struct WorkerWait {
    conditions: WaitConditions,
    workers: Vec<usize>,
    action: WaitAction,
}

impl WorkerWait {
    /// The conditions that end the wait early.
    pub closed spec fn conditions(self) -> WaitConditions {
        self.conditions
    }

    /// The workers that remain.
    pub closed spec fn remaining(self) -> Seq<usize> {
        self.workers@
    }

    /// What has to be done next.
    pub closed spec fn pending(self) -> WaitAction {
        self.action
    }

    /// Starts waiting for `workers`. With no workers there is nothing to wait for.
    pub fn new(conditions: WaitConditions, workers: Vec<usize>) -> (wait: Self)
        ensures
            wait.conditions() == conditions,
            wait.remaining() == workers@,
            wait.pending() == if workers@.len() == 0 {
                WaitAction::Finish(WaitOutcome::AllCompleted)
            } else {
                WaitAction::PollWorkers
            },
    {
        let action = if workers.len() == 0 {
            WaitAction::Finish(WaitOutcome::AllCompleted)
        } else {
            WaitAction::PollWorkers
        };
        WorkerWait { conditions, workers, action }
    }

    /// What has to be done next.
    pub fn action(&self) -> (action: WaitAction)
        ensures
            action == self.pending(),
    {
        self.action
    }

    /// The ids of the workers that remain, in the order they were started.
    pub fn workers(&self) -> (workers: &[usize])
        ensures
            workers@ == self.remaining(),
    {
        self.workers.as_slice()
    }

    /// Whether `event` answers what was to be done.
    pub fn accepts(&self, event: &WaitEvent) -> (fits: bool)
        ensures
            fits == answers(self.remaining(), self.pending(), *event),
    {
        match (self.action, event) {
            (WaitAction::PollWorkers, WaitEvent::Polled(seen)) => seen.len() == self.workers.len(),
            (WaitAction::CheckShutdown, WaitEvent::Shutdown(_)) => true,
            (WaitAction::CheckFailFast, WaitEvent::FailFast(_)) => true,
            (WaitAction::ReadClock, WaitEvent::Clock(_)) => true,
            (WaitAction::Sleep, WaitEvent::Slept) => true,
            _ => false,
        }
    }

    /// Takes in what was seen and says what to do next.
    pub fn step(&mut self, event: &WaitEvent) -> (action: WaitAction)
        requires
            answers(old(self).remaining(), old(self).pending(), *event),
        ensures
            final(self).conditions() == old(self).conditions(),
            final(self).remaining() == workers_after(old(self).remaining(), *event),
            final(self).pending() == action_after(
                old(self).conditions(),
                old(self).remaining(),
                *event,
            ),
            action == final(self).pending(),
    {
        let action = match event {
            WaitEvent::Polled(seen) => {
                self.workers = keep_running(&self.workers, seen);
                if self.workers.len() == 0 {
                    WaitAction::Finish(WaitOutcome::AllCompleted)
                } else if self.conditions.shutdown {
                    WaitAction::CheckShutdown
                } else {
                    self.next_after_shutdown()
                }
            },
            WaitEvent::Shutdown(ShutdownStatus::Quiet) => self.next_after_shutdown(),
            WaitEvent::Shutdown(_) => WaitAction::Finish(WaitOutcome::Cancelled),
            WaitEvent::FailFast(found) => {
                if *found {
                    WaitAction::Finish(WaitOutcome::FailFast)
                } else {
                    self.next_after_fail_fast()
                }
            },
            WaitEvent::Clock(now) => {
                match self.conditions.timeout {
                    Some(limit) if now.reaches(&limit) => WaitAction::Finish(WaitOutcome::TimedOut),
                    _ => WaitAction::Sleep,
                }
            },
            WaitEvent::Slept => WaitAction::PollWorkers,
        };
        self.action = action;
        action
    }

    fn next_after_shutdown(&self) -> (action: WaitAction)
        ensures
            action == self.conditions().after_shutdown(),
    {
        if self.conditions.fail_fast {
            WaitAction::CheckFailFast
        } else {
            self.next_after_fail_fast()
        }
    }

    fn next_after_fail_fast(&self) -> (action: WaitAction)
        ensures
            action == self.conditions().after_fail_fast(),
    {
        if self.conditions.timeout.is_some() {
            WaitAction::ReadClock
        } else {
            WaitAction::Sleep
        }
    }
}

/// The workers that are still running, in order.
fn keep_running(workers: &Vec<usize>, seen: &Vec<WorkerStatus>) -> (kept: Vec<usize>)
    requires
        workers@.len() == seen@.len(),
    ensures
        kept@ == still_running(workers@, seen@),
{
    let mut kept: Vec<usize> = Vec::new();
    let mut i: usize = 0;
    assert(kept@ =~= still_running(workers@.take(0), seen@.take(0)));
    while i < workers.len()
        invariant
            i <= workers@.len(),
            workers@.len() == seen@.len(),
            kept@ == still_running(workers@.take(i as int), seen@.take(i as int)),
        decreases workers@.len() - i,
    {
        if seen[i] == WorkerStatus::Running {
            kept.push(workers[i]);
        }
        proof {
            assert(workers@.take(i + 1).drop_last() =~= workers@.take(i as int));
            assert(seen@.take(i + 1).drop_last() =~= seen@.take(i as int));
        }
        i += 1;
    }
    assert(workers@.take(i as int) =~= workers@);
    assert(seen@.take(i as int) =~= seen@);
    kept
}

/// What one round of looking at everything leads to: first that all workers are done,
/// then a shutdown request, then the fail-fast signal, then the time limit.
pub open spec fn round_outcome(
    conditions: WaitConditions,
    workers: Seq<usize>,
    seen: Seq<WorkerStatus>,
    shutdown: ShutdownStatus,
    fail_fast: bool,
    now: Duration,
) -> Option<WaitOutcome> {
    if still_running(workers, seen).len() == 0 {
        Some(WaitOutcome::AllCompleted)
    } else if conditions.shutdown && shutdown != ShutdownStatus::Quiet {
        Some(WaitOutcome::Cancelled)
    } else if conditions.fail_fast && fail_fast {
        Some(WaitOutcome::FailFast)
    } else if conditions.timeout matches Some(limit) && now.length() >= limit.length() {
        Some(WaitOutcome::TimedOut)
    } else {
        None
    }
}

/// The answer to `action` in a round.
pub open spec fn round_event(
    action: WaitAction,
    seen: Vec<WorkerStatus>,
    shutdown: ShutdownStatus,
    fail_fast: bool,
    now: Duration,
) -> WaitEvent {
    match action {
        WaitAction::PollWorkers => WaitEvent::Polled(seen),
        WaitAction::CheckShutdown => WaitEvent::Shutdown(shutdown),
        WaitAction::CheckFailFast => WaitEvent::FailFast(fail_fast),
        WaitAction::ReadClock => WaitEvent::Clock(now),
        _ => WaitEvent::Slept,
    }
}

/// What the machine does from `action` on, through the rest of a round.
pub open spec fn end_of_round(
    conditions: WaitConditions,
    workers: Seq<usize>,
    action: WaitAction,
    seen: Vec<WorkerStatus>,
    shutdown: ShutdownStatus,
    fail_fast: bool,
    now: Duration,
    steps: nat,
) -> WaitAction
    decreases steps,
{
    if steps == 0 || action is Finish || action is Sleep {
        action
    } else {
        let event = round_event(action, seen, shutdown, fail_fast, now);
        end_of_round(
            conditions,
            workers_after(workers, event),
            action_after(conditions, workers, event),
            seen,
            shutdown,
            fail_fast,
            now,
            (steps - 1) as nat,
        )
    }
}

/// A round ends in at most four steps, with the outcome that comes first in order, or
/// asleep when there is no reason to stop. In particular a run whose workers are all
/// done is complete, whatever signals have arrived and however late it is.
pub proof fn law_a_round_reports_the_first_reason(
    conditions: WaitConditions,
    workers: Seq<usize>,
    seen: Vec<WorkerStatus>,
    shutdown: ShutdownStatus,
    fail_fast: bool,
    now: Duration,
)
    requires
        seen@.len() == workers.len(),
    ensures
        end_of_round(
            conditions,
            workers,
            WaitAction::PollWorkers,
            seen,
            shutdown,
            fail_fast,
            now,
            4,
        ) == match round_outcome(conditions, workers, seen@, shutdown, fail_fast, now) {
            Some(outcome) => WaitAction::Finish(outcome),
            None => WaitAction::Sleep,
        },
{
    reveal_with_fuel(end_of_round, 5);
}

/// A worker that is seen to have exited, or that can no longer be asked, is not waited
/// for again, and no other worker is dropped.
pub proof fn law_running_workers_are_kept(
    workers: Seq<usize>,
    seen: Seq<WorkerStatus>,
    worker: usize,
)
    requires
        workers.len() == seen.len(),
    ensures
        still_running(workers, seen).contains(worker) <==> exists|i: int|
            0 <= i < workers.len() && #[trigger] workers[i] == worker && seen[i]
                == WorkerStatus::Running,
        still_running(workers, seen).len() <= workers.len(),
    decreases workers.len(),
{
    if workers.len() > 0 {
        let w = workers.drop_last();
        let s = seen.drop_last();
        law_running_workers_are_kept(w, s, worker);
        let kept = still_running(w, s);
        let all = still_running(workers, seen);
        if kept.contains(worker) {
            let i = choose|i: int|
                0 <= i < w.len() && #[trigger] w[i] == worker && s[i] == WorkerStatus::Running;
            assert(workers[i] == worker && seen[i] == WorkerStatus::Running);
            let k = choose|k: int| 0 <= k < kept.len() && kept[k] == worker;
            assert(all[k] == worker);
        }
        if seen.last() == WorkerStatus::Running && workers.last() == worker {
            assert(all[all.len() - 1] == worker);
            assert(workers[workers.len() - 1] == worker);
        }
        if all.contains(worker) && !kept.contains(worker) {
            assert(workers[workers.len() - 1] == worker);
        }
        if exists|i: int|
            0 <= i < workers.len() && #[trigger] workers[i] == worker && seen[i]
                == WorkerStatus::Running {
            let i = choose|i: int|
                0 <= i < workers.len() && #[trigger] workers[i] == worker && seen[i]
                    == WorkerStatus::Running;
            if i < w.len() {
                assert(w[i] == worker && s[i] == WorkerStatus::Running);
            }
        }
    }
}

/// Waiting is over when every worker has exited or was lost, and goes on while one is running.
pub proof fn law_waiting_ends_with_the_last_worker(
    conditions: WaitConditions,
    workers: Seq<usize>,
    seen: Vec<WorkerStatus>,
)
    requires
        seen@.len() == workers.len(),
    ensures
        action_after(conditions, workers, WaitEvent::Polled(seen)) == WaitAction::Finish(
            WaitOutcome::AllCompleted,
        ) <==> forall|i: int|
            0 <= i < seen@.len() ==> #[trigger] seen@[i] != WorkerStatus::Running,
        (exists|i: int| 0 <= i < seen@.len() && #[trigger] seen@[i] == WorkerStatus::Running)
            ==> action_after(conditions, workers, WaitEvent::Polled(seen))
            == if conditions.shutdown {
            WaitAction::CheckShutdown
        } else if conditions.fail_fast {
            WaitAction::CheckFailFast
        } else if conditions.timeout is Some {
            WaitAction::ReadClock
        } else {
            WaitAction::Sleep
        },
{
    let kept = still_running(workers, seen@);
    if kept.len() > 0 {
        law_running_workers_are_kept(workers, seen@, kept[0]);
        assert(kept.contains(kept[0]));
        let i = choose|i: int|
            0 <= i < workers.len() && #[trigger] workers[i] == kept[0] && seen@[i]
                == WorkerStatus::Running;
        assert(seen@[i] == WorkerStatus::Running);
    }
    if exists|i: int| 0 <= i < seen@.len() && #[trigger] seen@[i] == WorkerStatus::Running {
        let i = choose|i: int|
            0 <= i < seen@.len() && #[trigger] seen@[i] == WorkerStatus::Running;
        law_running_workers_are_kept(workers, seen@, workers[i]);
        assert(kept.contains(workers[i]));
    }
}

/// A shutdown that is requested, or can no longer be requested, cancels the run; a quiet
/// channel leads on to what is left to look at.
pub proof fn law_shutdowns_cancel_the_run(
    conditions: WaitConditions,
    workers: Seq<usize>,
    shutdown: ShutdownStatus,
)
    ensures
        action_after(conditions, workers, WaitEvent::Shutdown(shutdown)) == WaitAction::Finish(
            WaitOutcome::Cancelled,
        ) <==> shutdown is Requested || shutdown is Disconnected,
        shutdown is Quiet ==> action_after(conditions, workers, WaitEvent::Shutdown(shutdown))
            == if conditions.fail_fast {
            WaitAction::CheckFailFast
        } else if conditions.timeout is Some {
            WaitAction::ReadClock
        } else {
            WaitAction::Sleep
        },
{
}

/// The fail-fast signal ends the wait, and only its being there does.
pub proof fn law_signals_end_the_wait(
    conditions: WaitConditions,
    workers: Seq<usize>,
    found: bool,
)
    ensures
        action_after(conditions, workers, WaitEvent::FailFast(found)) == if found {
            WaitAction::Finish(WaitOutcome::FailFast)
        } else if conditions.timeout is Some {
            WaitAction::ReadClock
        } else {
            WaitAction::Sleep
        },
{
}

/// The run times out once as much time has passed as its limit says, and sleeps until then.
pub proof fn law_runs_time_out_at_their_limit(
    conditions: WaitConditions,
    workers: Seq<usize>,
    now: Duration,
    limit: Duration,
)
    requires
        now.is_normal(),
        limit.is_normal(),
        conditions.timeout == Some(limit),
    ensures
        action_after(conditions, workers, WaitEvent::Clock(now)) == if now.secs > limit.secs || (
        now.secs == limit.secs && now.nanos >= limit.nanos) {
            WaitAction::Finish(WaitOutcome::TimedOut)
        } else {
            WaitAction::Sleep
        },
{
}

/// Without a limit no time is too long, and after every sleep the workers are asked again.
pub proof fn law_waiting_goes_on(conditions: WaitConditions, workers: Seq<usize>, now: Duration)
    ensures
        conditions.timeout is None ==> action_after(conditions, workers, WaitEvent::Clock(now))
            == WaitAction::Sleep,
        action_after(conditions, workers, WaitEvent::Slept) == WaitAction::PollWorkers,
{
}

/// The workers that remain keep their order: those of one list of workers and of another are
/// those of the two lists put together.
pub proof fn law_remaining_workers_keep_their_order(
    a: Seq<usize>,
    seen_a: Seq<WorkerStatus>,
    b: Seq<usize>,
    seen_b: Seq<WorkerStatus>,
    worker: usize,
    status: WorkerStatus,
)
    requires
        a.len() == seen_a.len(),
        b.len() == seen_b.len(),
    ensures
        still_running(a + b, seen_a + seen_b) == still_running(a, seen_a) + still_running(
            b,
            seen_b,
        ),
        still_running(seq![worker], seq![status]) == if status is Running {
            seq![worker]
        } else {
            Seq::empty()
        },
    decreases b.len(),
{
    let one = seq![worker];
    let saw = seq![status];
    assert(one.drop_last() =~= Seq::empty());
    assert(still_running(one.drop_last(), saw.drop_last()) =~= Seq::<usize>::empty());
    assert(still_running(one, saw) =~= if status is Running {
        seq![worker]
    } else {
        Seq::empty()
    });
    if b.len() == 0 {
        assert(a + b =~= a);
        assert(seen_a + seen_b =~= seen_a);
        assert(still_running(a, seen_a) + Seq::empty() =~= still_running(a, seen_a));
    } else {
        law_remaining_workers_keep_their_order(
            a,
            seen_a,
            b.drop_last(),
            seen_b.drop_last(),
            worker,
            status,
        );
        assert((a + b).drop_last() =~= a + b.drop_last());
        assert((seen_a + seen_b).drop_last() =~= seen_a + seen_b.drop_last());
        assert((a + b).last() == b.last());
        assert((seen_a + seen_b).last() == seen_b.last());
        assert(still_running(a + b, seen_a + seen_b) =~= still_running(a, seen_a)
            + still_running(b, seen_b));
    }
}

/// Only asking the workers changes which ones remain.
pub proof fn law_only_polls_drop_workers(workers: Seq<usize>, event: WaitEvent)
    ensures
        !(event is Polled) ==> workers_after(workers, event) == workers,
        event matches WaitEvent::Polled(seen) ==> workers_after(workers, event) == still_running(
            workers,
            seen@,
        ),
{
}

/// What is seen answers what was asked for: the statuses of all workers that remain a poll, and
/// everything else the one action that looks for it. Nothing answers an end.
pub proof fn law_events_answer_their_actions(
    workers: Seq<usize>,
    action: WaitAction,
    event: WaitEvent,
)
    ensures
        event matches WaitEvent::Polled(seen) ==> (answers(workers, action, event) <==> action
            is PollWorkers && seen@.len() == workers.len()),
        event is Shutdown ==> (answers(workers, action, event) <==> action is CheckShutdown),
        event is FailFast ==> (answers(workers, action, event) <==> action is CheckFailFast),
        event is Clock ==> (answers(workers, action, event) <==> action is ReadClock),
        event is Slept ==> (answers(workers, action, event) <==> action is Sleep),
{
}

} // verus!

//! Cancelling a run: stopping the workers and reporting what was interrupted.
use crate::duration::Duration;
use crate::line::{self, join_report_line, label_padding};
use crate::name;
use crate::style::{self, apply, Paint};
use crate::text::{self, char_list, decimal_text};
use vstd::prelude::*;

verus! {

/// The test that a worker says it is executing.
#[derive(Debug)]
pub struct CurrentTest {
    pub name: String,
    /// When the test started, in milliseconds since the Unix epoch.
    pub start_unix_ms: u64,
}

/// What a worker was doing when the run was cancelled.
#[derive(Debug)]
pub struct InFlightTest {
    pub worker_id: usize,
    /// The test it was executing, if it was not between tests.
    pub name: Option<String>,
    pub elapsed: Duration,
}

/// A test that did not get to finish.
#[derive(Debug)]
pub struct InterruptedTest {
    pub name: String,
    pub duration: Duration,
}

/// A time in milliseconds since the Unix epoch, `since_epoch` being the milliseconds as the
/// system clock gives them: none where the clock is set before the epoch.
pub fn unix_ms(since_epoch: Option<u128>) -> (ms: u64)
    ensures
        ms == match since_epoch {
            Some(ms) => if ms <= u64::MAX {
                ms as int
            } else {
                u64::MAX as int
            },
            None => 0,
        },
{
    match since_epoch {
        Some(ms) => {
            if ms <= u64::MAX as u128 {
                ms as u64
            } else {
                u64::MAX
            }
        },
        None => 0,
    }
}

/// The milliseconds from `start_ms` to `now_ms`, none when the start is in the future.
pub open spec fn elapsed_ms(now_ms: u64, start_ms: u64) -> int {
    if now_ms >= start_ms {
        now_ms - start_ms
    } else {
        0
    }
}

/// The time that the test of a worker has been running for.
///
/// A start in the future, as a clock that was set back leaves it, counts as just now.
pub fn elapsed_since_start(now_ms: u64, start_ms: u64, worker_id: usize) -> (elapsed: Duration)
    ensures
        elapsed.is_normal(),
        elapsed.length() == elapsed_ms(now_ms, start_ms) * 1_000_000,
{
    if now_ms < start_ms {
        return Duration::zero();
    }
    Duration::from_millis(now_ms - start_ms)
}

/// What a worker was doing, told from the test that it says it is executing.
pub open spec fn describes(
    test: InFlightTest,
    now_ms: u64,
    worker: usize,
    current: Option<CurrentTest>,
) -> bool {
    &&& test.worker_id == worker
    &&& test.elapsed.is_normal()
    &&& match current {
        Some(current) => name::optional_text(test.name) == Some(current.name@)
            && test.elapsed.length() == elapsed_ms(now_ms, current.start_unix_ms) * 1_000_000,
        None => test.name is None && test.elapsed.length() == 0,
    }
}

/// What each of `workers` was doing, `currents` being the tests that they say they are
/// executing.
pub fn in_flight_tests(
    now_ms: u64,
    workers: &[usize],
    currents: &[Option<CurrentTest>],
) -> (tests: Vec<InFlightTest>)
    requires
        workers@.len() == currents@.len(),
    ensures
        tests@.len() == workers@.len(),
        forall|i: int|
            0 <= i < tests@.len() ==> describes(
                #[trigger] tests@[i],
                now_ms,
                workers@[i],
                currents@[i],
            ),
{
    let mut tests: Vec<InFlightTest> = Vec::new();
    let mut i: usize = 0;
    while i < workers.len()
        invariant
            i <= workers@.len(),
            workers@.len() == currents@.len(),
            tests@.len() == i,
            forall|k: int|
                0 <= k < i ==> describes(#[trigger] tests@[k], now_ms, workers@[k], currents@[k]),
        decreases workers@.len() - i,
    {
        let test = match &currents[i] {
            Some(current) => InFlightTest {
                worker_id: workers[i],
                name: Some(current.name.clone()),
                elapsed: elapsed_since_start(now_ms, current.start_unix_ms, workers[i]),
            },
            None => InFlightTest { worker_id: workers[i], name: None, elapsed: Duration::zero() },
        };
        assert(describes(test, now_ms, workers@[i as int], currents@[i as int]));
        tests.push(test);
        i += 1;
    }
    tests
}

/// The number of workers that were executing a test.
pub open spec fn running(tests: Seq<InFlightTest>) -> nat
    decreases tests.len(),
{
    if tests.len() == 0 {
        0
    } else {
        running(tests.drop_last()) + if tests.last().name is Some {
            1nat
        } else {
            0nat
        }
    }
}

/// Counts the workers that were executing a test.
pub fn running_tests(tests: &[InFlightTest]) -> (count: usize)
    ensures
        count == running(tests@),
{
    let mut count: usize = 0;
    let mut i: usize = 0;
    while i < tests.len()
        invariant
            i <= tests@.len(),
            count <= i,
            count == running(tests@.take(i as int)),
        decreases tests@.len() - i,
    {
        assert(tests@.take(i + 1).drop_last() =~= tests@.take(i as int));
        if tests[i].name.is_some() {
            count += 1;
        }
        i += 1;
    }
    assert(tests@.take(i as int) =~= tests@);
    count
}

/// The tests that did not get to finish, in the order of their workers.
pub open spec fn interrupted(tests: Seq<InFlightTest>) -> Seq<(Seq<char>, Duration)>
    decreases tests.len(),
{
    if tests.len() == 0 {
        Seq::empty()
    } else {
        match tests.last().name {
            Some(name) => interrupted(tests.drop_last()).push((name@, tests.last().elapsed)),
            None => interrupted(tests.drop_last()),
        }
    }
}

/// What a list of interrupted tests says.
pub open spec fn interruptions(tests: Seq<InterruptedTest>) -> Seq<(Seq<char>, Duration)> {
    Seq::new(tests.len(), |i: int| (tests[i].name@, tests[i].duration))
}

/// The tests that did not get to finish; workers between tests had none.
pub fn interrupted_tests(tests: &[InFlightTest]) -> (list: Vec<InterruptedTest>)
    ensures
        interruptions(list@) == interrupted(tests@),
{
    let mut list: Vec<InterruptedTest> = Vec::new();
    let mut i: usize = 0;
    assert(interruptions(list@) =~= interrupted(tests@.take(0)));
    while i < tests.len()
        invariant
            i <= tests@.len(),
            interruptions(list@) == interrupted(tests@.take(i as int)),
        decreases tests@.len() - i,
    {
        let ghost before = interruptions(list@);
        assert(tests@.take(i + 1).drop_last() =~= tests@.take(i as int));
        if let Some(name) = &tests[i].name {
            list.push(InterruptedTest { name: name.clone(), duration: tests[i].elapsed });
            assert(interruptions(list@) =~= before.push((name@, tests@[i as int].elapsed)));
        }
        i += 1;
    }
    assert(tests@.take(i as int) =~= tests@);
    list
}

/// Every running test is reported as interrupted, and nothing else is.
pub proof fn law_running_tests_are_interrupted(tests: Seq<InFlightTest>)
    ensures
        interrupted(tests).len() == running(tests),
        running(tests) <= tests.len(),
    decreases tests.len(),
{
    if tests.len() > 0 {
        law_running_tests_are_interrupted(tests.drop_last());
    }
}

/// What the orchestrator does to a worker process to stop it.
#[derive(Debug, Clone, Copy, PartialEq, Eq, Structural)]
pub enum StopCommand {
    /// Send the kill signal.
    Kill(usize),
    /// Wait until the process is gone.
    Reap(usize),
}

/// How to stop `workers`: every one gets the signal before the first is waited for.
pub open spec fn stop_order(workers: Seq<usize>) -> Seq<StopCommand> {
    Seq::new(workers.len(), |i: int| StopCommand::Kill(workers[i])) + Seq::new(
        workers.len(),
        |i: int| StopCommand::Reap(workers[i]),
    )
}

/// How to stop `workers`.
pub fn stop_commands(workers: &[usize]) -> (commands: Vec<StopCommand>)
    ensures
        commands@ == stop_order(workers@),
{
    let ghost kills = Seq::new(workers@.len(), |i: int| StopCommand::Kill(workers@[i]));
    let ghost reaps = Seq::new(workers@.len(), |i: int| StopCommand::Reap(workers@[i]));
    let mut commands: Vec<StopCommand> = Vec::new();
    let mut i: usize = 0;
    while i < workers.len()
        invariant
            i <= workers@.len(),
            kills == Seq::new(workers@.len(), |i: int| StopCommand::Kill(workers@[i])),
            commands@ == kills.take(i as int),
        decreases workers@.len() - i,
    {
        commands.push(StopCommand::Kill(workers[i]));
        i += 1;
        assert(commands@ =~= kills.take(i as int));
    }
    let mut j: usize = 0;
    while j < workers.len()
        invariant
            j <= workers@.len(),
            kills.len() == workers@.len(),
            reaps == Seq::new(workers@.len(), |i: int| StopCommand::Reap(workers@[i])),
            commands@ =~= kills + reaps.take(j as int),
        decreases workers@.len() - j,
    {
        commands.push(StopCommand::Reap(workers[j]));
        j += 1;
        assert(commands@ =~= kills + reaps.take(j as int));
    }
    assert(reaps.take(j as int) =~= reaps);
    commands
}

/// No worker is waited for before every worker has got the signal.
pub proof fn law_all_are_killed_before_any_is_reaped(workers: Seq<usize>, i: int, j: int)
    requires
        0 <= i < stop_order(workers).len(),
        0 <= j < stop_order(workers).len(),
        stop_order(workers)[i] is Kill,
        stop_order(workers)[j] is Reap,
    ensures
        i < j,
{
}

/// Every worker is killed and reaped.
pub proof fn law_every_worker_is_stopped(workers: Seq<usize>, worker: usize)
    requires
        workers.contains(worker),
    ensures
        stop_order(workers).contains(StopCommand::Kill(worker)),
        stop_order(workers).contains(StopCommand::Reap(worker)),
{
    let k = choose|k: int| 0 <= k < workers.len() && workers[k] == worker;
    assert(stop_order(workers)[k] == StopCommand::Kill(worker));
    assert(stop_order(workers)[workers.len() + k] == StopCommand::Reap(worker));
}

/// One step of a cancellation.
#[derive(Debug, Clone, Copy, PartialEq, Eq, Structural)]
pub enum CancelStep {
    /// Read which tests the workers are executing.
    ReadCurrentTests,
    /// Kill and reap the workers.
    StopWorkers,
    /// Let their output drain.
    Settle,
    /// Write the report.
    Report,
}

/// The steps of a cancellation: what the workers are doing is read before they are killed,
/// and nothing is written before their own output has drained. Without workers there is
/// nothing to do.
pub fn cancel_steps(workers: usize) -> (steps: Vec<CancelStep>)
    ensures
        steps@ == if workers == 0 {
            Seq::<CancelStep>::empty()
        } else {
            seq![
                CancelStep::ReadCurrentTests,
                CancelStep::StopWorkers,
                CancelStep::Settle,
                CancelStep::Report,
            ]
        },
{
    let mut steps: Vec<CancelStep> = Vec::new();
    if workers > 0 {
        steps.push(CancelStep::ReadCurrentTests);
        steps.push(CancelStep::StopWorkers);
        steps.push(CancelStep::Settle);
        steps.push(CancelStep::Report);
    }
    steps
}

/// `test` for one, `tests` otherwise.
pub open spec fn test_word(count: nat) -> Seq<char> {
    if count == 1 {
        "test"@
    } else {
        "tests"@
    }
}

/// The line that announces the cancellation.
pub open spec fn cancel_line(cancelling: Seq<char>, interrupt: Seq<char>, count: nat) -> Seq<char> {
    "  "@ + cancelling + " due to "@ + interrupt + ": "@ + text::decimal(count) + " "@ + test_word(
        count,
    ) + " still running\n"@
}

/// Joins the parts of the line that announces the cancellation.
pub fn join_cancel_line(cancelling: &str, interrupt: &str, count: usize) -> (line: String)
    ensures
        line@ == cancel_line(cancelling@, interrupt@, count as nat),
{
    let number = decimal_text(count as u64);
    let word = if count == 1 {
        "test"
    } else {
        "tests"
    };
    "  ".to_owned().concat(cancelling).concat(" due to ").concat(interrupt).concat(": ").concat(
        number.as_str(),
    ).concat(" ").concat(word).concat(" still running\n")
}

/// The line that announces the cancellation, `count` tests running.
pub fn cancel_banner(count: usize) -> (line: String)
    ensures
        is_cancel_line(count as nat, line@),
{
    let cancelling = apply(Paint::YellowBold, "Cancelling");
    let interrupt = apply(Paint::YellowBold, "interrupt");
    let line = join_cancel_line(cancelling.as_str(), interrupt.as_str(), count);
    proof {
        let a = cancelling@ == style::shade(true, Paint::YellowBold, "Cancelling"@);
        let b = interrupt@ == style::shade(true, Paint::YellowBold, "interrupt"@);
        assert(line@ == cancel_line(
            style::shade(a, Paint::YellowBold, "Cancelling"@),
            style::shade(b, Paint::YellowBold, "interrupt"@),
            count as nat,
        ));
    }
    line
}

/// `name` has a `::` at `i`.
pub open spec fn has_separator(name: Seq<char>, i: int) -> bool {
    0 <= i && i + 1 < name.len() && name[i] == ':' && name[i + 1] == ':'
}

/// The first `::` of `name` is at `i`.
pub open spec fn first_separator(name: Seq<char>, i: int) -> bool {
    has_separator(name, i) && forall|j: int| 0 <= j < i ==> !#[trigger] has_separator(name, j)
}

/// Which parts of an in-flight test are coloured.
pub struct InFlightColours {
    pub module: bool,
    pub rest: bool,
}

/// The name of a running test in colour: what stands before the first `::` as the module,
/// the rest as the function.
pub open spec fn in_flight_path(on: InFlightColours, name: Seq<char>) -> Seq<char> {
    if exists|i: int| first_separator(name, i) {
        let i = choose|i: int| first_separator(name, i);
        style::shade(on.module, Paint::Cyan, name.take(i)) + "::"@ + style::shade(
            on.rest,
            Paint::BlueBold,
            name.skip(i + 2),
        )
    } else {
        style::shade(on.rest, Paint::BlueBold, name)
    }
}

/// Where the first `::` of `name` is.
fn find_separator(name: &str) -> (place: Option<usize>)
    ensures
        match place {
            Some(i) => first_separator(name@, i as int),
            None => forall|i: int| !#[trigger] has_separator(name@, i),
        },
{
    let chars = char_list(name);
    let mut i: usize = 0;
    while i < chars.len()
        invariant
            i <= chars@.len(),
            chars@ == name@,
            forall|j: int| 0 <= j < i ==> !#[trigger] has_separator(name@, j),
        decreases chars@.len() - i,
    {
        if i + 1 < chars.len() && chars[i] == ':' && chars[i + 1] == ':' {
            assert(has_separator(name@, i as int));
            return Some(i);
        }
        i += 1;
    }
    None
}

/// Colours the name of a running test as the worker wrote it down.
pub fn format_in_flight_test(name: &str) -> (path: String)
    ensures
        exists|on: InFlightColours| path@ == #[trigger] in_flight_path(on, name@),
{
    match find_separator(name) {
        Some(i) => {
            let len: usize = name.unicode_len();
            let module = name.substring_char(0, i);
            let rest = name.substring_char(i + 2, len);
            let shown_module = apply(Paint::Cyan, module);
            let shown_rest = apply(Paint::BlueBold, rest);
            let path = shown_module.clone().concat("::").concat(shown_rest.as_str());
            proof {
                let k = choose|k: int| first_separator(name@, k);
                assert(k == i) by {
                    if k < i {
                        assert(has_separator(name@, k));
                    }
                    if i < k {
                        assert(has_separator(name@, i as int));
                    }
                }
                assert(module@ =~= name@.take(k));
                assert(rest@ =~= name@.skip(k + 2));
                let on = InFlightColours {
                    module: shown_module@ == style::shade(true, Paint::Cyan, module@),
                    rest: shown_rest@ == style::shade(true, Paint::BlueBold, rest@),
                };
                assert(path@ == in_flight_path(on, name@));
            }
            path
        },
        None => {
            let path = apply(Paint::BlueBold, name);
            proof {
                assert forall|i: int| !first_separator(name@, i) by {
                    assert(!has_separator(name@, i));
                }
                let on = InFlightColours {
                    module: false,
                    rest: path@ == style::shade(true, Paint::BlueBold, name@),
                };
                assert(path@ == in_flight_path(on, name@));
            }
            path
        },
    }
}

/// Without colours, a running test is shown under the very name that the worker wrote down.
pub proof fn law_plain_in_flight_test_is_the_name(name: Seq<char>)
    ensures
        in_flight_path((InFlightColours { module: false, rest: false }), name) == name,
{
    reveal_strlit("::");
    if exists|i: int| first_separator(name, i) {
        let i = choose|i: int| first_separator(name, i);
        assert(name.take(i) + "::"@ + name.skip(i + 2) =~= name);
    }
}

/// Which parts of a `SIGINT` line are coloured.
pub struct SigintColours {
    pub label: bool,
    pub test: InFlightColours,
}

/// What a `SIGINT` line says of a worker.
pub open spec fn sigint_subject(on: InFlightColours, test: InFlightTest) -> Seq<char> {
    match test.name {
        Some(name) => in_flight_path(on, name@),
        None => "worker "@ + text::decimal(test.worker_id as nat) + " (between tests)"@,
    }
}

/// The `SIGINT` line of a worker.
pub open spec fn sigint_text(
    on: SigintColours,
    test: InFlightTest,
    duration: Seq<char>,
) -> Seq<char> {
    line::report_line(
        line::padding("SIGINT"@.len()),
        style::shade(on.label, Paint::YellowBold, "SIGINT"@),
        duration,
        sigint_subject(on.test, test),
    ) + "\n"@
}

/// `line` is the `SIGINT` line of a worker, each part coloured or not.
pub open spec fn is_sigint_line(test: InFlightTest, duration: Seq<char>, line: Seq<char>) -> bool {
    exists|on: SigintColours| line == #[trigger] sigint_text(on, test, duration)
}

/// `line` announces that `count` tests are cancelled, each part coloured or not.
pub open spec fn is_cancel_line(count: nat, line: Seq<char>) -> bool {
    exists|a: bool, b: bool|
        line == #[trigger] cancel_line(
            style::shade(a, Paint::YellowBold, "Cancelling"@),
            style::shade(b, Paint::YellowBold, "interrupt"@),
            count,
        )
}

/// The `SIGINT` line of a worker, `duration` being the formatted time that its test took.
pub fn sigint_line(test: &InFlightTest, duration: &str) -> (line: String)
    ensures
        is_sigint_line(*test, duration@, line@),
{
    let padding = label_padding("SIGINT".unicode_len());
    let label = apply(Paint::YellowBold, "SIGINT");
    let subject = match &test.name {
        Some(name) => format_in_flight_test(name.as_str()),
        None => {
            let number = decimal_text(test.worker_id as u64);
            "worker ".to_owned().concat(number.as_str()).concat(" (between tests)")
        },
    };
    let line = join_report_line(padding.as_str(), label.as_str(), duration, subject.as_str());
    let ended = line.concat("\n");
    proof {
        let test_on = match &test.name {
            Some(name) => choose|on: InFlightColours|
                subject@ == #[trigger] in_flight_path(on, name@),
            None => InFlightColours { module: false, rest: false },
        };
        let on = SigintColours {
            label: label@ == style::shade(true, Paint::YellowBold, "SIGINT"@),
            test: test_on,
        };
        assert(subject@ == sigint_subject(test_on, *test));
        assert(ended@ == sigint_text(on, *test, duration@));
    }
    ended
}

/// The report of a cancelled run: the announcement, and one line for every worker.
/// `durations` are the formatted times that their tests took.
pub fn cancellation_report(tests: &[InFlightTest], durations: &[String]) -> (lines: Vec<String>)
    requires
        durations@.len() == tests@.len(),
    ensures
        lines@.len() == tests@.len() + 1,
        is_cancel_line(running(tests@), lines@[0]@),
        forall|i: int|
            0 <= i < tests@.len() ==> is_sigint_line(
                #[trigger] tests@[i],
                durations@[i]@,
                lines@[i + 1]@,
            ),
{
    let mut lines: Vec<String> = Vec::new();
    lines.push(cancel_banner(running_tests(tests)));
    let mut i: usize = 0;
    while i < tests.len()
        invariant
            i <= tests@.len(),
            durations@.len() == tests@.len(),
            lines@.len() == i + 1,
            is_cancel_line(running(tests@), lines@[0]@),
            forall|k: int|
                0 <= k < i ==> is_sigint_line(
                    #[trigger] tests@[k],
                    durations@[k]@,
                    lines@[k + 1]@,
                ),
        decreases tests@.len() - i,
    {
        lines.push(sigint_line(&tests[i], durations[i].as_str()));
        i += 1;
    }
    lines
}

/// The time that a test has been running for leads from its start to now, and a start in the
/// future counts as now.
pub proof fn law_elapsed_time_leads_to_now(now_ms: u64, start_ms: u64)
    ensures
        start_ms <= now_ms ==> start_ms + elapsed_ms(now_ms, start_ms) == now_ms,
        start_ms > now_ms ==> elapsed_ms(now_ms, start_ms) == 0,
{
}

/// What is told of a worker: its id, the test that it says it is executing, and the time since
/// that test started; of a worker between tests no name and no time.
pub proof fn law_workers_are_told_as_they_are(
    test: InFlightTest,
    now_ms: u64,
    worker: usize,
    current: Option<CurrentTest>,
)
    requires
        describes(test, now_ms, worker, current),
    ensures
        test.worker_id == worker,
        test.elapsed.nanos < 1_000_000_000,
        current is None ==> test.name is None && test.elapsed.secs == 0 && test.elapsed.nanos == 0,
        current matches Some(current) ==> ({
            &&& test.name matches Some(name) && name@ == current.name@
            &&& current.start_unix_ms <= now_ms ==> test.elapsed.secs * 1_000_000_000
                + test.elapsed.nanos == (now_ms - current.start_unix_ms) * 1_000_000
            &&& current.start_unix_ms > now_ms ==> test.elapsed.secs == 0 && test.elapsed.nanos
                == 0
        }),
{
}

/// Every worker that was executing a test counts as one, and its test is interrupted with the
/// time it took, in the order of the workers; the others do not count and leave nothing.
pub proof fn law_interruptions_keep_the_order_of_workers(
    a: Seq<InFlightTest>,
    b: Seq<InFlightTest>,
    test: InFlightTest,
)
    ensures
        running(a + b) == running(a) + running(b),
        interrupted(a + b) == interrupted(a) + interrupted(b),
        running(seq![test]) == if test.name is Some {
            1nat
        } else {
            0
        },
        interrupted(seq![test]) == match test.name {
            Some(name) => seq![(name@, test.elapsed)],
            None => Seq::empty(),
        },
    decreases b.len(),
{
    let one = seq![test];
    assert(one.drop_last() =~= Seq::empty());
    assert(running(one.drop_last()) == 0);
    assert(interrupted(one.drop_last()) =~= Seq::<(Seq<char>, Duration)>::empty());
    assert(interrupted(one) =~= match test.name {
        Some(name) => seq![(name@, test.elapsed)],
        None => Seq::empty(),
    });
    if b.len() == 0 {
        assert(a + b =~= a);
        assert(interrupted(a) + Seq::empty() =~= interrupted(a));
    } else {
        law_interruptions_keep_the_order_of_workers(a, b.drop_last(), test);
        assert((a + b).drop_last() =~= a + b.drop_last());
        assert((a + b).last() == b.last());
        assert(interrupted(a + b) =~= interrupted(a) + interrupted(b));
    }
}

/// What a list of interrupted tests says is what its tests say, in order.
pub proof fn law_interruptions_say_what_the_tests_say(tests: Seq<InterruptedTest>, i: int)
    ensures
        interruptions(tests).len() == tests.len(),
        0 <= i < tests.len() ==> interruptions(tests)[i] == (tests[i].name@, tests[i].duration),
{
}

/// Workers are killed in order and then reaped in order, each once.
pub proof fn law_workers_are_stopped_in_order(workers: Seq<usize>, i: int)
    requires
        0 <= i < workers.len(),
    ensures
        stop_order(workers).len() == 2 * workers.len(),
        stop_order(workers)[i] == StopCommand::Kill(workers[i]),
        stop_order(workers)[workers.len() + i] == StopCommand::Reap(workers[i]),
{
}

/// The singular is for one test only.
pub proof fn law_one_test_is_singular(count: nat)
    ensures
        test_word(count) == "test"@ <==> count == 1,
        test_word(count) == "tests"@ <==> count != 1,
{
    reveal_strlit("test");
    reveal_strlit("tests");
    assert("test"@.len() + 1 == "tests"@.len());
}

/// The announcement of a cancellation names the cause and how many tests were running.
pub proof fn law_announcements_are_spelled_out(
    cancelling: Seq<char>,
    interrupt: Seq<char>,
    count: nat,
)
    ensures
        cancel_line(cancelling, interrupt, count) == seq![' ', ' '] + cancelling + " due to "@
            + interrupt + seq![':', ' '] + text::decimal(count) + (if count == 1 {
            " test still running\n"@
        } else {
            " tests still running\n"@
        }),
{
    reveal_strlit("  ");
    reveal_strlit(": ");
    reveal_strlit(" ");
    reveal_strlit("test");
    reveal_strlit("tests");
    reveal_strlit(" still running\n");
    reveal_strlit(" test still running\n");
    reveal_strlit(" tests still running\n");
    assert("  "@ =~= seq![' ', ' ']);
    assert(": "@ =~= seq![':', ' ']);
    assert(" "@ + test_word(count) + " still running\n"@ =~= if count == 1 {
        " test still running\n"@
    } else {
        " tests still running\n"@
    });
    let head = seq![' ', ' '] + cancelling + " due to "@ + interrupt + seq![':', ' ']
        + text::decimal(count);
    assert(head + " "@ + test_word(count) + " still running\n"@ =~= head + (" "@ + test_word(count)
        + " still running\n"@));
}

/// An announcement has nothing coloured but the two words, which are bold yellow.
pub proof fn law_announcements_colour_two_words(count: nat, line: Seq<char>)
    ensures
        ({
            let cancelling = style::shade(true, Paint::YellowBold, "Cancelling"@);
            let interrupt = style::shade(true, Paint::YellowBold, "interrupt"@);
            is_cancel_line(count, line) <==> {
                ||| line == cancel_line("Cancelling"@, "interrupt"@, count)
                ||| line == cancel_line(cancelling, "interrupt"@, count)
                ||| line == cancel_line("Cancelling"@, interrupt, count)
                ||| line == cancel_line(cancelling, interrupt, count)
            }
        }),
{
    assert(style::shade(false, Paint::YellowBold, "Cancelling"@) == "Cancelling"@);
    assert(style::shade(false, Paint::YellowBold, "interrupt"@) == "interrupt"@);
}

/// The name of a running test is split at its first `::`, the part before it in the look of a
/// module and the part behind it in that of a function; a name without one is a function.
pub proof fn law_names_are_split_at_the_first_separator(
    on: InFlightColours,
    name: Seq<char>,
    i: int,
)
    requires
        0 <= i <= name.len(),
        forall|j: int|
            0 <= j < i && j + 1 < name.len() ==> !(#[trigger] name[j] == ':' && name[j + 1] == ':'),
        i < name.len() ==> i + 1 < name.len() && name[i] == ':' && name[i + 1] == ':',
    ensures
        in_flight_path(on, name) == if i < name.len() {
            style::shade(on.module, Paint::Cyan, name.take(i)) + seq![':', ':'] + style::shade(
                on.rest,
                Paint::BlueBold,
                name.skip(i + 2),
            )
        } else {
            style::shade(on.rest, Paint::BlueBold, name)
        },
{
    reveal_strlit("::");
    assert("::"@ =~= seq![':', ':']);
    assert forall|j: int| 0 <= j < i implies !#[trigger] has_separator(name, j) by {
        assert(j + 1 < name.len() ==> !(name[j] == ':' && name[j + 1] == ':'));
    }
    if i < name.len() {
        assert(has_separator(name, i));
        assert(first_separator(name, i));
        let k = choose|k: int| first_separator(name, k);
        assert(k == i) by {
            if k < i {
                assert(has_separator(name, k));
            }
            if i < k {
                assert(!has_separator(name, i));
            }
        }
    } else {
        assert forall|k: int| !first_separator(name, k) by {
            if has_separator(name, k) {
                assert(0 <= k < i);
            }
        }
    }
}

/// Without colours, a `SIGINT` line is the label in its column, the time, and the name of the
/// test or the id of the worker that had none.
pub proof fn law_plain_sigint_lines_are_spelled_out(test: InFlightTest, duration: Seq<char>)
    ensures
        sigint_text(
            (SigintColours { label: false, test: InFlightColours { module: false, rest: false } }),
            test,
            duration,
        ) == "      SIGINT "@ + duration + seq![' '] + (match test.name {
            Some(name) => name@,
            None => "worker "@ + text::decimal(test.worker_id as nat) + " (between tests)"@,
        }) + seq!['\n'],
{
    reveal_strlit("      SIGINT ");
    reveal_strlit("SIGINT");
    reveal_strlit(" ");
    reveal_strlit("\n");
    if let Some(name) = test.name {
        law_plain_in_flight_test_is_the_name(name@);
    }
    assert(" "@ =~= seq![' ']);
    assert("\n"@ =~= seq!['\n']);
    assert(line::padding("SIGINT"@.len()) + "SIGINT"@ + " "@ =~= "      SIGINT "@);
}

/// In colour, the label of a `SIGINT` line is bold yellow, the name of a test has the looks of
/// its parts, and the id of a worker is never coloured.
pub proof fn law_sigint_lines_colour_label_and_test(
    on: SigintColours,
    test: InFlightTest,
    duration: Seq<char>,
)
    ensures
        sigint_text(on, test, duration) == "      "@ + style::shade(
            on.label,
            Paint::YellowBold,
            "SIGINT"@,
        ) + seq![' '] + duration + seq![' '] + (match test.name {
            Some(name) => in_flight_path(on.test, name@),
            None => "worker "@ + text::decimal(test.worker_id as nat) + " (between tests)"@,
        }) + seq!['\n'],
{
    reveal_strlit("      ");
    reveal_strlit("SIGINT");
    reveal_strlit(" ");
    reveal_strlit("\n");
    assert(" "@ =~= seq![' ']);
    assert("\n"@ =~= seq!['\n']);
    assert(line::padding("SIGINT"@.len()) =~= "      "@);
}

} // verus!

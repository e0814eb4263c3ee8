//! Planning a run: how many workers, which steps, and what is read from the cache.
use crate::duration::Duration;
use crate::line::{self, label_padding};
use crate::runner::cancel;
use crate::style::{self, apply, Paint};
use crate::text::{self, decimal_text};
use vstd::hash_set::StringHashSet;
use vstd::prelude::*;

verus! {

/// The number of tests below which a further worker is not worth starting.
pub const MIN_TESTS_PER_WORKER: usize = 5;

/// How long to sleep between two looks at the workers, in milliseconds.
pub const WORKER_POLL_INTERVAL_MS: u64 = 10;

/// How long to let output drain after the workers are gone, in milliseconds.
pub const STDOUT_SETTLE_MS: u64 = 50;

/// The profile that is active when none is named.
pub const DEFAULT_PROFILE: &'static str = "default";

/// How the tests of a run are ordered before they are split up.
#[derive(Debug, Clone, Copy, PartialEq, Eq, Structural)]
pub enum TestOrdering {
    /// Tests without duration history are shuffled.
    Shuffled,
    /// The same input gives the same order.
    Stable,
}

/// One slice of the collected tests: the `index`th of `total`.
#[derive(Debug, Clone, Copy, PartialEq, Eq, Structural)]
pub struct PartitionSelection {
    pub index: usize,
    pub total: usize,
}

/// What a run is asked to do.
#[derive(Debug)]
pub struct ParallelTestConfig {
    pub num_workers: usize,
    pub no_cache: bool,
    /// Whether to install a Ctrl+C handler that stops the workers gracefully.
    pub create_ctrlc_handler: bool,
    /// Whether only tests that failed in the previous run are executed.
    pub last_failed: bool,
    /// The active profile, if one is named.
    pub profile: Option<String>,
    /// The slice of the collected tests to run, if not all of them.
    pub partition: Option<PartitionSelection>,
    pub test_ordering: TestOrdering,
}

/// The number of workers that `total_tests` keep busy.
pub open spec fn useful_workers(total_tests: nat) -> nat {
    if total_tests <= MIN_TESTS_PER_WORKER {
        1
    } else {
        ((total_tests + MIN_TESTS_PER_WORKER - 1) / MIN_TESTS_PER_WORKER as int) as nat
    }
}

/// The number of workers to start: those asked for, but no more than the tests keep busy.
pub fn worker_count(requested: usize, total_tests: usize) -> (workers: usize)
    ensures
        workers == if requested <= useful_workers(total_tests as nat) {
            requested as nat
        } else {
            useful_workers(total_tests as nat)
        },
{
    let whole: usize = total_tests / MIN_TESTS_PER_WORKER;
    let useful: usize = if total_tests <= MIN_TESTS_PER_WORKER {
        1
    } else if total_tests % MIN_TESTS_PER_WORKER > 0 {
        whole + 1
    } else {
        whole
    };
    if requested <= useful {
        requested
    } else {
        useful
    }
}

/// Every worker has something to do: with one worker less, each would have more than the
/// tests that make a worker worth starting.
pub proof fn law_workers_are_not_idle(requested: nat, total_tests: nat, workers: nat)
    requires
        workers == if requested <= useful_workers(total_tests) {
            requested
        } else {
            useful_workers(total_tests)
        },
    ensures
        workers <= requested,
        workers > 1 ==> (workers - 1) * MIN_TESTS_PER_WORKER < total_tests,
        workers < requested ==> workers * MIN_TESTS_PER_WORKER >= total_tests,
{
}

/// The line that announces the start of a run.
pub open spec fn start_text(
    label: Seq<char>,
    tests: Seq<char>,
    test_word: Seq<char>,
    workers: Seq<char>,
    worker_word: Seq<char>,
) -> Seq<char> {
    label + " "@ + tests + " "@ + test_word + " across "@ + workers + " "@ + worker_word + "\n"@
}

/// `worker` for one, `workers` otherwise.
pub open spec fn worker_word(count: nat) -> Seq<char> {
    if count == 1 {
        "worker"@
    } else {
        "workers"@
    }
}

/// Which parts of the start line are coloured.
pub struct StartColours {
    pub label: bool,
    pub tests: bool,
    pub workers: bool,
}

/// The line that announces `total_tests` across `workers`.
pub open spec fn start_line_text(on: StartColours, total_tests: nat, workers: nat) -> Seq<char> {
    start_text(
        style::shade(
            on.label,
            Paint::GreenBold,
            line::padding("Starting"@.len()) + "Starting"@,
        ),
        style::shade(on.tests, Paint::Bold, text::decimal(total_tests)),
        cancel::test_word(total_tests),
        style::shade(on.workers, Paint::Bold, text::decimal(workers)),
        worker_word(workers),
    )
}

/// Joins the parts of the line that announces the start of a run.
pub fn join_start_line(
    label: &str,
    tests: &str,
    test_word: &str,
    workers: &str,
    worker_word: &str,
) -> (line: String)
    ensures
        line@ == start_text(label@, tests@, test_word@, workers@, worker_word@),
{
    label.to_owned().concat(" ").concat(tests).concat(" ").concat(test_word).concat(
        " across ",
    ).concat(workers).concat(" ").concat(worker_word).concat("\n")
}

/// The line that announces the start of a run; there is none when there are no tests.
pub fn start_line(total_tests: usize, workers: usize) -> (line: Option<String>)
    ensures
        match line {
            Some(line) => total_tests > 0 && exists|on: StartColours|
                line@ == #[trigger] start_line_text(on, total_tests as nat, workers as nat),
            None => total_tests == 0,
        },
{
    if total_tests == 0 {
        return None;
    }
    let padded = label_padding("Starting".unicode_len()).concat("Starting");
    let label = apply(Paint::GreenBold, padded.as_str());
    let test_word = if total_tests == 1 {
        "test"
    } else {
        "tests"
    };
    let worker_word = if workers == 1 {
        "worker"
    } else {
        "workers"
    };
    let tests_text = decimal_text(total_tests as u64);
    let workers_text = decimal_text(workers as u64);
    let tests = apply(Paint::Bold, tests_text.as_str());
    let workers_bold = apply(Paint::Bold, workers_text.as_str());
    let line = join_start_line(
        label.as_str(),
        tests.as_str(),
        test_word,
        workers_bold.as_str(),
        worker_word,
    );
    proof {
        let on = StartColours {
            label: label@ == style::shade(true, Paint::GreenBold, padded@),
            tests: tests@ == style::shade(true, Paint::Bold, tests_text@),
            workers: workers_bold@ == style::shade(true, Paint::Bold, workers_text@),
        };
        assert(line@ == start_line_text(on, total_tests as nat, workers as nat));
    }
    Some(line)
}

/// The profile that the workers run under.
pub fn active_profile(profile: &Option<String>) -> (active: String)
    ensures
        active@ == match *profile {
            Some(profile) => profile@,
            None => DEFAULT_PROFILE@,
        },
{
    match profile {
        Some(profile) => profile.clone(),
        None => DEFAULT_PROFILE.to_owned(),
    }
}

/// The places in a list of partition sizes that hold tests.
pub open spec fn nonempty(sizes: Seq<usize>) -> Seq<usize>
    decreases sizes.len(),
{
    if sizes.len() == 0 {
        Seq::empty()
    } else if sizes.last() > 0 {
        nonempty(sizes.drop_last()).push((sizes.len() - 1) as usize)
    } else {
        nonempty(sizes.drop_last())
    }
}

/// The ids of the workers to spawn: one for every partition that holds tests.
pub fn workers_to_spawn(sizes: &[usize]) -> (ids: Vec<usize>)
    ensures
        ids@ == nonempty(sizes@),
{
    let mut ids: Vec<usize> = Vec::new();
    let mut i: usize = 0;
    assert(ids@ =~= nonempty(sizes@.take(0)));
    while i < sizes.len()
        invariant
            i <= sizes@.len(),
            ids@ == nonempty(sizes@.take(i as int)),
        decreases sizes@.len() - i,
    {
        assert(sizes@.take(i + 1).drop_last() =~= sizes@.take(i as int));
        if sizes[i] > 0 {
            ids.push(i);
        }
        i += 1;
    }
    assert(sizes@.take(i as int) =~= sizes@);
    ids
}

/// A worker is spawned for a partition exactly when the partition holds tests.
pub proof fn law_empty_partitions_get_no_worker(sizes: Seq<usize>, id: usize)
    requires
        sizes.len() <= usize::MAX,
    ensures
        nonempty(sizes).contains(id) <==> id < sizes.len() && sizes[id as int] > 0,
    decreases sizes.len(),
{
    if sizes.len() > 0 {
        let rest = sizes.drop_last();
        law_empty_partitions_get_no_worker(rest, id);
        let all = nonempty(sizes);
        let some = nonempty(rest);
        if some.contains(id) {
            let k = choose|k: int| 0 <= k < some.len() && some[k] == id;
            assert(all[k] == id);
        }
        if sizes.last() > 0 && id == sizes.len() - 1 {
            assert(all[all.len() - 1] == id);
        }
    }
}

/// The test paths of a project, or the first error among them.
pub fn collect_paths<T, E>(paths: Vec<Result<T, E>>) -> (collected: Result<Vec<T>, E>)
    ensures
        match collected {
            Ok(collected) => {
                &&& collected@.len() == paths@.len()
                &&& forall|i: int|
                    0 <= i < paths@.len() ==> #[trigger] paths@[i] == Ok::<T, E>(collected@[i])
            },
            Err(err) => exists|i: int|
                0 <= i < paths@.len() && #[trigger] paths@[i] == Err::<T, E>(err) && forall|j: int|
                    0 <= j < i ==> (#[trigger] paths@[j]) is Ok,
        },
{
    let ghost all = paths@;
    let mut collected: Vec<T> = Vec::new();
    for path in it: paths.into_iter()
        invariant
            it.seq() == all,
            collected@.len() == it.index(),
            forall|i: int|
                0 <= i < it.index() ==> #[trigger] all[i] == Ok::<T, E>(collected@[i]),
    {
        match path {
            Ok(path) => collected.push(path),
            Err(err) => return Err(err),
        }
    }
    Ok(collected)
}

/// How long a test took in an earlier run.
#[derive(Debug)]
pub struct RecordedDuration {
    pub name: String,
    pub duration: Duration,
}

/// The durations that guide the partitioning: none when the cache is not to be used or
/// cannot be read.
pub fn previous_durations(
    no_cache: bool,
    read: Result<Vec<RecordedDuration>, String>,
) -> (durations: Vec<RecordedDuration>)
    ensures
        match read {
            Ok(read) if !no_cache => durations@ == read@,
            _ => durations@.len() == 0,
        },
{
    match read {
        Ok(read) if !no_cache => read,
        _ => Vec::new(),
    }
}

/// The tests that a run is restricted to: none when that is not asked for or when the
/// cache cannot be read.
pub fn last_failed_set(enabled: bool, read: Result<Vec<String>, String>) -> (set: StringHashSet)
    ensures
        match read {
            Ok(read) if enabled => set@ == text::texts(read@).to_set(),
            _ => set@ == Set::<Seq<char>>::empty(),
        },
{
    let mut set = StringHashSet::new();
    match read {
        Ok(read) if enabled => {
            let ghost names = text::texts(read@);
            let mut i: usize = 0;
            assert(set@ =~= names.take(0).to_set());
            while i < read.len()
                invariant
                    i <= read@.len(),
                    names == text::texts(read@),
                    set@ == names.take(i as int).to_set(),
                decreases read@.len() - i,
            {
                set.insert(read[i].clone());
                proof {
                    let before = names.take(i as int);
                    let after = names.take(i + 1);
                    assert(after =~= before.push(names[i as int]));
                    assert forall|n: Seq<char>| after.contains(n) <==> before.contains(n) || n
                        == names[i as int] by {
                        if before.contains(n) {
                            let k = choose|k: int| 0 <= k < before.len() && before[k] == n;
                            assert(after[k] == n);
                        }
                        if n == names[i as int] {
                            assert(after[i as int] == n);
                        }
                    }
                    assert(set@ =~= after.to_set());
                }
                i += 1;
            }
            assert(names.take(i as int) =~= names);
        },
        _ => {},
    }
    set
}

/// The workers that tests keep busy are at least one, enough of them for five tests each, and no
/// more than that takes.
pub proof fn law_five_tests_keep_a_worker_busy(total_tests: nat)
    ensures
        useful_workers(total_tests) >= 1,
        useful_workers(total_tests) * 5 >= total_tests,
        useful_workers(total_tests) > 1 ==> (useful_workers(total_tests) - 1) * 5 < total_tests,
{
}

/// The workers to spawn are in the order of their partitions, none of them twice.
pub proof fn law_workers_are_spawned_in_order(sizes: Seq<usize>, i: int, j: int)
    requires
        sizes.len() <= usize::MAX,
        0 <= i < j < nonempty(sizes).len(),
    ensures
        nonempty(sizes)[i] < nonempty(sizes)[j] < sizes.len(),
    decreases sizes.len(),
{
    let rest = sizes.drop_last();
    let some = nonempty(rest);
    if j < some.len() {
        law_workers_are_spawned_in_order(rest, i, j);
    } else {
        law_empty_partitions_get_no_worker(rest, some[i]);
        assert(some.contains(some[i]));
    }
}

/// Without colours, the line that announces a run says how many tests there are and how many
/// workers, each in the singular for one.
pub proof fn law_plain_start_lines_are_spelled_out(total_tests: nat, workers: nat)
    ensures
        start_line_text(
            (StartColours { label: false, tests: false, workers: false }),
            total_tests,
            workers,
        ) == "    Starting "@ + text::decimal(total_tests) + (if total_tests == 1 {
            " test across "@
        } else {
            " tests across "@
        }) + text::decimal(workers) + (if workers == 1 {
            " worker\n"@
        } else {
            " workers\n"@
        }),
{
    reveal_strlit("    Starting ");
    reveal_strlit("Starting");
    reveal_strlit(" ");
    reveal_strlit("test");
    reveal_strlit("tests");
    reveal_strlit(" across ");
    reveal_strlit(" test across ");
    reveal_strlit(" tests across ");
    reveal_strlit("worker");
    reveal_strlit("workers");
    reveal_strlit("\n");
    reveal_strlit(" worker\n");
    reveal_strlit(" workers\n");
    assert(line::padding(8) + "Starting"@ + " "@ =~= "    Starting "@);
    assert(" "@ + cancel::test_word(total_tests) + " across "@ =~= if total_tests == 1 {
        " test across "@
    } else {
        " tests across "@
    });
    assert(" "@ + worker_word(workers) + "\n"@ =~= if workers == 1 {
        " worker\n"@
    } else {
        " workers\n"@
    });
    let n = text::decimal(total_tests);
    let m = text::decimal(workers);
    let label = line::padding(8) + "Starting"@;
    assert(start_text(label, n, cancel::test_word(total_tests), m, worker_word(workers)) =~= (label
        + " "@) + n + (" "@ + cancel::test_word(total_tests) + " across "@) + m + (" "@
        + worker_word(workers) + "\n"@));
}

/// In colour, the label of the line that announces a run is bold green and both numbers are
/// bold; the words between them are never coloured.
pub proof fn law_start_lines_colour_label_and_numbers(
    on: StartColours,
    total_tests: nat,
    workers: nat,
)
    ensures
        start_line_text(on, total_tests, workers) == style::shade(
            on.label,
            Paint::GreenBold,
            "    Starting"@,
        ) + seq![' '] + style::shade(on.tests, Paint::Bold, text::decimal(total_tests)) + seq![' ']
            + cancel::test_word(total_tests) + " across "@ + style::shade(
            on.workers,
            Paint::Bold,
            text::decimal(workers),
        ) + seq![' '] + worker_word(workers) + seq!['\n'],
{
    reveal_strlit("    Starting");
    reveal_strlit("Starting");
    reveal_strlit(" ");
    reveal_strlit("\n");
    assert(" "@ =~= seq![' ']);
    assert("\n"@ =~= seq!['\n']);
    assert(line::padding("Starting"@.len()) + "Starting"@ =~= "    Starting"@);
}

/// The singular is for one worker only.
pub proof fn law_one_worker_is_singular(count: nat)
    ensures
        worker_word(count) == "worker"@ <==> count == 1,
        worker_word(count) == "workers"@ <==> count != 1,
{
    reveal_strlit("worker");
    reveal_strlit("workers");
    assert("worker"@.len() + 1 == "workers"@.len());
}

} // verus!

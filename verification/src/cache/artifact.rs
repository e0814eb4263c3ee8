//! The files of the cache.
//!
//! The cache has three levels (its root, a directory per run, a directory per
//! worker) and a small fixed set of files at each level.
use crate::text::{self, decimal_text};
use camino::Utf8Path;
use vstd::prelude::*;

verus! {

/// The directory of the cache, relative to the project root.
pub const CACHE_DIR: &'static str = ".karva_cache";

/// What the names of the directories of runs begin with.
pub const RUN_PREFIX: &'static str = "run-";

/// What the names of the directories of workers begin with.
pub const WORKER_PREFIX: &'static str = "worker-";

/// The name of the directory of a worker.
pub open spec fn worker_dir(worker_id: nat) -> Seq<char> {
    WORKER_PREFIX@ + text::decimal(worker_id)
}

/// The name of the directory of a worker within the directory of a run.
pub fn worker_folder(worker_id: usize) -> (folder: String)
    ensures
        folder@ == worker_dir(worker_id as nat),
{
    let number = decimal_text(worker_id as u64);
    WORKER_PREFIX.to_owned().concat(number.as_str())
}

/// Every worker has a directory of its own.
pub proof fn law_workers_do_not_share_directories(a: nat, b: nat)
    requires
        worker_dir(a) == worker_dir(b),
    ensures
        a == b,
{
    let n = WORKER_PREFIX@.len() as int;
    assert(worker_dir(a).skip(n) =~= text::decimal(a));
    assert(worker_dir(b).skip(n) =~= text::decimal(b));
    text::lemma_decimal_injective(a, b);
}

/// One of the well-known files of the cache.
#[derive(Debug, Clone, Copy, PartialEq, Eq, Structural)]
pub enum CacheFile {
    /// Per-worker JSON: aggregated statistics.
    Stats,
    /// Per-worker text: rendered diagnostics.
    Diagnostics,
    /// Per-worker JSON: map of test id to wall-clock duration.
    Durations,
    /// Per-worker JSON: list of failed test names.
    FailedTests,
    /// Per-worker JSON: list of flaky tests.
    FlakyTests,
    /// Per-worker JSON: line-coverage data.
    Coverage,
    /// Per-run empty sentinel marking that fail-fast was triggered.
    FailFastSignal,
    /// Cache-root JSON: list of last-run failed test names.
    LastFailed,
    /// Per-worker JSON: name and start time of the test currently executing.
    CurrentTest,
    /// Cache-root JSON: quarantined tests and their detection reasons.
    Quarantine,
    /// Cache-root JSON: per-test outcome history across runs.
    TestHistory,
    /// Per-worker JSON: list of final test outcomes.
    Outcomes,
    /// Per-worker JSON: list of quarantined failures of this run.
    QuarantinedFailures,
}

impl CacheFile {
    /// The name of a file.
    pub open spec fn title(self) -> Seq<char> {
        match self {
            CacheFile::Stats => "stats.json"@,
            CacheFile::Diagnostics => "diagnostics.txt"@,
            CacheFile::Durations => "durations.json"@,
            CacheFile::FailedTests => "failed_tests.json"@,
            CacheFile::FlakyTests => "flaky_tests.json"@,
            CacheFile::Coverage => "coverage.json"@,
            CacheFile::FailFastSignal => "fail-fast"@,
            CacheFile::LastFailed => "last-failed.json"@,
            CacheFile::CurrentTest => "current_test.json"@,
            CacheFile::Quarantine => "quarantine.json"@,
            CacheFile::TestHistory => "test-history.json"@,
            CacheFile::Outcomes => "outcomes.json"@,
            CacheFile::QuarantinedFailures => "quarantined_failures.json"@,
        }
    }

    /// The name of this file.
    pub fn filename(self) -> (name: &'static str)
        ensures
            name@ == self.title(),
    {
        match self {
            CacheFile::Stats => "stats.json",
            CacheFile::Diagnostics => "diagnostics.txt",
            CacheFile::Durations => "durations.json",
            CacheFile::FailedTests => "failed_tests.json",
            CacheFile::FlakyTests => "flaky_tests.json",
            CacheFile::Coverage => "coverage.json",
            CacheFile::FailFastSignal => "fail-fast",
            CacheFile::LastFailed => "last-failed.json",
            CacheFile::CurrentTest => "current_test.json",
            CacheFile::Quarantine => "quarantine.json",
            CacheFile::TestHistory => "test-history.json",
            CacheFile::Outcomes => "outcomes.json",
            CacheFile::QuarantinedFailures => "quarantined_failures.json",
        }
    }

    /// The path of this file in the directory `dir`.
    pub fn path_in(self, dir: &str) -> (path: String)
        ensures
            is_path_in(dir@, self.title(), path@),
    {
        proof {
            lemma_titles_name_entries(self);
        }
        join(dir, self.filename()).0
    }
}

/// `c` separates the components of a path, on some systems at least.
pub open spec fn is_separator(c: char) -> bool {
    c == '/' || c == '\\'
}

/// `name` names one entry of a directory: no separator, no drive, and neither the directory
/// itself nor the one above it.
pub open spec fn is_entry_name(name: Seq<char>) -> bool {
    &&& name.len() > 0
    &&& name != seq!['.']
    &&& name != seq!['.', '.']
    &&& forall|i: int|
        0 <= i < name.len() ==> !is_separator(#[trigger] name[i]) && name[i] != ':'
}

/// `path` begins with two separators, as the paths of network shares and devices do.
pub open spec fn is_network_path(path: Seq<char>) -> bool {
    path.len() >= 2 && is_separator(path[0]) && is_separator(path[1])
}

/// `dir` begins with `\\?\`: a path that some systems take apart and put together anew.
pub open spec fn is_verbatim(dir: Seq<char>) -> bool {
    seq!['\\', '\\', '?', '\\'].is_prefix_of(dir)
}

/// `path` is the path of the entry `name` in the directory `dir`.
///
/// It ends in the name. The name stands behind the directory and a separator, right behind
/// a directory that is empty or ends with `/`, and may stand right behind one that ends with
/// a backslash or a drive. How a verbatim directory is written in front of the name is left
/// open.
pub open spec fn is_path_in(dir: Seq<char>, name: Seq<char>, path: Seq<char>) -> bool {
    &&& name.is_suffix_of(path)
    &&& !is_verbatim(dir) ==> if dir.len() == 0 || dir.last() == '/' {
        path == dir + name
    } else {
        ||| path == dir + seq!['/'] + name
        ||| path == dir + seq!['\\'] + name
        ||| (dir.last() == '\\' || dir.last() == ':') && path == dir + name
    }
}

/// `dir` has a last component other than a lone dot behind a separator, is written without
/// a trailing separator or drive, and is no network path.
pub open spec fn is_tidy(dir: Seq<char>) -> bool {
    &&& dir.len() > 0
    &&& !is_separator(dir.last())
    &&& dir.last() != ':'
    &&& dir.len() > 1 && dir.last() == '.' ==> !is_separator(dir[dir.len() - 2])
    &&& !is_network_path(dir)
}

/// `dir` without the slashes, and the lone dots behind slashes, that it ends with; the root
/// keeps its slash.
pub open spec fn trimmed(dir: Seq<char>) -> Seq<char>
    decreases dir.len(),
{
    if dir.len() > 1 && (dir.last() == '/' || (dir.last() == '.' && dir[dir.len() - 2] == '/')) {
        trimmed(dir.drop_last())
    } else {
        dir
    }
}

/// `parent` is the directory that an entry of `dir` is in.
///
/// An entry of a directory that is no network path is in some directory: in `dir` itself,
/// trimmed, where that is tidy, empty or the root.
pub open spec fn is_directory_of_entry(dir: Seq<char>, parent: Option<Seq<char>>) -> bool {
    !is_network_path(dir) ==> {
        &&& parent is Some
        &&& is_tidy(trimmed(dir)) || dir.len() == 0 || trimmed(dir) == seq!['/'] ==> parent
            == Some(trimmed(dir))
    }
}

/// `parent` is the directory that `path` is in.
///
/// An entry name is in the empty directory, and an entry behind `/` in the directory before
/// it. An entry behind a backslash, which only some systems take for a separator, is in the
/// tidy directory before it or in one that this directory begins with. Every tidy path is in
/// a directory, the empty path is in none. The directory is always a beginning of the path,
/// and never all of it.
pub open spec fn is_parent(path: Seq<char>, parent: Option<Seq<char>>) -> bool {
    &&& path.len() == 0 ==> parent is None
    &&& is_tidy(path) ==> parent is Some
    &&& is_entry_name(path) ==> parent == Some(Seq::<char>::empty())
    &&& forall|dir: Seq<char>, name: Seq<char>|
        is_entry_name(name) && #[trigger] (dir + seq!['/'] + name) == path
            ==> is_directory_of_entry(dir + seq!['/'], parent)
    &&& forall|dir: Seq<char>, name: Seq<char>|
        is_tidy(dir) && is_entry_name(name) && #[trigger] (dir + seq!['\\'] + name) == path ==> (
        parent matches Some(found) && found.is_prefix_of(dir))
    &&& parent matches Some(found) ==> found.is_prefix_of(path) && found.len() < path.len()
}

/// An entry of a tidy directory, behind `/`, is in that very directory.
pub proof fn law_entries_are_in_tidy_directories(
    dir: Seq<char>,
    name: Seq<char>,
    parent: Option<Seq<char>>,
)
    requires
        is_tidy(dir),
        is_entry_name(name),
        is_parent(dir + seq!['/'] + name, parent),
    ensures
        parent == Some(dir),
        trimmed(dir) == dir,
{
    let slashed = dir + seq!['/'];
    assert(slashed.drop_last() =~= dir);
    assert(trimmed(slashed) == trimmed(dir));
}

/// Calls `camino::Utf8Path::join`, and `camino::Utf8Path::parent` on the path that it gives.
///
/// The contract claims that an entry name is adjoined to a directory with the separator of
/// the system between them, where one is needed, and that the joined path is in that
/// directory, slashes and lone dots at its end left out. The second call is made here because only a path that was joined on the same
/// system is known to come apart in the same place. Which separator is used is not
/// claimed, nor how a verbatim directory is rewritten, nor which directory an entry of a
/// network path is in.
#[verifier::external_body]
fn join(dir: &str, name: &str) -> (joined: (String, Option<String>))
    requires
        is_entry_name(name@),
    ensures
        is_path_in(dir@, name@, joined.0@),
        is_parent(joined.0@, crate::name::optional_text(joined.1)),
        is_directory_of_entry(dir@, crate::name::optional_text(joined.1)),
{
    let path = Utf8Path::new(dir).join(name);
    let parent = path.parent().map(|parent| parent.to_string());
    (path.into_string(), parent)
}

/// Calls `camino::Utf8Path::parent`.
///
/// The contract claims that the final component is taken off the end of the path, and
/// slashes and lone dots with it. What is left is claimed exactly of entry names and of
/// entries behind `/`; of an entry behind a backslash only what holds whether or not the
/// system takes it for a separator. The empty path has no parent. Whether a path has one
/// that ends with a separator, a drive or a lone dot, or that is a network path, is not
/// claimed.
#[verifier::external_body]
pub(crate) fn parent(path: &str) -> (parent: Option<String>)
    ensures
        is_parent(path@, crate::name::optional_text(parent)),
{
    Utf8Path::new(path).parent().map(|parent| parent.to_string())
}

/// The directory of the cache in the project at `cwd`.
pub fn cache_dir(cwd: &str) -> (dir: String)
    ensures
        is_path_in(cwd@, CACHE_DIR@, dir@),
{
    proof {
        reveal_strlit(".karva_cache");
        assert(CACHE_DIR@.len() == 12);
    }
    join(cwd, CACHE_DIR).0
}

/// The file names name entries of directories.
proof fn lemma_titles_name_entries(file: CacheFile)
    ensures
        is_entry_name(file.title()),
{
    reveal_strlit("stats.json");
    reveal_strlit("diagnostics.txt");
    reveal_strlit("durations.json");
    reveal_strlit("failed_tests.json");
    reveal_strlit("flaky_tests.json");
    reveal_strlit("coverage.json");
    reveal_strlit("fail-fast");
    reveal_strlit("last-failed.json");
    reveal_strlit("current_test.json");
    reveal_strlit("quarantine.json");
    reveal_strlit("test-history.json");
    reveal_strlit("outcomes.json");
    reveal_strlit("quarantined_failures.json");
    assert(file.title().len() > 2);
}

/// Different files of one directory have different paths.
pub proof fn law_files_have_their_own_paths(
    dir: Seq<char>,
    a: CacheFile,
    b: CacheFile,
    path: Seq<char>,
)
    requires
        is_path_in(dir, a.title(), path),
        is_path_in(dir, b.title(), path),
    ensures
        a == b,
{
    reveal_strlit("stats.json");
    reveal_strlit("diagnostics.txt");
    reveal_strlit("durations.json");
    reveal_strlit("failed_tests.json");
    reveal_strlit("flaky_tests.json");
    reveal_strlit("coverage.json");
    reveal_strlit("fail-fast");
    reveal_strlit("last-failed.json");
    reveal_strlit("current_test.json");
    reveal_strlit("quarantine.json");
    reveal_strlit("test-history.json");
    reveal_strlit("outcomes.json");
    reveal_strlit("quarantined_failures.json");
    let x = a.title();
    let y = b.title();
    assert forall|k: int| 1 <= k <= x.len() && k <= y.len() implies #[trigger] from_end(x, k)
        == from_end(y, k) by {
        lemma_suffix_from_end(x, path, k);
        lemma_suffix_from_end(y, path, k);
    }
    // No file name ends in another one: the names differ among their last twelve characters.
    assert(from_end(x, 1) == from_end(y, 1));
    assert(from_end(x, 6) == from_end(y, 6));
    assert(from_end(x, 7) == from_end(y, 7));
    assert(from_end(x, 8) == from_end(y, 8));
    assert(from_end(x, 9) == from_end(y, 9));
    if x.len() >= 12 && y.len() >= 12 {
        assert(from_end(x, 11) == from_end(y, 11));
        assert(from_end(x, 12) == from_end(y, 12));
    }
}

/// Different files have different names.
pub proof fn law_files_have_their_own_names(a: CacheFile, b: CacheFile)
    ensures
        a.title() == b.title() <==> a == b,
{
    if a.title() == b.title() {
        let root = Seq::<char>::empty();
        assert(root + a.title() =~= a.title());
        law_files_have_their_own_paths(root, a, b, a.title());
    }
}

/// The `k`th character of `s` from its end.
spec fn from_end(s: Seq<char>, k: int) -> char {
    s[s.len() - k]
}

/// A text and its ending have the same last characters.
proof fn lemma_suffix_from_end(suffix: Seq<char>, s: Seq<char>, k: int)
    requires
        suffix.is_suffix_of(s),
        1 <= k <= suffix.len(),
    ensures
        from_end(suffix, k) == from_end(s, k),
{
    assert(suffix[suffix.len() - k] == s.subrange(s.len() - suffix.len(), s.len() as int)[suffix.len()
        - k]);
}

/// Where a file is written.
#[derive(Debug)]
pub struct ArtifactLocation {
    pub path: String,
    /// The directory that the file is in.
    pub parent: String,
}

/// The error for a path that is in no directory.
pub open spec fn no_parent_message(path: Seq<char>) -> Seq<char> {
    "cache artifact `"@ + path + "` has no parent directory"@
}

/// Where the file at `path` is written, `parent` being the directory that it is in.
pub fn locate(path: String, parent: Option<String>) -> (location: Result<ArtifactLocation, String>)
    ensures
        match parent {
            Some(parent) => location matches Ok(found) && found.path@ == path@ && found.parent@
                == parent@,
            None => location matches Err(message) && message@ == no_parent_message(path@),
        },
{
    match parent {
        Some(parent) => Ok(ArtifactLocation { path, parent }),
        None => Err(
            "cache artifact `".to_owned().concat(path.as_str()).concat("` has no parent directory"),
        ),
    }
}

/// Where `file` of the directory `dir` is written.
pub fn artifact_location(dir: &str, file: CacheFile) -> (location: Result<ArtifactLocation, String>)
    ensures
        match location {
            Ok(found) => is_path_in(dir@, file.title(), found.path@) && is_parent(
                found.path@,
                Some(found.parent@),
            ) && is_directory_of_entry(dir@, Some(found.parent@)),
            Err(message) => exists|path: Seq<char>|
                is_path_in(dir@, file.title(), path) && is_parent(path, None)
                    && is_directory_of_entry(dir@, None) && message@ == #[trigger] no_parent_message(
                    path,
                ),
        },
        !is_network_path(dir@) ==> location is Ok,
{
    proof {
        lemma_titles_name_entries(file);
    }
    let (path, parent) = join(dir, file.filename());
    locate(path, parent)
}

/// What can go wrong when a file is written: it is created beside its place, filled,
/// flushed and moved to its place.
#[derive(Debug, Clone, Copy, PartialEq, Eq, Structural)]
pub enum WriteStep {
    Create,
    Write,
    Flush,
    Replace,
}

impl WriteStep {
    /// The word for what failed.
    pub open spec fn word(self) -> Seq<char> {
        match self {
            WriteStep::Create => "create"@,
            WriteStep::Write => "write"@,
            WriteStep::Flush => "flush"@,
            WriteStep::Replace => "replace"@,
        }
    }

    /// The error for a failure at this step.
    pub fn error_message(self, path: &str) -> (message: String)
        ensures
            message@ == "failed to "@ + self.word() + " `"@ + path@ + "`"@,
    {
        let word = match self {
            WriteStep::Create => "create",
            WriteStep::Write => "write",
            WriteStep::Flush => "flush",
            WriteStep::Replace => "replace",
        };
        "failed to ".to_owned().concat(word).concat(" `").concat(path).concat("`")
    }

    /// The step after this one; the file is in its place after the last.
    pub fn next(self) -> (next: Option<WriteStep>)
        ensures
            next == match self {
                WriteStep::Create => Some(WriteStep::Write),
                WriteStep::Write => Some(WriteStep::Flush),
                WriteStep::Flush => Some(WriteStep::Replace),
                WriteStep::Replace => None,
            },
    {
        match self {
            WriteStep::Create => Some(WriteStep::Write),
            WriteStep::Write => Some(WriteStep::Flush),
            WriteStep::Flush => Some(WriteStep::Replace),
            WriteStep::Replace => None,
        }
    }
}

/// Whether a list is written at all: an empty one carries no information and is read back as
/// missing.
pub fn writes_list(len: usize) -> (written: bool)
    ensures
        written == (len > 0),
{
    len > 0
}

/// What reading a file gave.
#[derive(Debug)]
pub enum FileRead {
    Content(String),
    /// There is no such file.
    NotFound,
    /// The file could not be read, for the reason given.
    Failed(String),
}

/// The text of a file that may be missing.
pub fn read_text(read: FileRead) -> (text: Result<Option<String>, String>)
    ensures
        match read {
            FileRead::Content(content) => text == Ok::<Option<String>, String>(Some(content)),
            FileRead::NotFound => text == Ok::<Option<String>, String>(None),
            FileRead::Failed(message) => text == Err::<Option<String>, String>(message),
        },
{
    match read {
        FileRead::Content(content) => Ok(Some(content)),
        FileRead::NotFound => Ok(None),
        FileRead::Failed(message) => Err(message),
    }
}

/// The error for a file that does not hold what it should.
pub fn parse_error(path: &str) -> (message: String)
    ensures
        message@ == "failed to parse cache artifact `"@ + path@ + "`"@,
{
    "failed to parse cache artifact `".to_owned().concat(path).concat("`")
}

/// The directory of a worker is called after the worker.
pub proof fn law_directories_are_called_after_workers(worker_id: nat)
    ensures
        worker_dir(worker_id) == "worker-"@ + text::decimal(worker_id),
{
}

/// The error for a path that is in no directory names the path between backquotes.
pub proof fn law_errors_name_the_path(path: Seq<char>)
    ensures
        no_parent_message(path) == "cache artifact "@ + seq!['`'] + path + seq!['`']
            + " has no parent directory"@,
{
    reveal_strlit("cache artifact `");
    reveal_strlit("cache artifact ");
    reveal_strlit("` has no parent directory");
    reveal_strlit(" has no parent directory");
    assert("cache artifact `"@ =~= "cache artifact "@ + seq!['`']);
    assert("` has no parent directory"@ =~= seq!['`'] + " has no parent directory"@);
    assert(no_parent_message(path) =~= "cache artifact "@ + seq!['`'] + path + seq!['`']
        + " has no parent directory"@);
}

/// Where a directory ends with neither a separator nor a drive, one separator and nothing else
/// stands between it and the name of its entry; where it is empty or ends with `/`, nothing.
pub proof fn law_one_separator_joins_directory_and_name(
    dir: Seq<char>,
    name: Seq<char>,
    path: Seq<char>,
)
    requires
        !is_verbatim(dir),
        is_path_in(dir, name, path),
    ensures
        dir.is_prefix_of(path),
        name.is_suffix_of(path),
        dir.len() == 0 || dir.last() == '/' ==> path.len() == dir.len() + name.len(),
        dir.len() > 0 && dir.last() != '/' && dir.last() != '\\' && dir.last() != ':' ==> path.len()
            == dir.len() + 1 + name.len() && (path[dir.len() as int] == '/' || path[dir.len() as int]
            == '\\'),
{
    assert(path.take(dir.len() as int) =~= dir);
}

/// The files of the cache that are read as JSON say so by their names; the diagnostics are text,
/// and the sentinel for fail-fast says nothing of its content.
pub proof fn law_file_names_tell_the_format(file: CacheFile)
    ensures
        file is Diagnostics <==> ".txt"@.is_suffix_of(file.title()),
        file is FailFastSignal || file is Diagnostics <==> !(".json"@.is_suffix_of(file.title())),
{
    reveal_strlit("stats.json");
    reveal_strlit("diagnostics.txt");
    reveal_strlit("durations.json");
    reveal_strlit("failed_tests.json");
    reveal_strlit("flaky_tests.json");
    reveal_strlit("coverage.json");
    reveal_strlit("fail-fast");
    reveal_strlit("last-failed.json");
    reveal_strlit("current_test.json");
    reveal_strlit("quarantine.json");
    reveal_strlit("test-history.json");
    reveal_strlit("outcomes.json");
    reveal_strlit("quarantined_failures.json");
    reveal_strlit(".txt");
    reveal_strlit(".json");
    let title = file.title();
    let n = title.len() as int;
    let last_four = title.subrange(n - 4, n);
    let last_five = title.subrange(n - 5, n);
    assert(last_four[0] == title[n - 4]);
    assert(last_five[0] == title[n - 5]);
    if file is Diagnostics {
        assert(last_four =~= ".txt"@);
    } else {
        assert(last_four[0] != '.');
    }
    if file is Diagnostics || file is FailFastSignal {
        assert(last_five[0] != '.');
    } else {
        assert(last_five =~= ".json"@);
    }
}

} // verus!

use karva::cache::artifact::{
    artifact_location, cache_dir, locate, parse_error, read_text, worker_folder, writes_list, CacheFile,
    FileRead, WriteStep, CACHE_DIR,
};
use karva::text::{comes_before, decimal_text, same_text, space_run};

const FILES: [(CacheFile, &str); 13] = [
    (CacheFile::Stats, "stats.json"),
    (CacheFile::Diagnostics, "diagnostics.txt"),
    (CacheFile::Durations, "durations.json"),
    (CacheFile::FailedTests, "failed_tests.json"),
    (CacheFile::FlakyTests, "flaky_tests.json"),
    (CacheFile::Coverage, "coverage.json"),
    (CacheFile::FailFastSignal, "fail-fast"),
    (CacheFile::LastFailed, "last-failed.json"),
    (CacheFile::CurrentTest, "current_test.json"),
    (CacheFile::Quarantine, "quarantine.json"),
    (CacheFile::TestHistory, "test-history.json"),
    (CacheFile::Outcomes, "outcomes.json"),
    (CacheFile::QuarantinedFailures, "quarantined_failures.json"),
];

#[test]
fn files_have_names() {
    for (file, name) in FILES {
        assert_eq!(file.filename(), name);
    }
    assert_eq!(CACHE_DIR, ".karva_cache");
    let separator = std::path::MAIN_SEPARATOR;
    assert_eq!(cache_dir("/project"), format!("/project{separator}.karva_cache"));
    assert_eq!(cache_dir(""), ".karva_cache");
}

#[test]
fn paths_join_directory_and_name() {
    let separator = std::path::MAIN_SEPARATOR;
    for (file, name) in FILES {
        assert_eq!(file.path_in("/a/b"), format!("/a/b{separator}{name}"));
        assert_eq!(file.path_in("/a/b/"), format!("/a/b/{name}"));
        assert_eq!(file.path_in(""), name);
    }
}

#[test]
fn artifacts_are_written_beside_their_place() {
    let location = artifact_location("/cache", CacheFile::LastFailed).unwrap();
    assert!(location.path.ends_with("last-failed.json"));
    assert_eq!(location.parent, "/cache");
    let location = artifact_location("/cache/", CacheFile::LastFailed).unwrap();
    assert_eq!(location.path, "/cache/last-failed.json");
    assert_eq!(location.parent, "/cache");
    let location = artifact_location("/", CacheFile::LastFailed).unwrap();
    assert_eq!(location.path, "/last-failed.json");
    assert_eq!(location.parent, "/");
    for dir in [
        "C:\\project\\.karva_cache",
        "a:b\\c",
        ".karva_cache",
        "rel/dir",
        ".",
        "..",
        "a/..",
        "a.",
        "/..",
        "./x",
        "C:.",
    ] {
        let location = artifact_location(dir, CacheFile::Stats).unwrap();
        assert!(location.path.starts_with(dir) && location.path.ends_with("stats.json"));
        assert_eq!(location.parent, dir);
    }
    let trimmed = [
        ("a/.", "a"),
        ("a//", "a"),
        ("a/./", "a"),
        ("a/././/.", "a"),
        ("/.", "/"),
        ("/./", "/"),
        ("./", "."),
        ("./.", "."),
        ("../", ".."),
    ];
    for (dir, parent) in trimmed {
        assert_eq!(artifact_location(dir, CacheFile::Stats).unwrap().parent, parent);
    }
    for dir in ["\\", "C:", "//server/share", "a\\"] {
        let location = artifact_location(dir, CacheFile::Stats).unwrap();
        assert!(location.path.ends_with("stats.json"));
        assert!(location.path.starts_with(&location.parent));
    }
    let location = artifact_location("", CacheFile::LastFailed).unwrap();
    assert_eq!(location.path, "last-failed.json");
    assert_eq!(location.parent, "");
}

#[test]
fn paths_without_parent_are_refused() {
    assert_eq!(
        locate("/".to_string(), None).unwrap_err(),
        "cache artifact `/` has no parent directory"
    );
    let location = locate("/a/b".to_string(), Some("/a".to_string())).unwrap();
    assert_eq!(location.path, "/a/b");
    assert_eq!(location.parent, "/a");
}

#[test]
fn write_steps_and_their_errors() {
    let mut step = Some(WriteStep::Create);
    let mut messages = vec![];
    while let Some(now) = step {
        messages.push(now.error_message("/x/y"));
        step = now.next();
    }
    assert_eq!(
        messages,
        vec![
            "failed to create `/x/y`",
            "failed to write `/x/y`",
            "failed to flush `/x/y`",
            "failed to replace `/x/y`",
        ]
    );
}

#[test]
fn read_text_missing_artifact_returns_none() {
    let content = read_text(FileRead::NotFound).expect("read artifact");

    assert!(content.is_none());
}

#[test]
fn missing_files_read_as_nothing() {
    assert_eq!(read_text(FileRead::NotFound), Ok(None));
    assert_eq!(
        read_text(FileRead::Content("x".to_string())),
        Ok(Some("x".to_string()))
    );
    assert_eq!(
        read_text(FileRead::Failed("denied".to_string())),
        Err("denied".to_string())
    );
    assert_eq!(
        parse_error("/c/q.json"),
        "failed to parse cache artifact `/c/q.json`"
    );
}

#[test]
fn empty_lists_are_not_written() {
    assert!(!writes_list(0));
    assert!(writes_list(1));
}

#[test]
fn workers_have_their_own_directories() {
    assert_eq!(worker_folder(0), "worker-0");
    assert_eq!(worker_folder(10), "worker-10");
    assert_eq!(worker_folder(usize::MAX), format!("worker-{}", usize::MAX));
}

#[test]
fn numbers_and_texts() {
    assert_eq!(decimal_text(0), "0");
    assert_eq!(decimal_text(1_234_567_890), "1234567890");
    assert_eq!(decimal_text(u64::MAX), u64::MAX.to_string());
    assert_eq!(space_run(3), "   ");
    assert!(same_text("é", "é"));
    assert!(!same_text("é", "e"));
    assert!(comes_before("a", "b"));
    assert!(comes_before("a", "aa"));
    assert!(!comes_before("a", "a"));
    assert!(comes_before("Z", "a"));
    assert!(comes_before("\u{ffff}", "\u{10000}"));
}

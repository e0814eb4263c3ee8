# karva

The logic of a Python test runner, written in Verus: the functions of the
library state in contracts what they do, and Verus proves it.

- `src/cache`: outcome history, the quarantine set and the files of the cache.
- `src/result`: outcomes of tests and quarantined failures.
- `src/fixtures`: finding fixtures and expanding their dependencies.
- `src/runner`: planning a run, waiting for workers, cancelling a run.
- `src/worker`: how a worker starts and ends.
- `src/reporter`, `src/line`, `src/style`: report lines, JSON events, the
  progress file and colours.
- `src/cli`, `src/exit`: the `quarantine` command and exit codes.

What holds of several functions together is stated in proof functions named
`law_...`. Colours come from the `colored` crate and paths from `camino`. The
private functions that call these crates, in `src/style.rs` and
`src/cache/artifact.rs`, are not proved: their contracts say what is relied on.

`app` is ordinary Rust around the library: files, processes, threads and the
terminal. `tests` runs the library on concrete values.

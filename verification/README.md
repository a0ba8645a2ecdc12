# cargo_crusader

Builds the published crates that depend on a crate against the crate as
published and against its work in progress, and reports which of them still
build (passed), no longer build (regressed), never built (broken), or could not
be tested (error).

- `src/` — the verified library (Verus): registry addresses and queries
  (`registry`), the manifest (`manifest`), semantic versions (`version`), the
  test of one reverse dependency as a sequence of steps (`testing`), the summary
  and the HTML report (`report`), text helpers (`text`) and the error type
  (`error`).
- `app/` — the program: network requests, files, processes, the thread pool and
  the terminal, driven by the library's steps.
- `tests/` — tests of the library on concrete values.

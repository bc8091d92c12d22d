# splitrail

Splitrail reads the local logs of agentic coding tools (Codex CLI, Qwen Code, Kilo Code, Warp,
Amazon Q, Kiro CLI, Factory Droid, OpenCode), turns them into per-message usage records, folds
them into daily statistics and shows them in a terminal dashboard. It can also upload the
records to Splitrail Cloud and send notifications when a conversation waits for the user.

## Layout

- `src/` is the library, verified with Verus: every analyzer's parsing of its records, the daily
  aggregation, the dashboard's decisions and figures, the live watcher's batching and upload
  scheduling, the configuration edits, the notification rules and the upload arithmetic. Calls
  into outside crates (chrono, sha2, simd-json, num-format, glob) and into parts of std that
  Verus does not specify go through small trusted wrappers whose contracts state what the
  crates document.
- `tests/` exercises the library on concrete values.
- `app/` is the program around it: the command line, file and network I/O, the terminal
  interface, the file watcher, and model pricing (which works in floating point).

Verify with `verus` on `src/lib.rs`; the tests run with `cargo test`.

# vibe_core

The verified core of a desktop companion for PlatformIO firmware projects that works
alongside an AI coding assistant's CLI. It is written in Verus: every public function in
`src/` carries a `requires`/`ensures` contract (as do most private helpers), and Verus
proves the code meets it. A few trusted wrappers around outside calls (`regex`, `chrono`,
`uuid`, `serde_json`, parts of std) have contracts that Verus takes on trust.

## Layout

- `src/ini/` — `platformio.ini`: a format-preserving parser (the lines always concatenate
  back to the input), surgical edits that rewrite only the lines they touch, the document
  model with effective (inherited) values, and the linter's report.
- `src/pio/` — PlatformIO CLI argument construction and output parsers (targets, packages,
  settings, board catalogue), the build/upload pipeline state machine and its upload gate,
  and the per-project build history.
- `src/diag/` — compiler, linker and size-report parsing of build output.
- `src/proc/` — the byte-stream line splitter (chunk boundaries never change its lines)
  and process-related records.
- `src/device/` — serial device records, hot-plug diffing and sticky re-binding, the port
  broker, the serial monitor's settings and log ring buffer, and device telemetry.
- `src/project/` — the project registry, per-project settings, environments, templates,
  editor resolution, workspace trust, the viewer's path checks and the assistant's project
  notes file.
- the assistant module under `src/` — assistant turns: the CLI arguments, the stream-JSON
  reader (raw line to decoded line to events) with its delta coalescer, the turn record,
  session history and failure classification.
- `src/json.rs` — the trusted wrapper around `serde_json` (text to a plain JSON tree of the
  library's own, and back to text) and verified field readers over that tree.
- `src/toolchain.rs`, `src/replay.rs` — the sign-in terminal command per platform, and the
  fixture-replaying stand-in CLI used to test the pipeline without hardware.
- `src/matching.rs`, `src/casing.rs`, `src/clock.rs`, `src/ids.rs` — the trusted wrappers
  around `regex`, Unicode case mapping, `chrono` and `uuid`; each states only what its
  outside function documents, or names its result.
- `tests/` — executable tests of the library.
- `app/` — ordinary Rust around the library: JSON on disk and on the wire (serde copies of
  the library's types), files, and the child processes of `pio` and the assistant CLI.

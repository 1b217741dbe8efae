# startup_millenium

A launcher that opens and closes a Steam game (Garry's Mod, app 4000) over and
over, for an achievement that asks for a thousand launches. Each cycle launches
the game through Steam's `steam://rungameid/<id>` handler, waits for its process
to appear and for its loading to end (on Linux: disk-read throughput, from
`/proc/<pid>/io`, staying below a threshold), then kills it.

## Layout

- `src/` — the verified library (Verus):
  - `config.rs` — settings, their per-platform defaults, the repair of a
    nonsensical threshold, and what reading `config.json` leads to.
  - `string_or_seq.rs` — `process_names` written as one string or as a list.
  - `threshold.rs` — the MB/s threshold, carried as the bits of an IEEE-754
    double, and the exact comparison of a read rate against it.
  - `text.rs` — decimal formatting and parsing, and `key: value` lines of
    `/proc` files.
  - `system.rs` — the `sysinfo` process table as the library sees it.
  - `process.rs` — the game process: launch URL and opener command, matching
    running processes, thread-group leaders and read totals.
  - `loading.rs` — waiting for the process to appear and for loading to end.
  - `cycle.rs` — the outer loop of attempts, successes and failures.
- `app/` — the program: configuration file I/O with `serde_json`, process
  control with `sysinfo` and `tokio`, timing and sleeping.
- `tests/` — tests of the library.

# clap_validator

A validator for CLAP audio plugins, built around a library whose logic is specified and proved
with Verus.

- `src/` is the library. Each module states its contracts over mathematical models (`Seq`,
  `Map`, `Multiset`, spec functions) and proves them: the validation result maps and their
  tallies, test filtering and the test suite, duration parsing, report rendering, the plugin
  lifecycle state machine, audio port configurations and buffer layouts, event queues, the
  consistency checks after a process call, the fuzzer's generator and its decisions, and the
  checks and verdicts of individual tests.
  Calls into `regex-lite`, `textwrap`, std's path splitting and std's formatting stand behind
  small trusted wrappers whose contracts are documented next to them.
- `app/` is the command line program: argument parsing, JSON output, child processes and the
  terminal. It hands plain values to the library and prints what it returns.
- `tests/` exercises the library on concrete values.

## Limits of this build

The program carries no CLAP plugin library loader, no plugin index and no per-library test
cases, and it reads no configuration file (every test counts as enabled). So `validate`,
`fuzz` and `list` stop with an error on any real plugin path: this build loads no plugin.
What the validator decides once a library is loaded (which plugins and tests to run, how results
are merged, sorted, filtered, tallied and printed, and the checks each test makes) is in the
library and is exercised by `tests/`. The same holds of a fuzzing chunk: the library seeds the
fuzzer's generator (`rand`'s xoshiro128++, written out and proved, and checked against `rand` by
the tests), makes the chunk's draws and decides each round and block (`fuzz_rng`,
`fuzz_round`); `app/fuzzer.rs` performs those decisions on a plugin, which this build cannot
create.

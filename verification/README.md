# cargo-criterion, verified core

A Cargo extension that runs Criterion.rs benchmarks, keeps their results between runs and
reports on them. The decisions and data handling are written in Verus and proved against their
contracts; the program around them is ordinary Rust.

- `src/` — the verified library: the socket protocol's handshake and framing (`connection`),
  the configuration rules (`config`, `cli`, `args`), the processing of Cargo's build messages
  (`compile`), the conversation with a benchmark executable (`bench_target`), benchmark
  identities and report paths (`report`), the in-memory model of results (`model`, built on the
  insertion-ordered maps declared in `linked`), the machine-readable reports
  (`message_formats`), plot naming (`plot`) and the content of the HTML reports (`html`).
  String and path helpers live in `text`.
- `app/` — the executable: command-line parsing, reading the config file and the environment,
  running Cargo and the benchmarks, the socket, saving results to disk, floating-point
  statistics and writing the reports.
- `tests/` — tests of the library on concrete values.

//! Verified core of a Cargo extension that runs Criterion.rs benchmarks and reports on them.
//!
//! The library holds the decisions and data handling of the tool: the wire protocol spoken with
//! benchmark executables, the configuration rules, the processing of Cargo's build messages, the
//! in-memory model of benchmark results, the naming rules for reports and the content of the
//! HTML and machine-readable reports. Everything that talks to the operating system, renders
//! plots or does floating-point statistics lives in `app/`.

pub mod text;
pub mod args;
pub mod connection;
pub mod report;
pub mod config;
pub mod bench_target;
pub mod cli;
pub mod compile;
pub mod linked;
pub mod model;
pub mod message_formats;
pub mod plot;
pub mod html;

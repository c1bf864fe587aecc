//! How the command-line report behaves, and the conversion of durations to nanoseconds.
use crate::config::{OutputFormat, TextColor};
use vstd::prelude::*;

verus! {

/// The behavior of the report printed to the terminal.
#[derive(Debug, Clone, Copy, PartialEq, Eq, Structural)]
pub struct CliSettings {
    /// Whether progress lines are overwritten in place.
    pub enable_text_overwrite: bool,
    /// Whether the text is colored.
    pub enable_text_coloring: bool,
    /// Whether changes from the previous run are shown.
    pub show_differences: bool,
    /// Whether additional statistics are shown.
    pub verbose: bool,
}

/// The terminal report for the chosen output format and coloring, given whether standard error
/// is a terminal and whether debug output is enabled. Overwriting needs a terminal, no debug
/// output and coloring not switched off; coloring follows the terminal unless forced; changes
/// are shown by the `criterion` and `verbose` formats; extra statistics by `verbose`, or by any
/// format when debugging.
pub fn configure_cli_output(
    output_format: OutputFormat,
    text_color: TextColor,
    stderr_isatty: bool,
    debug_enabled: bool,
) -> (r: CliSettings)
    ensures
        r.enable_text_overwrite == (stderr_isatty && !debug_enabled && text_color != TextColor::Never),
        r.enable_text_coloring == match text_color {
            TextColor::Auto => stderr_isatty,
            TextColor::Never => false,
            TextColor::Always => true,
        },
        r.show_differences == (output_format == OutputFormat::Criterion || output_format == OutputFormat::Verbose),
        r.verbose == (output_format == OutputFormat::Verbose || debug_enabled),
{
    let mut enable_text_overwrite = stderr_isatty && !debug_enabled;
    let enable_text_coloring = match text_color {
        TextColor::Auto => stderr_isatty,
        TextColor::Never => {
            enable_text_overwrite = false;
            false
        },
        TextColor::Always => true,
    };
    let show_differences = match output_format {
        OutputFormat::Criterion | OutputFormat::Verbose => true,
        OutputFormat::Quiet | OutputFormat::Bencher => false,
    };
    let verbose = match output_format {
        OutputFormat::Verbose => true,
        OutputFormat::Criterion | OutputFormat::Quiet | OutputFormat::Bencher => debug_enabled,
    };
    CliSettings { enable_text_overwrite, enable_text_coloring, show_differences, verbose }
}

/// The number of nanoseconds in a second.
pub const NANOS_PER_SEC: u64 = 1_000_000_000;

/// A duration of `secs` seconds and `subsec_nanos` nanoseconds, in nanoseconds.
pub fn to_nanos(secs: u64, subsec_nanos: u32) -> (r: u64)
    requires
        secs * NANOS_PER_SEC + subsec_nanos <= u64::MAX,
    ensures
        r == secs * NANOS_PER_SEC + subsec_nanos,
{
    secs * NANOS_PER_SEC + subsec_nanos as u64
}

} // verus!

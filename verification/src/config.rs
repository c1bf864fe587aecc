//! The settings of a run: how the command line, the `Criterion.toml` file and the environment
//! combine into the configuration of the runner, the arguments passed on to Cargo and the
//! arguments passed on to the benchmark executables.
use crate::message_formats::MessageFormat;
use vstd::prelude::*;

verus! {

/// Whether a string slice equals a literal.
fn is(s: &str, lit: &str) -> (r: bool)
    ensures
        r == (s@ == lit@),
{
    crate::text::str_eq(s, lit)
}

/// How results are printed on the command line.
#[derive(Debug, Clone, Copy, PartialEq, Eq, Structural)]
pub enum OutputFormat {
    Criterion,
    Quiet,
    Verbose,
    Bencher,
}

/// The output format that a name stands for, if it stands for one.
pub open spec fn output_format_named(s: Seq<char>) -> Option<OutputFormat> {
    if s == "criterion"@ {
        Some(OutputFormat::Criterion)
    } else if s == "quiet"@ {
        Some(OutputFormat::Quiet)
    } else if s == "verbose"@ {
        Some(OutputFormat::Verbose)
    } else if s == "bencher"@ {
        Some(OutputFormat::Bencher)
    } else {
        None
    }
}

impl OutputFormat {
    /// The output format with the given name; the name must be one of `criterion`, `quiet`,
    /// `verbose` or `bencher`.
    pub fn from_str(s: &str) -> (r: OutputFormat)
        requires
            output_format_named(s@) is Some,
        ensures
            output_format_named(s@) == Some(r),
    {
        if is(s, "criterion") {
            OutputFormat::Criterion
        } else if is(s, "quiet") {
            OutputFormat::Quiet
        } else if is(s, "verbose") {
            OutputFormat::Verbose
        } else {
            OutputFormat::Bencher
        }
    }
}

/// Whether the command-line output is colored.
#[derive(Debug, Clone, Copy, PartialEq, Eq, Structural)]
pub enum TextColor {
    Always,
    Never,
    Auto,
}

/// The coloring that a name stands for, if it stands for one.
pub open spec fn text_color_named(s: Seq<char>) -> Option<TextColor> {
    if s == "always"@ {
        Some(TextColor::Always)
    } else if s == "never"@ {
        Some(TextColor::Never)
    } else if s == "auto"@ {
        Some(TextColor::Auto)
    } else {
        None
    }
}

impl TextColor {
    /// The coloring with the given name; the name must be one of `always`, `never` or `auto`.
    pub fn from_str(s: &str) -> (r: TextColor)
        requires
            text_color_named(s@) is Some,
        ensures
            text_color_named(s@) == Some(r),
    {
        if is(s, "always") {
            TextColor::Always
        } else if is(s, "never") {
            TextColor::Never
        } else {
            TextColor::Auto
        }
    }
}

/// Which program draws the plots.
#[derive(Debug, Clone, Copy, PartialEq, Eq, Structural)]
pub enum PlottingBackend {
    Gnuplot,
    Plotters,
    Auto,
}

/// The plotting backend that a name stands for, if it stands for one.
pub open spec fn plotting_backend_named(s: Seq<char>) -> Option<PlottingBackend> {
    if s == "gnuplot"@ {
        Some(PlottingBackend::Gnuplot)
    } else if s == "plotters"@ {
        Some(PlottingBackend::Plotters)
    } else if s == "auto"@ {
        Some(PlottingBackend::Auto)
    } else {
        None
    }
}

impl PlottingBackend {
    /// The plotting backend with the given name; the name must be one of `gnuplot`, `plotters`
    /// or `auto`.
    pub fn from_str(s: &str) -> (r: PlottingBackend)
        requires
            plotting_backend_named(s@) is Some,
        ensures
            plotting_backend_named(s@) == Some(r),
    {
        if is(s, "gnuplot") {
            PlottingBackend::Gnuplot
        } else if is(s, "plotters") {
            PlottingBackend::Plotters
        } else {
            PlottingBackend::Auto
        }
    }
}

/// The machine-readable format that a name stands for, if it stands for one.
pub open spec fn message_format_named(s: Seq<char>) -> Option<MessageFormat> {
    if s == "json"@ {
        Some(MessageFormat::Json)
    } else if s == "openmetrics"@ {
        Some(MessageFormat::OpenMetrics)
    } else {
        None
    }
}

impl MessageFormat {
    /// The machine-readable format with the given name; the name must be `json` or
    /// `openmetrics`.
    pub fn from_str(s: &str) -> (r: MessageFormat)
        requires
            message_format_named(s@) is Some,
        ensures
            message_format_named(s@) == Some(r),
    {
        if is(s, "json") {
            MessageFormat::Json
        } else {
            MessageFormat::OpenMetrics
        }
    }
}

/// The settings that may be read from the `Criterion.toml` file.
#[derive(Debug, Clone, Default)]
pub struct TomlConfig {
    /// Path to output directory
    pub criterion_home: Option<String>,
    /// Output format
    pub output_format: Option<String>,
    /// Plotting backend
    pub plotting_backend: Option<String>,
}

/// The environment variables that the configuration reads.
#[derive(Debug, Clone, Default)]
pub struct Environment {
    /// `CRITERION_HOME`
    pub criterion_home: Option<String>,
    /// `CARGO_TARGET_DIR`
    pub cargo_target_dir: Option<String>,
}

/// The parsed command line. A list is `None` when its option was not given, and `verbose`
/// counts the occurrences of `-v`.
#[derive(Debug, Clone, Default)]
pub struct CommandLine {
    pub lib: bool,
    pub bin: Option<Vec<String>>,
    pub bins: bool,
    pub example: Option<Vec<String>>,
    pub examples: bool,
    pub test: Option<Vec<String>>,
    pub tests: bool,
    pub bench: Option<Vec<String>>,
    pub benches: bool,
    pub all_targets: bool,
    pub no_run: bool,
    pub package: Option<Vec<String>>,
    pub all: bool,
    pub workspace: bool,
    pub exclude: Option<Vec<String>>,
    pub jobs: Option<String>,
    pub features: Option<Vec<String>>,
    pub all_features: bool,
    pub no_default_features: bool,
    pub target: Option<String>,
    pub target_dir: Option<String>,
    pub manifest_path: Option<String>,
    pub no_fail_fast: bool,
    pub debug: bool,
    pub message_format: Option<String>,
    pub output_format: Option<String>,
    pub plotting_backend: Option<String>,
    pub verbose: u64,
    pub color: Option<String>,
    pub frozen: bool,
    pub locked: bool,
    pub offline: bool,
    pub unstable_flags: Option<Vec<String>>,
    pub bench_name: Option<String>,
    pub args: Option<Vec<String>>,
}

/// The configuration of the runner itself.
#[derive(Debug)]
pub struct SelfConfig {
    /// The path to the output directory
    pub criterion_home: String,
    /// Should we run the benchmarks?
    pub do_run: bool,
    /// Should we fail immediately if a benchmark target fails, or continue with the others?
    pub do_fail_fast: bool,
    /// How should the CLI output be formatted
    pub output_format: OutputFormat,
    /// Should we print the output in color?
    pub text_color: TextColor,
    /// Which plotting backend to use?
    pub plotting_backend: PlottingBackend,
    /// Should the benchmarks be built without optimizations?
    pub debug_build: bool,
    /// Which machine-readable messages, if any, to print to standard output?
    pub message_format: Option<MessageFormat>,
}

/// All of the configuration of a run.
#[derive(Debug)]
pub struct FullConfig {
    /// The config settings for the runner
    pub self_config: SelfConfig,
    /// The arguments we pass through to cargo bench
    pub cargo_args: Vec<String>,
    /// The additional arguments we pass through to the benchmark executables
    pub additional_args: Vec<String>,
}

/// `name` when the switch is on.
pub open spec fn flag_arg(on: bool, name: Seq<char>) -> Seq<Seq<char>> {
    if on {
        seq![name]
    } else {
        seq![]
    }
}

/// `name` followed by the values, when the option was given.
pub open spec fn list_arg(values: Option<Seq<Seq<char>>>, name: Seq<char>) -> Seq<Seq<char>> {
    match values {
        Some(vs) => seq![name] + vs,
        None => seq![],
    }
}

/// `name` followed by the value, when the option was given.
pub open spec fn value_arg(value: Option<Seq<char>>, name: Seq<char>) -> Seq<Seq<char>> {
    match value {
        Some(v) => seq![name, v],
        None => seq![],
    }
}

/// `name`, `n` times.
pub open spec fn repeated_arg(n: nat, name: Seq<char>) -> Seq<Seq<char>>
    decreases n,
{
    if n == 0 {
        seq![]
    } else {
        repeated_arg((n - 1) as nat, name).push(name)
    }
}

/// The arguments handed to Cargo for a command line: each Cargo option that was given, in a
/// fixed order.
pub open spec fn cargo_arguments(cli: CommandLine) -> Seq<Seq<char>> {
    flag_arg(cli.lib, "--lib"@) + list_arg(cli.bin.deep_view(), "--bin"@) + flag_arg(
        cli.bins,
        "--bins"@,
    ) + list_arg(cli.example.deep_view(), "--example"@) + flag_arg(cli.examples, "--examples"@)
        + list_arg(cli.test.deep_view(), "--test"@) + flag_arg(cli.tests, "--tests"@) + list_arg(
        cli.bench.deep_view(),
        "--bench"@,
    ) + flag_arg(cli.benches, "--benches"@) + flag_arg(cli.all_targets, "--all-targets"@)
        + list_arg(cli.package.deep_view(), "--package"@) + flag_arg(cli.all, "--all"@) + flag_arg(
        cli.workspace,
        "--workspace"@,
    ) + list_arg(cli.exclude.deep_view(), "--exclude"@) + value_arg(
        cli.jobs.deep_view(),
        "--jobs"@,
    ) + list_arg(cli.features.deep_view(), "--features"@) + flag_arg(
        cli.all_features,
        "--all-features"@,
    ) + flag_arg(cli.no_default_features, "--no-default-features"@) + value_arg(
        cli.target.deep_view(),
        "--target"@,
    ) + value_arg(cli.target_dir.deep_view(), "--target-dir"@) + value_arg(
        cli.manifest_path.deep_view(),
        "--manifest-path"@,
    ) + repeated_arg(cli.verbose as nat, "--verbose"@) + value_arg(cli.color.deep_view(), "--color"@)
        + flag_arg(cli.frozen, "--frozen"@) + flag_arg(cli.locked, "--locked"@) + flag_arg(
        cli.offline,
        "--offline"@,
    ) + list_arg(cli.unstable_flags.deep_view(), "-Z"@)
}

/// The output directory, in descending order of preference: `$CRITERION_HOME`, the value from
/// the config file, `criterion` under `--target-dir`, `criterion` under `$CARGO_TARGET_DIR`,
/// and `target/criterion`.
pub open spec fn chosen_criterion_home(cli: CommandLine, toml: TomlConfig, env: Environment) -> Seq<char> {
    match (env.criterion_home, toml.criterion_home, cli.target_dir, env.cargo_target_dir) {
        (Some(h), _, _, _) => h@,
        (None, Some(h), _, _) => h@,
        (None, None, Some(d), _) => crate::text::joined(d@, "criterion"@),
        (None, None, None, Some(d)) => crate::text::joined(d@, "criterion"@),
        (None, None, None, None) => "target/criterion"@,
    }
}

/// The name of the output format asked for, the command line first, then the config file.
pub open spec fn asked_output_format(cli: CommandLine, toml: TomlConfig) -> Option<Seq<char>> {
    match cli.output_format {
        Some(s) => Some(s@),
        None => toml.output_format.deep_view(),
    }
}

/// The name of the plotting backend asked for, the command line first, then the config file.
pub open spec fn asked_plotting_backend(cli: CommandLine, toml: TomlConfig) -> Option<Seq<char>> {
    match cli.plotting_backend {
        Some(s) => Some(s@),
        None => toml.plotting_backend.deep_view(),
    }
}

/// Whether every name that the configuration would read stands for a setting.
pub open spec fn names_are_known(cli: CommandLine, toml: TomlConfig) -> bool {
    &&& asked_output_format(cli, toml) matches Some(s) ==> output_format_named(s) is Some
    &&& asked_plotting_backend(cli, toml) matches Some(s) ==> plotting_backend_named(s) is Some
    &&& cli.color matches Some(c) ==> text_color_named(c@) is Some
    &&& cli.message_format matches Some(m) ==> message_format_named(m@) is Some
}

/// Whether `args` holds the arguments `run` one after the other.
pub open spec fn holds_run(args: Seq<Seq<char>>, run: Seq<Seq<char>>) -> bool {
    exists|i: int| 0 <= i && i + run.len() <= args.len() && #[trigger] args.subrange(i, i + run.len()) == run
}

/// A run of arguments held by `s` is held by `s` followed by anything.
proof fn lemma_run_in_front(s: Seq<Seq<char>>, t: Seq<Seq<char>>, run: Seq<Seq<char>>)
    requires
        holds_run(s, run),
    ensures
        holds_run(s + t, run),
{
    let i = choose|i: int| 0 <= i && i + run.len() <= s.len() && #[trigger] s.subrange(i, i + run.len()) == run;
    assert((s + t).subrange(i, i + run.len()) =~= s.subrange(i, i + run.len()));
}

/// A run of arguments held by `t` is held by anything followed by `t`.
proof fn lemma_run_behind(s: Seq<Seq<char>>, t: Seq<Seq<char>>, run: Seq<Seq<char>>)
    requires
        holds_run(t, run),
    ensures
        holds_run(s + t, run),
{
    let i = choose|i: int| 0 <= i && i + run.len() <= t.len() && #[trigger] t.subrange(i, i + run.len()) == run;
    let j = s.len() + i;
    assert((s + t).subrange(j, j + run.len()) =~= t.subrange(i, i + run.len()));
}

/// A run of arguments holds itself.
proof fn lemma_run_itself(run: Seq<Seq<char>>)
    ensures
        holds_run(run, run),
{
    assert(run.subrange(0, 0int + run.len()) =~= run);
}

/// The arguments handed to Cargo for the Cargo option at position `i` of the fixed order.
spec fn option_piece(cli: CommandLine, i: int) -> Seq<Seq<char>> {
    if i == 0 {
        flag_arg(cli.lib, "--lib"@)
    } else if i == 1 {
        list_arg(cli.bin.deep_view(), "--bin"@)
    } else if i == 2 {
        flag_arg(cli.bins, "--bins"@)
    } else if i == 3 {
        list_arg(cli.example.deep_view(), "--example"@)
    } else if i == 4 {
        flag_arg(cli.examples, "--examples"@)
    } else if i == 5 {
        list_arg(cli.test.deep_view(), "--test"@)
    } else if i == 6 {
        flag_arg(cli.tests, "--tests"@)
    } else if i == 7 {
        list_arg(cli.bench.deep_view(), "--bench"@)
    } else if i == 8 {
        flag_arg(cli.benches, "--benches"@)
    } else if i == 9 {
        flag_arg(cli.all_targets, "--all-targets"@)
    } else if i == 10 {
        list_arg(cli.package.deep_view(), "--package"@)
    } else if i == 11 {
        flag_arg(cli.all, "--all"@)
    } else if i == 12 {
        flag_arg(cli.workspace, "--workspace"@)
    } else if i == 13 {
        list_arg(cli.exclude.deep_view(), "--exclude"@)
    } else if i == 14 {
        value_arg(cli.jobs.deep_view(), "--jobs"@)
    } else if i == 15 {
        list_arg(cli.features.deep_view(), "--features"@)
    } else if i == 16 {
        flag_arg(cli.all_features, "--all-features"@)
    } else if i == 17 {
        flag_arg(cli.no_default_features, "--no-default-features"@)
    } else if i == 18 {
        value_arg(cli.target.deep_view(), "--target"@)
    } else if i == 19 {
        value_arg(cli.target_dir.deep_view(), "--target-dir"@)
    } else if i == 20 {
        value_arg(cli.manifest_path.deep_view(), "--manifest-path"@)
    } else if i == 21 {
        repeated_arg(cli.verbose as nat, "--verbose"@)
    } else if i == 22 {
        value_arg(cli.color.deep_view(), "--color"@)
    } else if i == 23 {
        flag_arg(cli.frozen, "--frozen"@)
    } else if i == 24 {
        flag_arg(cli.locked, "--locked"@)
    } else if i == 25 {
        flag_arg(cli.offline, "--offline"@)
    } else {
        list_arg(cli.unstable_flags.deep_view(), "-Z"@)
    }
}

/// The arguments handed to Cargo for the first `n` Cargo options of the fixed order.
spec fn first_pieces(cli: CommandLine, n: nat) -> Seq<Seq<char>>
    decreases n,
{
    if n == 0 {
        Seq::empty()
    } else {
        first_pieces(cli, (n - 1) as nat) + option_piece(cli, n - 1)
    }
}

/// The arguments handed to Cargo are the pieces of all its options, in order.
proof fn lemma_all_pieces(cli: CommandLine)
    ensures
        first_pieces(cli, 27) == cargo_arguments(cli),
{
    reveal_with_fuel(first_pieces, 28);
    assert(first_pieces(cli, 1) =~= option_piece(cli, 0));
}

/// A run held by the piece of option `k` is held by the pieces of the first `n` options, for
/// every `n` beyond `k`.
proof fn lemma_piece_held(cli: CommandLine, k: int, n: nat, run: Seq<Seq<char>>)
    requires
        0 <= k < n,
        holds_run(option_piece(cli, k), run),
    ensures
        holds_run(first_pieces(cli, n), run),
    decreases n,
{
    if k == n - 1 {
        lemma_run_behind(first_pieces(cli, (n - 1) as nat), option_piece(cli, k), run);
    } else {
        lemma_piece_held(cli, k, (n - 1) as nat, run);
        lemma_run_in_front(first_pieces(cli, (n - 1) as nat), option_piece(cli, n - 1), run);
    }
}

/// A run held by the piece of option `k` is held by the arguments handed to Cargo.
proof fn lemma_held(cli: CommandLine, k: int, run: Seq<Seq<char>>)
    requires
        0 <= k < 27,
        holds_run(option_piece(cli, k), run),
    ensures
        holds_run(cargo_arguments(cli), run),
{
    lemma_piece_held(cli, k, 27, run);
    lemma_all_pieces(cli);
}

/// Every Cargo switch given on the command line is handed on to Cargo.
#[verifier::rlimit(50)]
pub proof fn law_cargo_switches_forwarded(cli: CommandLine)
    ensures
        cli.lib ==> holds_run(cargo_arguments(cli), seq!["--lib"@]),
        cli.bins ==> holds_run(cargo_arguments(cli), seq!["--bins"@]),
        cli.examples ==> holds_run(cargo_arguments(cli), seq!["--examples"@]),
        cli.tests ==> holds_run(cargo_arguments(cli), seq!["--tests"@]),
        cli.benches ==> holds_run(cargo_arguments(cli), seq!["--benches"@]),
        cli.all_targets ==> holds_run(cargo_arguments(cli), seq!["--all-targets"@]),
        cli.all ==> holds_run(cargo_arguments(cli), seq!["--all"@]),
        cli.workspace ==> holds_run(cargo_arguments(cli), seq!["--workspace"@]),
        cli.all_features ==> holds_run(cargo_arguments(cli), seq!["--all-features"@]),
        cli.no_default_features ==> holds_run(cargo_arguments(cli), seq!["--no-default-features"@]),
        cli.frozen ==> holds_run(cargo_arguments(cli), seq!["--frozen"@]),
        cli.locked ==> holds_run(cargo_arguments(cli), seq!["--locked"@]),
        cli.offline ==> holds_run(cargo_arguments(cli), seq!["--offline"@]),
        cli.verbose > 0 ==> holds_run(cargo_arguments(cli), seq!["--verbose"@]),
{
    if cli.lib {
        lemma_run_itself(seq!["--lib"@]);
        lemma_held(cli, 0, seq!["--lib"@]);
    }
    if cli.bins {
        lemma_run_itself(seq!["--bins"@]);
        lemma_held(cli, 2, seq!["--bins"@]);
    }
    if cli.examples {
        lemma_run_itself(seq!["--examples"@]);
        lemma_held(cli, 4, seq!["--examples"@]);
    }
    if cli.tests {
        lemma_run_itself(seq!["--tests"@]);
        lemma_held(cli, 6, seq!["--tests"@]);
    }
    if cli.benches {
        lemma_run_itself(seq!["--benches"@]);
        lemma_held(cli, 8, seq!["--benches"@]);
    }
    if cli.all_targets {
        lemma_run_itself(seq!["--all-targets"@]);
        lemma_held(cli, 9, seq!["--all-targets"@]);
    }
    if cli.all {
        lemma_run_itself(seq!["--all"@]);
        lemma_held(cli, 11, seq!["--all"@]);
    }
    if cli.workspace {
        lemma_run_itself(seq!["--workspace"@]);
        lemma_held(cli, 12, seq!["--workspace"@]);
    }
    if cli.all_features {
        lemma_run_itself(seq!["--all-features"@]);
        lemma_held(cli, 16, seq!["--all-features"@]);
    }
    if cli.no_default_features {
        lemma_run_itself(seq!["--no-default-features"@]);
        lemma_held(cli, 17, seq!["--no-default-features"@]);
    }
    if cli.frozen {
        lemma_run_itself(seq!["--frozen"@]);
        lemma_held(cli, 23, seq!["--frozen"@]);
    }
    if cli.locked {
        lemma_run_itself(seq!["--locked"@]);
        lemma_held(cli, 24, seq!["--locked"@]);
    }
    if cli.offline {
        lemma_run_itself(seq!["--offline"@]);
        lemma_held(cli, 25, seq!["--offline"@]);
    }
    if cli.verbose > 0 {
        lemma_verbose_held(cli.verbose as nat);
        lemma_held(cli, 21, seq!["--verbose"@]);
    }
}

/// Every Cargo option with a value given on the command line is handed on to Cargo, followed
/// by its value (so `--target-dir d` builds into `d`).
pub proof fn law_cargo_values_forwarded(cli: CommandLine)
    ensures
        cli.jobs matches Some(v) ==> holds_run(cargo_arguments(cli), seq!["--jobs"@, v@]),
        cli.target matches Some(v) ==> holds_run(cargo_arguments(cli), seq!["--target"@, v@]),
        cli.target_dir matches Some(v) ==> holds_run(cargo_arguments(cli), seq!["--target-dir"@, v@]),
        cli.manifest_path matches Some(v) ==> holds_run(cargo_arguments(cli), seq!["--manifest-path"@, v@]),
        cli.color matches Some(v) ==> holds_run(cargo_arguments(cli), seq!["--color"@, v@]),
{
    if let Some(v) = cli.jobs {
        lemma_run_itself(seq!["--jobs"@, v@]);
        lemma_held(cli, 14, seq!["--jobs"@, v@]);
    }
    if let Some(v) = cli.target {
        lemma_run_itself(seq!["--target"@, v@]);
        lemma_held(cli, 18, seq!["--target"@, v@]);
    }
    if let Some(v) = cli.target_dir {
        lemma_run_itself(seq!["--target-dir"@, v@]);
        lemma_held(cli, 19, seq!["--target-dir"@, v@]);
    }
    if let Some(v) = cli.manifest_path {
        lemma_run_itself(seq!["--manifest-path"@, v@]);
        lemma_held(cli, 20, seq!["--manifest-path"@, v@]);
    }
    if let Some(v) = cli.color {
        lemma_run_itself(seq!["--color"@, v@]);
        lemma_held(cli, 22, seq!["--color"@, v@]);
    }
}

/// Every Cargo option with values given on the command line is handed on to Cargo, followed
/// by all its values in order.
pub proof fn law_cargo_lists_forwarded(cli: CommandLine)
    ensures
        cli.bin matches Some(vs) ==> holds_run(cargo_arguments(cli), seq!["--bin"@] + vs.deep_view()),
        cli.example matches Some(vs) ==> holds_run(cargo_arguments(cli), seq!["--example"@] + vs.deep_view()),
        cli.test matches Some(vs) ==> holds_run(cargo_arguments(cli), seq!["--test"@] + vs.deep_view()),
        cli.bench matches Some(vs) ==> holds_run(cargo_arguments(cli), seq!["--bench"@] + vs.deep_view()),
        cli.package matches Some(vs) ==> holds_run(cargo_arguments(cli), seq!["--package"@] + vs.deep_view()),
        cli.exclude matches Some(vs) ==> holds_run(cargo_arguments(cli), seq!["--exclude"@] + vs.deep_view()),
        cli.features matches Some(vs) ==> holds_run(cargo_arguments(cli), seq!["--features"@] + vs.deep_view()),
        cli.unstable_flags matches Some(vs) ==> holds_run(cargo_arguments(cli), seq!["-Z"@] + vs.deep_view()),
{
    if let Some(vs) = cli.bin {
        lemma_run_itself(seq!["--bin"@] + vs.deep_view());
        lemma_held(cli, 1, seq!["--bin"@] + vs.deep_view());
    }
    if let Some(vs) = cli.example {
        lemma_run_itself(seq!["--example"@] + vs.deep_view());
        lemma_held(cli, 3, seq!["--example"@] + vs.deep_view());
    }
    if let Some(vs) = cli.test {
        lemma_run_itself(seq!["--test"@] + vs.deep_view());
        lemma_held(cli, 5, seq!["--test"@] + vs.deep_view());
    }
    if let Some(vs) = cli.bench {
        lemma_run_itself(seq!["--bench"@] + vs.deep_view());
        lemma_held(cli, 7, seq!["--bench"@] + vs.deep_view());
    }
    if let Some(vs) = cli.package {
        lemma_run_itself(seq!["--package"@] + vs.deep_view());
        lemma_held(cli, 10, seq!["--package"@] + vs.deep_view());
    }
    if let Some(vs) = cli.exclude {
        lemma_run_itself(seq!["--exclude"@] + vs.deep_view());
        lemma_held(cli, 13, seq!["--exclude"@] + vs.deep_view());
    }
    if let Some(vs) = cli.features {
        lemma_run_itself(seq!["--features"@] + vs.deep_view());
        lemma_held(cli, 15, seq!["--features"@] + vs.deep_view());
    }
    if let Some(vs) = cli.unstable_flags {
        lemma_run_itself(seq!["-Z"@] + vs.deep_view());
        lemma_held(cli, 26, seq!["-Z"@] + vs.deep_view());
    }
}

/// `--verbose`, repeated at least once, holds `--verbose`.
proof fn lemma_verbose_held(n: nat)
    requires
        n > 0,
    ensures
        holds_run(repeated_arg(n, "--verbose"@), seq!["--verbose"@]),
{
    let r = repeated_arg(n, "--verbose"@);
    assert(r.last() == "--verbose"@);
    assert(r.subrange(r.len() - 1, r.len() - 1 + 1) =~= seq!["--verbose"@]);
}

/// The arguments handed to the benchmark executables: the benchmark filter, then the trailing
/// arguments.
pub open spec fn benchmark_arguments(cli: CommandLine) -> Seq<Seq<char>> {
    let filter: Seq<Seq<char>> = match cli.bench_name {
        Some(n) => seq![n@],
        None => seq![],
    };
    let trailing: Seq<Seq<char>> = match cli.args {
        Some(a) => a.deep_view(),
        None => seq![],
    };
    filter + trailing
}

/// Appends a string to an argument list.
fn push_arg(args: &mut Vec<String>, s: String)
    ensures
        final(args).deep_view() == old(args).deep_view().push(s@),
{
    args.push(s);
    assert(args.deep_view() =~= old(args).deep_view().push(s@));
}

/// Appends `name` when the switch is on.
fn push_flag(args: &mut Vec<String>, on: bool, name: &str)
    ensures
        final(args).deep_view() == old(args).deep_view() + flag_arg(on, name@),
{
    if on {
        push_arg(args, name.to_owned());
        assert(old(args).deep_view().push(name@) =~= old(args).deep_view() + seq![name@]);
    } else {
        assert(old(args).deep_view() + Seq::<Seq<char>>::empty() =~= old(args).deep_view());
    }
}

/// Appends `name` and the values, when the option was given.
fn push_list(args: &mut Vec<String>, values: &Option<Vec<String>>, name: &str)
    ensures
        final(args).deep_view() == old(args).deep_view() + list_arg(values.deep_view(), name@),
{
    match values {
        Some(vs) => {
            push_arg(args, name.to_owned());
            let ghost start = args.deep_view();
            let mut i: usize = 0;
            while i < vs.len()
                invariant
                    i <= vs.len(),
                    args.deep_view() == start + vs.deep_view().take(i as int),
                decreases vs.len() - i,
            {
                push_arg(args, vs[i].clone());
                assert(start + vs.deep_view().take(i as int).push(vs[i as int]@) =~= start
                    + vs.deep_view().take(i + 1));
                i = i + 1;
            }
            assert(vs.deep_view().take(vs.len() as int) =~= vs.deep_view());
            assert(old(args).deep_view().push(name@) + vs.deep_view() =~= old(args).deep_view() + (
            seq![name@] + vs.deep_view()));
        },
        None => {
            assert(old(args).deep_view() + Seq::<Seq<char>>::empty() =~= old(args).deep_view());
        },
    }
}

/// Appends `name` and the value, when the option was given.
fn push_value(args: &mut Vec<String>, value: &Option<String>, name: &str)
    ensures
        final(args).deep_view() == old(args).deep_view() + value_arg(value.deep_view(), name@),
{
    match value {
        Some(v) => {
            push_arg(args, name.to_owned());
            push_arg(args, v.clone());
            assert(old(args).deep_view().push(name@).push(v@) =~= old(args).deep_view() + seq![
                name@,
                v@,
            ]);
        },
        None => {
            assert(old(args).deep_view() + Seq::<Seq<char>>::empty() =~= old(args).deep_view());
        },
    }
}

/// Appends `name`, `n` times.
fn push_repeated(args: &mut Vec<String>, n: u64, name: &str)
    ensures
        final(args).deep_view() == old(args).deep_view() + repeated_arg(n as nat, name@),
{
    let mut i: u64 = 0;
    assert(old(args).deep_view() + Seq::<Seq<char>>::empty() =~= old(args).deep_view());
    while i < n
        invariant
            i <= n,
            args.deep_view() == old(args).deep_view() + repeated_arg(i as nat, name@),
        decreases n - i,
    {
        push_arg(args, name.to_owned());
        assert(old(args).deep_view() + repeated_arg(i as nat, name@).push(name@) =~= old(
            args,
        ).deep_view() + repeated_arg((i + 1) as nat, name@));
        i = i + 1;
    }
}

/// Builds the arguments handed to Cargo.
#[verifier::rlimit(60)]
fn build_cargo_arguments(cli: &CommandLine) -> (r: Vec<String>)
    ensures
        r.deep_view() == cargo_arguments(*cli),
{
    let mut a: Vec<String> = Vec::new();
    assert(a.deep_view() =~= Seq::<Seq<char>>::empty());
    push_flag(&mut a, cli.lib, "--lib");
    assert(a.deep_view() =~= flag_arg(cli.lib, "--lib"@));
    push_list(&mut a, &cli.bin, "--bin");
    push_flag(&mut a, cli.bins, "--bins");
    push_list(&mut a, &cli.example, "--example");
    push_flag(&mut a, cli.examples, "--examples");
    push_list(&mut a, &cli.test, "--test");
    push_flag(&mut a, cli.tests, "--tests");
    push_list(&mut a, &cli.bench, "--bench");
    push_flag(&mut a, cli.benches, "--benches");
    push_flag(&mut a, cli.all_targets, "--all-targets");
    push_list(&mut a, &cli.package, "--package");
    push_flag(&mut a, cli.all, "--all");
    push_flag(&mut a, cli.workspace, "--workspace");
    push_list(&mut a, &cli.exclude, "--exclude");
    push_value(&mut a, &cli.jobs, "--jobs");
    push_list(&mut a, &cli.features, "--features");
    push_flag(&mut a, cli.all_features, "--all-features");
    push_flag(&mut a, cli.no_default_features, "--no-default-features");
    push_value(&mut a, &cli.target, "--target");
    push_value(&mut a, &cli.target_dir, "--target-dir");
    push_value(&mut a, &cli.manifest_path, "--manifest-path");
    push_repeated(&mut a, cli.verbose, "--verbose");
    push_value(&mut a, &cli.color, "--color");
    push_flag(&mut a, cli.frozen, "--frozen");
    push_flag(&mut a, cli.locked, "--locked");
    push_flag(&mut a, cli.offline, "--offline");
    push_list(&mut a, &cli.unstable_flags, "-Z");
    a
}

/// Builds the configuration of a run from the parsed command line, the config file and the
/// environment. Every output format, plotting backend, color and message format name that
/// it reads must be known.
pub fn configure(cli: CommandLine, toml: TomlConfig, env: Environment) -> (r: FullConfig)
    requires
        names_are_known(cli, toml),
    ensures
        r.cargo_args.deep_view() == cargo_arguments(cli),
        r.additional_args.deep_view() == benchmark_arguments(cli),
        r.self_config.criterion_home@ == chosen_criterion_home(cli, toml, env),
        r.self_config.do_run == !cli.no_run,
        r.self_config.do_fail_fast == !cli.no_fail_fast,
        r.self_config.debug_build == cli.debug,
        r.self_config.message_format == match cli.message_format {
            Some(m) => message_format_named(m@),
            None => None,
        },
        Some(r.self_config.output_format) == match asked_output_format(cli, toml) {
            Some(s) => output_format_named(s),
            None => Some(OutputFormat::Criterion),
        },
        Some(r.self_config.plotting_backend) == match asked_plotting_backend(cli, toml) {
            Some(s) => plotting_backend_named(s),
            None => Some(PlottingBackend::Auto),
        },
        Some(r.self_config.text_color) == match cli.color {
            Some(c) => text_color_named(c@),
            None => Some(TextColor::Auto),
        },
{
    let cargo_args = build_cargo_arguments(&cli);
    let criterion_home = match (&env.criterion_home, &toml.criterion_home, &cli.target_dir) {
        (Some(h), _, _) => h.clone(),
        (None, Some(h), _) => h.clone(),
        (None, None, Some(d)) => crate::text::join_path(d.as_str(), "criterion"),
        (None, None, None) => match &env.cargo_target_dir {
            Some(d) => crate::text::join_path(d.as_str(), "criterion"),
            None => "target/criterion".to_owned(),
        },
    };
    let output_format = match &cli.output_format {
        Some(s) => OutputFormat::from_str(s.as_str()),
        None => match &toml.output_format {
            Some(s) => OutputFormat::from_str(s.as_str()),
            None => OutputFormat::Criterion,
        },
    };
    let plotting_backend = match &cli.plotting_backend {
        Some(s) => PlottingBackend::from_str(s.as_str()),
        None => match &toml.plotting_backend {
            Some(s) => PlottingBackend::from_str(s.as_str()),
            None => PlottingBackend::Auto,
        },
    };
    let text_color = match &cli.color {
        Some(c) => TextColor::from_str(c.as_str()),
        None => TextColor::Auto,
    };
    let message_format = match &cli.message_format {
        Some(m) => Some(MessageFormat::from_str(m.as_str())),
        None => None,
    };
    let self_config = SelfConfig {
        criterion_home,
        do_run: !cli.no_run,
        do_fail_fast: !cli.no_fail_fast,
        debug_build: cli.debug,
        message_format,
        output_format,
        text_color,
        plotting_backend,
    };
    let mut additional_args: Vec<String> = Vec::new();
    assert(additional_args.deep_view() =~= Seq::<Seq<char>>::empty());
    match &cli.bench_name {
        Some(n) => push_arg(&mut additional_args, n.clone()),
        None => {},
    }
    let ghost first = additional_args.deep_view();
    match &cli.args {
        Some(a) => {
            let mut i: usize = 0;
            while i < a.len()
                invariant
                    i <= a.len(),
                    additional_args.deep_view() == first + a.deep_view().take(i as int),
                decreases a.len() - i,
            {
                push_arg(&mut additional_args, a[i].clone());
                assert(first + a.deep_view().take(i as int).push(a[i as int]@) =~= first
                    + a.deep_view().take(i + 1));
                i = i + 1;
            }
            assert(a.deep_view().take(a.len() as int) =~= a.deep_view());
        },
        None => {
            assert(first + Seq::<Seq<char>>::empty() =~= first);
        },
    }
    assert(additional_args.deep_view() =~= benchmark_arguments(cli));
    FullConfig { self_config, cargo_args, additional_args }
}

} // verus!

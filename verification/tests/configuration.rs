use cargo_criterion::args::CargoArguments;
use cargo_criterion::cli::{configure_cli_output, to_nanos};
use cargo_criterion::compile::cargo_subcommand;
use cargo_criterion::config::{
    configure, CommandLine, Environment, OutputFormat, PlottingBackend, TextColor, TomlConfig,
};
use cargo_criterion::message_formats::MessageFormat;

fn strings(items: &[&str]) -> Vec<String> {
    items.iter().map(|s| s.to_string()).collect()
}

#[test]
fn names_of_settings() {
    assert_eq!(OutputFormat::from_str("criterion"), OutputFormat::Criterion);
    assert_eq!(OutputFormat::from_str("quiet"), OutputFormat::Quiet);
    assert_eq!(OutputFormat::from_str("verbose"), OutputFormat::Verbose);
    assert_eq!(OutputFormat::from_str("bencher"), OutputFormat::Bencher);
    assert_eq!(TextColor::from_str("always"), TextColor::Always);
    assert_eq!(TextColor::from_str("never"), TextColor::Never);
    assert_eq!(TextColor::from_str("auto"), TextColor::Auto);
    assert_eq!(PlottingBackend::from_str("gnuplot"), PlottingBackend::Gnuplot);
    assert_eq!(PlottingBackend::from_str("plotters"), PlottingBackend::Plotters);
    assert_eq!(PlottingBackend::from_str("auto"), PlottingBackend::Auto);
}

#[test]
fn defaults_when_nothing_is_given() {
    let c = configure(CommandLine::default(), TomlConfig::default(), Environment::default());
    assert_eq!(c.self_config.criterion_home, "target/criterion");
    assert!(c.self_config.do_run);
    assert!(c.self_config.do_fail_fast);
    assert_eq!(c.self_config.output_format, OutputFormat::Criterion);
    assert_eq!(c.self_config.plotting_backend, PlottingBackend::Auto);
    assert_eq!(c.self_config.text_color, TextColor::Auto);
    assert!(c.cargo_args.is_empty());
    assert!(c.additional_args.is_empty());
}

#[test]
fn criterion_home_priority() {
    let env = Environment {
        criterion_home: Some("/env/home".to_string()),
        cargo_target_dir: Some("/cargo/target".to_string()),
    };
    let toml = TomlConfig { criterion_home: Some("/toml/home".to_string()), ..TomlConfig::default() };
    let cli = CommandLine { target_dir: Some("/cli/target".to_string()), ..CommandLine::default() };

    let c = configure(cli.clone(), toml.clone(), env.clone());
    assert_eq!(c.self_config.criterion_home, "/env/home");

    let no_env_home = Environment { criterion_home: None, ..env.clone() };
    let c = configure(cli.clone(), toml.clone(), no_env_home.clone());
    assert_eq!(c.self_config.criterion_home, "/toml/home");

    let c = configure(cli.clone(), TomlConfig::default(), no_env_home.clone());
    assert_eq!(c.self_config.criterion_home, "/cli/target/criterion");

    let c = configure(CommandLine::default(), TomlConfig::default(), no_env_home);
    assert_eq!(c.self_config.criterion_home, "/cargo/target/criterion");
}

#[test]
fn cli_settings_override_config_file() {
    let toml = TomlConfig {
        criterion_home: None,
        output_format: Some("quiet".to_string()),
        plotting_backend: Some("gnuplot".to_string()),
    };
    let c = configure(CommandLine::default(), toml.clone(), Environment::default());
    assert_eq!(c.self_config.output_format, OutputFormat::Quiet);
    assert_eq!(c.self_config.plotting_backend, PlottingBackend::Gnuplot);

    let cli = CommandLine {
        output_format: Some("verbose".to_string()),
        plotting_backend: Some("plotters".to_string()),
        color: Some("never".to_string()),
        no_run: true,
        no_fail_fast: true,
        ..CommandLine::default()
    };
    let c = configure(cli, toml, Environment::default());
    assert_eq!(c.self_config.output_format, OutputFormat::Verbose);
    assert_eq!(c.self_config.plotting_backend, PlottingBackend::Plotters);
    assert_eq!(c.self_config.text_color, TextColor::Never);
    assert!(!c.self_config.do_run);
    assert!(!c.self_config.do_fail_fast);
}

#[test]
fn cargo_arguments_in_order() {
    let cli = CommandLine {
        lib: true,
        bin: Some(strings(&["a", "b"])),
        benches: true,
        package: Some(strings(&["p"])),
        jobs: Some("4".to_string()),
        features: Some(strings(&["x y"])),
        target: Some("x86_64-unknown-linux-gnu".to_string()),
        verbose: 2,
        color: Some("always".to_string()),
        offline: true,
        unstable_flags: Some(strings(&["unstable-options"])),
        ..CommandLine::default()
    };
    let c = configure(cli, TomlConfig::default(), Environment::default());
    assert_eq!(
        c.cargo_args,
        strings(&[
            "--lib",
            "--bin",
            "a",
            "b",
            "--benches",
            "--package",
            "p",
            "--jobs",
            "4",
            "--features",
            "x y",
            "--target",
            "x86_64-unknown-linux-gnu",
            "--verbose",
            "--verbose",
            "--color",
            "always",
            "--offline",
            "-Z",
            "unstable-options",
        ])
    );
}

#[test]
fn benchmark_arguments_are_filter_then_trailing() {
    let cli = CommandLine {
        bench_name: Some("fib".to_string()),
        args: Some(strings(&["--noplot", "--save-baseline", "b"])),
        ..CommandLine::default()
    };
    let c = configure(cli, TomlConfig::default(), Environment::default());
    assert_eq!(c.additional_args, strings(&["fib", "--noplot", "--save-baseline", "b"]));

    let cli = CommandLine { args: Some(strings(&["--list"])), ..CommandLine::default() };
    let c = configure(cli, TomlConfig::default(), Environment::default());
    assert_eq!(c.additional_args, strings(&["--list"]));
}

#[test]
fn cli_output_on_a_terminal() {
    let s = configure_cli_output(OutputFormat::Criterion, TextColor::Auto, true, false);
    assert!(s.enable_text_overwrite);
    assert!(s.enable_text_coloring);
    assert!(s.show_differences);
    assert!(!s.verbose);
}

#[test]
fn cli_output_never_colored() {
    let s = configure_cli_output(OutputFormat::Verbose, TextColor::Never, true, false);
    assert!(!s.enable_text_overwrite);
    assert!(!s.enable_text_coloring);
    assert!(s.show_differences);
    assert!(s.verbose);
}

#[test]
fn cli_output_when_debugging_or_piped() {
    let s = configure_cli_output(OutputFormat::Quiet, TextColor::Always, true, true);
    assert!(!s.enable_text_overwrite);
    assert!(s.enable_text_coloring);
    assert!(!s.show_differences);
    assert!(s.verbose);

    let s = configure_cli_output(OutputFormat::Bencher, TextColor::Auto, false, false);
    assert!(!s.enable_text_overwrite);
    assert!(!s.enable_text_coloring);
    assert!(!s.show_differences);
    assert!(!s.verbose);
}

#[test]
fn durations_in_nanoseconds() {
    assert_eq!(to_nanos(0, 0), 0);
    assert_eq!(to_nanos(2, 5), 2_000_000_005);
    assert_eq!(to_nanos(1, 999_999_999), 1_999_999_999);
}

#[test]
fn no_extra_cargo_arguments() {
    assert!(CargoArguments {}.to_arguments().is_empty());
}

#[test]
fn message_format_names() {
    assert_eq!(MessageFormat::from_str("json"), MessageFormat::Json);
    assert_eq!(MessageFormat::from_str("openmetrics"), MessageFormat::OpenMetrics);
}

#[test]
fn debug_run_with_plotters() {
    let cli = CommandLine { debug: true, plotting_backend: Some("plotters".to_string()), ..CommandLine::default() };
    let env = Environment { criterion_home: Some("/tmp/h".to_string()), cargo_target_dir: None };
    let c = configure(cli, TomlConfig::default(), env);
    assert_eq!(c.self_config.plotting_backend, PlottingBackend::Plotters);
    assert!(c.self_config.debug_build);
    assert_eq!(c.self_config.criterion_home, "/tmp/h");
    assert!(c.self_config.do_run);
    assert_eq!(c.self_config.message_format, None);
}

#[test]
fn debug_run_with_json_messages() {
    let cli = CommandLine { debug: true, message_format: Some("json".to_string()), ..CommandLine::default() };
    let env = Environment { criterion_home: Some("/tmp/h".to_string()), cargo_target_dir: None };
    let c = configure(cli, TomlConfig::default(), env);
    assert_eq!(c.self_config.message_format, Some(MessageFormat::Json));
    assert!(c.self_config.debug_build);
    assert_eq!(c.self_config.output_format, OutputFormat::Criterion);
    let plain = configure(CommandLine::default(), TomlConfig::default(), Environment::default());
    assert!(!plain.self_config.debug_build);
}

#[test]
fn build_subcommands() {
    assert_eq!(cargo_subcommand(false), strings(&["bench"]));
    assert_eq!(cargo_subcommand(true), strings(&["test", "--benches"]));
}

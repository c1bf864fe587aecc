use cargo_criterion::connection::{AxisScale, PlotConfiguration, Throughput};
use cargo_criterion::message_formats::json::{
    change_type, json_escape, tag_message, ChangeType, JsonMessageReport, JsonThroughput, BENCHMARK_COMPLETE, GROUP_COMPLETE,
};
use cargo_criterion::message_formats::openmetrics::{benchmark_info_line, labels, result_line_head};
use cargo_criterion::message_formats::{create_machine_report, MessageFormat, MessageReport};
use cargo_criterion::model::Model;
use cargo_criterion::plot::{
    gnuplot_escape, iterations_label, plan_plots, plot_file_name, plot_jobs, PlannedPlot, PlotContext, PlotKind, Size, Statistic,
};
use cargo_criterion::report::{make_filename_safe, BenchmarkId, ComparisonResult, ReportContext};

fn id(group: &str, function: Option<&str>, value: Option<&str>) -> BenchmarkId {
    BenchmarkId::new(group.to_string(), function.map(|s| s.to_string()), value.map(|s| s.to_string()), None)
}

fn context(dir: &str) -> ReportContext {
    ReportContext {
        output_directory: dir.to_string(),
        plot_config: PlotConfiguration { summary_scale: AxisScale::Linear },
    }
}

#[test]
fn unsafe_characters_become_underscores() {
    assert_eq!(make_filename_safe("a/b:c?"), "a_b_c_");
    assert_eq!(make_filename_safe("<x|y>*\"^\\"), "_x_y_____");
    assert_eq!(make_filename_safe("plain name-1.2"), "plain name-1.2");
    assert_eq!(make_filename_safe(""), "");
    let once = make_filename_safe("a:b/c");
    assert_eq!(make_filename_safe(&once), once);
}

#[test]
fn titles_and_directories_of_ids() {
    let full = id("group/x", Some("f"), Some("1 2"));
    assert_eq!(full.as_title(), "group/x/f/1 2");
    assert_eq!(full.as_directory_name(), "group_x/f/1 2");
    let only_value = id("g", None, Some("10"));
    assert_eq!(only_value.as_title(), "g/10");
    assert_eq!(only_value.as_directory_name(), "g/10");
    let only_group = id("g:h", None, None);
    assert_eq!(only_group.as_title(), "g:h");
    assert_eq!(only_group.as_directory_name(), "g_h");
    let with_throughput =
        BenchmarkId::new("g".to_string(), Some("f".to_string()), None, Some(Throughput::Bytes(64)));
    assert_eq!(with_throughput.throughput_of(), Some(Throughput::Bytes(64)));
    assert_eq!(with_throughput.duplicate(), with_throughput);
}

#[test]
fn report_and_plot_paths() {
    let ctx = context("target/criterion/reports");
    let i = id("g", Some("f"), None);
    assert_eq!(ctx.report_path(&i, "index.html"), "target/criterion/reports/g/f/index.html");
    let plot = PlotContext { id: &i, context: &ctx, size: None, is_thumbnail: false };
    assert_eq!(plot.line_comparison_path(), "target/criterion/reports/g/f/lines.svg");
    assert_eq!(plot.violin_path(), "target/criterion/reports/g/f/violin.svg");
    let small = plot.thumbnail(true).size(Some(Size(450, 300)));
    assert!(small.is_thumbnail);
    assert_eq!(small.size, Some(Size(450, 300)));
}

#[test]
fn gnuplot_titles_are_escaped() {
    assert_eq!(gnuplot_escape("a_b'c"), "a\\_b''c");
    assert_eq!(gnuplot_escape("plain"), "plain");
}

#[test]
fn iteration_axis_labels() {
    assert_eq!(iterations_label(0), "Iterations");
    assert_eq!(iterations_label(3), "Iterations (x 10^3)");
    assert_eq!(iterations_label(-2), "Iterations (x 10^-2)");
    assert_eq!(iterations_label(12), "Iterations (x 10^12)");
}

#[test]
fn plots_of_a_report() {
    let p = plan_plots(true, true, false);
    assert!(p.regression && p.comparison && !p.regression_comparison);
    let p = plan_plots(true, true, true);
    assert!(p.regression_comparison);
    let p = plan_plots(false, false, true);
    assert!(!p.regression && !p.comparison && !p.regression_comparison);
}

#[test]
fn json_lines_carry_their_reason_first() {
    assert_eq!(
        tag_message(BENCHMARK_COMPLETE, "{\"id\":\"g/f\"}"),
        "{\"reason\":\"benchmark-complete\",\"id\":\"g/f\"}"
    );
    assert_eq!(tag_message(GROUP_COMPLETE, "{}"), "{\"reason\":\"group-complete\",}");
}

#[test]
fn json_throughput_units() {
    let t = JsonThroughput::from_throughput(&Throughput::Bytes(1024));
    assert_eq!((t.per_iteration, t.unit.as_str()), (1024, "bytes"));
    let t = JsonThroughput::from_throughput(&Throughput::Elements(7));
    assert_eq!((t.per_iteration, t.unit.as_str()), (7, "elements"));
}

#[test]
fn json_change_types() {
    assert_eq!(change_type(false, ComparisonResult::Regressed), ChangeType::NoChange);
    assert_eq!(change_type(true, ComparisonResult::Improved), ChangeType::Improved);
    assert_eq!(change_type(true, ComparisonResult::Regressed), ChangeType::Regressed);
    assert_eq!(change_type(true, ComparisonResult::NonSignificant), ChangeType::NoChange);
}

#[test]
fn json_group_summary() {
    let mut model = Model::new("target/criterion", "main", None, None);
    for (f, v) in [("f", "1"), ("f", "2")] {
        let mut i = id("my group", Some(f), Some(v));
        model.add_benchmark_id("bench", &mut i);
        model.benchmark_complete(&i, 1);
    }
    let group = model.add_benchmark_group("bench", "my group");
    let message = JsonMessageReport.summarize("target/criterion/reports", "my group", group);
    assert_eq!(message.group_name, "my group");
    assert_eq!(message.benchmarks, vec!["my group/f/1".to_string(), "my group/f/2".to_string()]);
    assert_eq!(message.report_directory, "target/criterion/reports/my group");
}

#[test]
fn openmetrics_labels() {
    assert_eq!(
        labels(&Some("f".to_string()), &Some("10".to_string()), "mean"),
        "function=\"f\",input_size=\"10\",aggregation=\"mean\""
    );
    assert_eq!(labels(&None, &None, "median"), "aggregation=\"median\"");
}

#[test]
fn openmetrics_lines() {
    assert_eq!(
        result_line_head("ns", "g", "estimate", "aggregation=\"mean\""),
        "criterion_benchmark_result_ns{id=\"g\",confidence=\"estimate\",aggregation=\"mean\"} "
    );
    assert_eq!(
        benchmark_info_line("g", &Some("10".to_string()), &Some("f".to_string()), "out/g/f/10"),
        "criterion_benchmark_info{id=\"g\",input_size=\"10\",function=\"f\",report_directory=\"out/g/f/10\"} 1"
    );
    assert_eq!(
        benchmark_info_line("g", &None, &None, "out/g"),
        "criterion_benchmark_info{id=\"g\",report_directory=\"out/g\"} 1"
    );
}

#[test]
fn machine_reports() {
    assert_eq!(create_machine_report(None), None);
    assert_eq!(create_machine_report(Some(MessageFormat::Json)), Some(MessageReport::Json(JsonMessageReport)));
    assert!(matches!(create_machine_report(Some(MessageFormat::OpenMetrics)), Some(MessageReport::OpenMetrics(_))));
}

#[test]
fn plot_file_names() {
    assert_eq!(plot_file_name(PlotKind::Pdf, false, false), "pdf.svg");
    assert_eq!(plot_file_name(PlotKind::Pdf, true, false), "pdf_small.svg");
    assert_eq!(plot_file_name(PlotKind::Regression, false, true), "both/regression.svg");
    assert_eq!(plot_file_name(PlotKind::IterationTimes, true, true), "relative_iteration_times_small.svg");
}

#[test]
fn json_benchmark_complete_head() {
    let plain = id("g/h", Some("f"), None);
    let head = JsonMessageReport.benchmark_complete_head("out/reports", &plain);
    assert_eq!(head.id, "g/h/f");
    assert_eq!(head.report_directory, "out/reports/g_h/f");
    assert!(head.throughput.is_empty());
    let with_throughput = BenchmarkId::new("g".to_string(), None, Some("8".to_string()), Some(Throughput::Elements(8)));
    let head = JsonMessageReport.benchmark_complete_head("out", &with_throughput);
    assert_eq!(head.throughput.len(), 1);
    assert_eq!((head.throughput[0].per_iteration, head.throughput[0].unit.as_str()), (8, "elements"));
}

#[test]
fn plots_drawn_for_a_report() {
    let planned = |kind, thumbnail, comparison| PlannedPlot { kind, thumbnail, comparison };
    let dist = |s| planned(PlotKind::Distribution(s), false, false);
    assert_eq!(
        plot_jobs(plan_plots(false, false, false)),
        vec![
            planned(PlotKind::Pdf, false, false),
            planned(PlotKind::Pdf, true, false),
            planned(PlotKind::IterationTimes, false, false),
            planned(PlotKind::IterationTimes, true, false),
            dist(Statistic::Typical),
            dist(Statistic::Mean),
            dist(Statistic::Median),
            dist(Statistic::MedianAbsDev),
            dist(Statistic::MedianAbsDev),
            dist(Statistic::StdDev),
        ]
    );
    let with_comparison = plot_jobs(plan_plots(true, true, false));
    assert_eq!(with_comparison.len(), 18);
    assert_eq!(with_comparison[2], planned(PlotKind::Regression, false, false));
    assert_eq!(with_comparison[5], dist(Statistic::Slope));
    assert_eq!(with_comparison[13], planned(PlotKind::IterationTimes, false, true));
    assert_eq!(with_comparison[15], planned(PlotKind::TTest, false, true));
    assert_eq!(with_comparison[17], planned(PlotKind::Distribution(Statistic::Median), false, true));
    assert_eq!(plot_jobs(plan_plots(true, true, true))[14], planned(PlotKind::Regression, true, true));
}

#[test]
fn distribution_and_t_test_files() {
    assert_eq!(plot_file_name(PlotKind::Distribution(Statistic::MedianAbsDev), false, false), "MAD.svg");
    assert_eq!(plot_file_name(PlotKind::Distribution(Statistic::Mean), false, true), "change/mean.svg");
    assert_eq!(plot_file_name(PlotKind::TTest, false, true), "change/t-test.svg");
}

#[test]
fn json_reasons_are_escaped() {
    assert_eq!(tag_message("a\"b", "{}"), "{\"reason\":\"a\\\"b\",}");
    for text in ["plain", "quote\" and \\ backslash", "tab\tline\nfeed\r\u{8}\u{c}", "\u{1}\u{1f}\u{7f}é", ""] {
        let expected = serde_json::to_string(text).unwrap();
        assert_eq!(format!("\"{}\"", json_escape(text)), expected);
    }
}

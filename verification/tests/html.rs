use cargo_criterion::html::{
    comparison_plots, explanation, if_exists, index_groups, inequality, measurement_plots, path_prefix,
    summary_jobs, thumbnail_size, BenchmarkGroup, IndividualBenchmark, Plot, ReportLink, Size,
};
use cargo_criterion::model::Model;
use cargo_criterion::report::{BenchmarkId, ComparisonResult};

fn strings(items: &[&str]) -> Vec<String> {
    items.iter().map(|s| s.to_string()).collect()
}

fn id(group: &str, function: Option<&str>, value: Option<&str>) -> BenchmarkId {
    BenchmarkId::new(group.to_string(), function.map(|s| s.to_string()), value.map(|s| s.to_string()), None)
}

fn link(l: &ReportLink) -> (String, Option<String>) {
    (l.name.clone(), l.path.clone())
}

fn named(name: &str, path: Option<&str>) -> (String, Option<String>) {
    (name.to_string(), path.map(|p| p.to_string()))
}

fn model_with(ids: &[(&str, Option<&str>, Option<&str>)]) -> Model {
    let mut model = Model::new("home", "t", None, None);
    for (g, f, v) in ids {
        let mut i = id(g, *f, *v);
        model.add_benchmark_id("bench", &mut i);
        model.benchmark_complete(&i, 1);
    }
    model
}

#[test]
fn report_pages_that_exist() {
    let files = strings(&["g/index.html", "g/f/regression.svg"]);
    assert_eq!(if_exists(&files, "g"), Some("g/index.html".to_string()));
    assert_eq!(if_exists(&files, "h"), None);
    assert_eq!(if_exists(&files, "g/f"), None);
}

#[test]
fn links_point_at_safe_directories() {
    let files = strings(&["a_b/index.html", "a_b/f_x/index.html", "a_b/1/index.html", "a_b/f_x/1/index.html"]);
    assert_eq!(link(&ReportLink::group(&files, "a/b")), named("a/b", Some("a_b/index.html")));
    assert_eq!(link(&ReportLink::function(&files, "a/b", "f:x")), named("f:x", Some("a_b/f_x/index.html")));
    assert_eq!(link(&ReportLink::value(&files, "a/b", "1")), named("1", Some("a_b/1/index.html")));
    assert_eq!(link(&ReportLink::value(&files, "a/b", "2")), named("2", None));
    let i = id("a/b", Some("f:x"), Some("1"));
    assert_eq!(link(&ReportLink::individual(&files, &i)), named("a/b/f:x/1", Some("a_b/f_x/1/index.html")));
}

#[test]
fn individual_benchmarks_on_a_summary() {
    let files = strings(&["g/f/regression.svg"]);
    let b = IndividualBenchmark::from_id(&files, "..", &id("g", Some("f"), None));
    assert_eq!(b.name, "g/f");
    assert_eq!(b.path, "../g/f");
    assert!(b.regression_exists);
    let b = IndividualBenchmark::from_id(&files, "../..", &id("g", Some("h"), None));
    assert_eq!(b.path, "../../g/h");
    assert!(!b.regression_exists);
}

#[test]
fn group_table_on_the_index() {
    let model = model_with(&[
        ("g", Some("f1"), Some("1")),
        ("g", Some("f2"), Some("1")),
        ("g", Some("f1"), Some("2")),
    ]);
    let files = strings(&["g/index.html", "g/f1/1/index.html"]);
    let group = model.groups().get("g").unwrap();
    let table = BenchmarkGroup::new(&files, "g", group);
    assert_eq!(link(&table.group_report), named("g", Some("g/index.html")));
    let functions: Vec<_> = table.function_ids.as_ref().unwrap().iter().map(link).collect();
    assert_eq!(functions, vec![named("f1", None), named("f2", None)]);
    let values: Vec<_> = table.values.as_ref().unwrap().iter().map(link).collect();
    assert_eq!(values, vec![named("1", None), named("2", None)]);
    assert_eq!(table.individual_links.len(), 2);
    let first: Vec<_> = table.individual_links[0].benchmarks.iter().map(link).collect();
    assert_eq!(first, vec![named("g/f1/1", Some("g/f1/1/index.html")), named("g/f2/1", None)]);
    assert_eq!(table.individual_links[0].value.as_ref().map(link), Some(named("1", None)));
    let second: Vec<_> = table.individual_links[1].benchmarks.iter().map(link).collect();
    assert_eq!(second, vec![named("g/f1/2", None)]);
}

#[test]
fn group_table_without_functions() {
    let model = model_with(&[("g", None, Some("10")), ("g", Some("f"), Some("10"))]);
    let group = model.groups().get("g").unwrap();
    let table = BenchmarkGroup::new(&vec![], "g", group);
    assert!(table.function_ids.is_none());
    let values: Vec<_> = table.values.as_ref().unwrap().iter().map(link).collect();
    assert_eq!(values, vec![named("10", None)]);
    let row: Vec<_> = table.individual_links[0].benchmarks.iter().map(link).collect();
    assert_eq!(row, vec![named("g/10", None), named("g/f/10", None)]);
}

#[test]
fn index_shows_every_group() {
    let model = model_with(&[("a", Some("f"), None), ("b", Some("f"), None)]);
    let groups = index_groups(&vec![], &model);
    let names: Vec<_> = groups.iter().map(|g| g.group_report.name.clone()).collect();
    assert_eq!(names, strings(&["a", "b"]));
    assert!(groups[0].values.is_none());
}

#[test]
fn summaries_of_a_group() {
    let model = model_with(&[
        ("g", Some("f1"), Some("1")),
        ("g", Some("f1"), Some("2")),
        ("g", Some("f2"), Some("1")),
    ]);
    let group = model.groups().get("g").unwrap();
    let jobs = summary_jobs("g", group);
    let described: Vec<(String, Vec<String>, bool)> = jobs
        .iter()
        .map(|j| {
            (
                j.id.as_title().to_string(),
                j.members.iter().map(|m| m.as_title().to_string()).collect(),
                j.full_summary,
            )
        })
        .collect();
    assert_eq!(
        described,
        vec![
            ("g/f1".to_string(), strings(&["g/f1/1", "g/f1/2"]), false),
            ("g/1".to_string(), strings(&["g/f1/1", "g/f2/1"]), false),
            ("g".to_string(), strings(&["g/f1/1", "g/f1/2", "g/f2/1"]), true),
        ]
    );
    assert_eq!(jobs[1].id.as_directory_name(), "g/1");
}

#[test]
fn empty_group_gets_no_summary() {
    let mut model = Model::new("home", "t", None, None);
    let group = model.add_benchmark_group("bench", "g");
    assert!(summary_jobs("g", group).is_empty());
}

#[test]
fn summary_path_prefixes() {
    assert_eq!(path_prefix(true), "..");
    assert_eq!(path_prefix(false), "../..");
}

#[test]
fn comparison_texts() {
    assert_eq!(explanation(false, ComparisonResult::Improved), "No change in performance detected.");
    assert_eq!(explanation(true, ComparisonResult::Improved), "Performance has improved.");
    assert_eq!(explanation(true, ComparisonResult::Regressed), "Performance has regressed.");
    assert_eq!(explanation(true, ComparisonResult::NonSignificant), "Change within noise threshold.");
    assert_eq!(inequality(true), "<");
    assert_eq!(inequality(false), ">");
}

#[test]
fn plots_listed_on_reports() {
    let names = |ps: Vec<Plot>| ps.into_iter().map(|p| (p.name, p.url)).collect::<Vec<_>>();
    let with_slope = names(measurement_plots(true));
    assert_eq!(with_slope.len(), 6);
    assert_eq!(with_slope[2], ("Std. Dev.".to_string(), "SD.svg".to_string()));
    assert_eq!(with_slope[5], ("Slope".to_string(), "slope.svg".to_string()));
    assert_eq!(names(measurement_plots(false)).len(), 5);
    assert_eq!(
        names(comparison_plots()),
        vec![
            ("Change in mean".to_string(), "change/mean.svg".to_string()),
            ("Change in median".to_string(), "change/median.svg".to_string()),
            ("T-Test".to_string(), "change/t-test.svg".to_string()),
        ]
    );
    assert_eq!(thumbnail_size(), Size(450, 300));
    let p = Plot::new("Mean", "mean.svg");
    assert_eq!((p.name.as_str(), p.url.as_str()), ("Mean", "mean.svg"));
}
